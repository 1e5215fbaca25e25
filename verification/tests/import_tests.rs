use rust_runner::context::Context;

#[test]
fn imports_collected_with_default_toolchain() {
    let ctx = Context::parse("use rand;\nuse serde;\nfn main(){}\n").unwrap();
    assert_eq!(ctx.toolchain, "stable");
    assert!(ctx.imports.contains("rand"));
    assert!(ctx.imports.contains("serde"));
    assert_eq!(ctx.imports.len(), 2);
}

#[test]
fn reserved_names_excluded() {
    let deps = Context::parse_imports("use std;\nuse crate;\nuse self;\nuse super;\nuse rand;\n");
    assert!(deps.contains("rand"));
    assert!(!deps.contains("std"));
    assert!(!deps.contains("crate"));
    assert!(!deps.contains("self"));
    assert!(!deps.contains("super"));
    assert_eq!(deps.len(), 1);
}

#[test]
fn reserved_names_excluded_in_path_position() {
    let deps = Context::parse_imports("use std::collections::HashMap;\nuse crate::module;\n");
    assert_eq!(deps.len(), 0);
}

#[test]
fn order_does_not_matter() {
    let a = Context::parse_imports("use alpha;\nuse beta;\nfn main(){}\n");
    let b = Context::parse_imports("use beta;\nfn main(){}\nuse alpha;\n");
    assert_eq!(a.len(), 2);
    assert_eq!(b.len(), 2);
    assert!(a.contains("alpha") && a.contains("beta"));
    assert!(b.contains("alpha") && b.contains("beta"));
}

#[test]
fn duplicates_collapse() {
    let deps = Context::parse_imports("use rand;\nuse rand;\nuse rand;\n");
    assert_eq!(deps.len(), 1);
    assert!(deps.contains("rand"));
}

#[test]
fn only_first_path_segment_is_captured() {
    let deps = Context::parse_imports("use serde::de::Deserialize;\n");
    assert!(deps.contains("serde"));
    assert_eq!(deps.len(), 1);
}

#[test]
fn imports_found_anywhere_in_text() {
    let deps = Context::parse_imports("fn main(){}\nmod inner {\n    use itertools;\n}\n");
    assert!(deps.contains("itertools"));
    assert_eq!(deps.len(), 1);
}

#[test]
fn non_import_lines_contribute_nothing() {
    let deps = Context::parse_imports("pub use foo;\nusefoo;\nuse ::bar;\nuse ;\nuse\n");
    assert_eq!(deps.len(), 0);
}

#[test]
fn underscored_and_numbered_names_captured() {
    let deps = Context::parse_imports("use lazy_static;\nuse base64;\n");
    assert!(deps.contains("lazy_static"));
    assert!(deps.contains("base64"));
    assert_eq!(deps.len(), 2);
}

#[test]
fn name_at_walks_every_entry() {
    let deps = Context::parse_imports("use one;\nuse two;\n");
    let mut seen = Vec::new();
    for i in 0..deps.len() {
        seen.push(deps.name_at(i).clone());
    }
    seen.sort();
    assert_eq!(seen, vec!["one".to_string(), "two".to_string()]);
}
