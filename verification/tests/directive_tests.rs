use rust_runner::context::Context;
use rust_runner::directives::DirectiveError;
use rust_runner::directives::DirectiveSet;
use rust_runner::directives::OptionType;

#[test]
fn no_leading_comment_defaults() {
    let ctx = Context::parse("fn main(){}\n").unwrap();
    assert_eq!(ctx.toolchain, "stable");
}

#[test]
fn ordinary_comments_default() {
    let ctx = Context::parse("// hello\n// world\nfn main(){}\n").unwrap();
    assert_eq!(ctx.toolchain, "stable");
}

#[test]
fn empty_input_defaults() {
    let ctx = Context::parse("").unwrap();
    assert_eq!(ctx.toolchain, "stable");
    assert_eq!(ctx.imports.len(), 0);
}

#[test]
fn single_directive_parsed() {
    let ctx = Context::parse("// rust-runner: toolchain=1.70\nfn main(){}").unwrap();
    assert_eq!(ctx.toolchain, "1.70");
}

#[test]
fn later_fragment_overrides_earlier() {
    let ctx = Context::parse("// rust-runner: toolchain=1.60;toolchain=1.70\nfn main(){}").unwrap();
    assert_eq!(ctx.toolchain, "1.70");
}

#[test]
fn later_line_overrides_earlier() {
    let ctx = Context::parse("// rust-runner: toolchain=a\n// rust-runner: toolchain=b\nfn main(){}")
        .unwrap();
    assert_eq!(ctx.toolchain, "b");
}

#[test]
fn fragment_without_eq_rejected() {
    let err = Context::parse("// rust-runner: toolchain=1.70;oops\nfn main(){}").unwrap_err();
    match err {
        DirectiveError::InvalidOptionString(s) => assert_eq!(s, "oops"),
        other => panic!("wrong error: {:?}", other),
    }
}

#[test]
fn bare_fragment_rejected() {
    let err = Context::parse("// rust-runner: toolchain\nfn main(){}").unwrap_err();
    match err {
        DirectiveError::InvalidOptionString(s) => assert_eq!(s, "toolchain"),
        other => panic!("wrong error: {:?}", other),
    }
}

#[test]
fn empty_options_rejected() {
    let err = Context::parse("// rust-runner:\nfn main(){}").unwrap_err();
    match err {
        DirectiveError::InvalidOptionString(s) => assert_eq!(s, ""),
        other => panic!("wrong error: {:?}", other),
    }
}

#[test]
fn unknown_option_rejected() {
    let err = Context::parse("// rust-runner: edition=2018\nfn main(){}").unwrap_err();
    match err {
        DirectiveError::UnknownOption(s) => assert_eq!(s, "edition"),
        other => panic!("wrong error: {:?}", other),
    }
}

#[test]
fn directive_after_code_ignored() {
    let ctx = Context::parse("fn main(){}\n// rust-runner: toolchain=9.9\n").unwrap();
    assert_eq!(ctx.toolchain, "stable");
}

#[test]
fn bad_directive_after_code_ignored() {
    let ctx = Context::parse("fn main(){}\n// rust-runner: nonsense\n").unwrap();
    assert_eq!(ctx.toolchain, "stable");
}

#[test]
fn blank_lines_before_directive_skipped() {
    let ctx = Context::parse("\n   \n// rust-runner: toolchain=1.2\nfn main(){}").unwrap();
    assert_eq!(ctx.toolchain, "1.2");
}

#[test]
fn crlf_line_endings_handled() {
    let ctx = Context::parse("// rust-runner: toolchain=1.70\r\nfn main(){}\r\n").unwrap();
    assert_eq!(ctx.toolchain, "1.70");
}

#[test]
fn bare_trailing_carriage_return_stays_in_the_value() {
    // a carriage return counts as a line ending only together with a line
    // feed; on the last line it is part of the value
    let ds = Context::gather_options("// rust-runner: toolchain=x\r").unwrap();
    assert_eq!(ds.toolchain.as_deref(), Some("x\r"));
}

#[test]
fn marker_spacing_is_free() {
    let ctx = Context::parse("//rust-runner:toolchain=1.1\nfn main(){}").unwrap();
    assert_eq!(ctx.toolchain, "1.1");
}

#[test]
fn option_name_is_not_trimmed() {
    let err = Context::parse("// rust-runner: toolchain =1.1\nfn main(){}").unwrap_err();
    match err {
        DirectiveError::UnknownOption(s) => assert_eq!(s, "toolchain "),
        other => panic!("wrong error: {:?}", other),
    }
}

#[test]
fn option_type_recognizes_toolchain() {
    assert_eq!(OptionType::parse("toolchain"), Some(OptionType::Toolchain));
    assert_eq!(OptionType::parse("Toolchain"), None);
    assert_eq!(OptionType::parse(""), None);
}

#[test]
fn parse_toolchain_uses_entry_or_default() {
    let with = DirectiveSet { toolchain: Some(String::from("nightly")) };
    assert_eq!(Context::parse_toolchain(&with), "nightly");
    let without = DirectiveSet { toolchain: None };
    assert_eq!(Context::parse_toolchain(&without), "stable");
}

#[test]
fn gather_options_keeps_last_value() {
    let ds = Context::gather_options("// rust-runner: toolchain=x;toolchain=y\n").unwrap();
    assert_eq!(ds.toolchain.as_deref(), Some("y"));
}

#[test]
fn error_messages_name_the_culprit() {
    let err = Context::parse("// rust-runner: oops\nfn main(){}").unwrap_err();
    assert_eq!(err.message(), "invalid option string: oops");
    let err = Context::parse("// rust-runner: speed=fast\nfn main(){}").unwrap_err();
    assert_eq!(err.message(), "unknown option: speed");
}
