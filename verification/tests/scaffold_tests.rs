use rust_runner::scaffold::cache_config_content;
use rust_runner::scaffold::escape_path;

#[test]
fn plain_path_passes_through() {
    assert_eq!(
        cache_config_content("/usr/bin/sccache"),
        "[build]\nrustc-wrapper = \"/usr/bin/sccache\"\n"
    );
}

#[test]
fn backslashes_and_quotes_escaped() {
    assert_eq!(escape_path("C:\\tools\\sccache.exe"), "C:\\\\tools\\\\sccache.exe");
    assert_eq!(escape_path("a\"b"), "a\\\"b");
    assert_eq!(escape_path("a'b"), "a\\'b");
}

#[test]
fn control_characters_escaped() {
    assert_eq!(escape_path("a\tb"), "a\\tb");
    assert_eq!(escape_path("a\nb"), "a\\nb");
    assert_eq!(escape_path("a\rb"), "a\\rb");
    assert_eq!(escape_path("\u{7f}"), "\\u{7f}");
    assert_eq!(escape_path("\u{1}"), "\\u{1}");
}

#[test]
fn non_ascii_escaped_as_hex() {
    assert_eq!(escape_path("é"), "\\u{e9}");
    assert_eq!(escape_path("日"), "\\u{65e5}");
}

#[test]
fn empty_path_gives_empty_quotes() {
    assert_eq!(cache_config_content(""), "[build]\nrustc-wrapper = \"\"\n");
}

#[test]
fn escaped_path_lands_between_the_quotes() {
    assert_eq!(
        cache_config_content("C:\\cache"),
        "[build]\nrustc-wrapper = \"C:\\\\cache\"\n"
    );
}
