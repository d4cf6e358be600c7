use review_sentiment::trim_extra_quotes;

#[test]
fn test_trim_extra_quote() {
    let extra = r#"""Something"""#;
    let s = trim_extra_quotes(extra);
    assert_eq!(s, "Something");
}

#[test]
fn strips_single_quotes_and_whitespace() {
    assert_eq!(trim_extra_quotes("  'hi'  "), "hi");
}

#[test]
fn no_quotes_unchanged_and_idempotent() {
    let once = trim_extra_quotes("no quotes");
    assert_eq!(once, "no quotes");
    let twice = trim_extra_quotes(&once);
    assert_eq!(twice, once);
}

#[test]
fn nested_layers_with_inner_whitespace() {
    assert_eq!(trim_extra_quotes("\" \" deep \" \""), "deep");
}

#[test]
fn double_layers_before_single_layers() {
    // Double-quote layers are stripped first, then single-quote layers;
    // the styles are not interleaved.
    assert_eq!(trim_extra_quotes("\"'inner'\""), "inner");
    assert_eq!(trim_extra_quotes("'\"inner\"'"), "\"inner\"");
}

#[test]
fn lone_quote_strips_to_empty() {
    assert_eq!(trim_extra_quotes("\""), "");
    assert_eq!(trim_extra_quotes("'"), "");
    assert_eq!(trim_extra_quotes("  \"  "), "");
}

#[test]
fn unmatched_quotes_kept() {
    assert_eq!(trim_extra_quotes("\"open ended"), "\"open ended");
    assert_eq!(trim_extra_quotes("close ended'"), "close ended'");
}
