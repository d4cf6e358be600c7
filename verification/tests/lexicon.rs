use review_sentiment::{Lexicon, check_sentiment, parse_string_to_hashmap, split_review_str};

#[test]
fn well_formed_line_contributes_entry() {
    let lex = parse_string_to_hashmap("great\t3");
    assert_eq!(lex.get("great"), Some(3));
    assert_eq!(lex.get("missing"), None);
}

#[test]
fn malformed_line_skipped_without_aborting() {
    let lex = parse_string_to_hashmap("great\nfine\t2\nbad\tx\nawful\t-3");
    assert_eq!(lex.get("great"), None);
    assert_eq!(lex.get("fine"), Some(2));
    assert_eq!(lex.get("bad"), None);
    assert_eq!(lex.get("awful"), Some(-3));
}

#[test]
fn crlf_line_endings_accepted() {
    let lex = parse_string_to_hashmap("good\t2\r\nbad\t-2\r\n");
    assert_eq!(lex.get("good"), Some(2));
    assert_eq!(lex.get("bad"), Some(-2));
}

#[test]
fn later_line_wins_for_same_word() {
    let lex = parse_string_to_hashmap("word\t1\nword\t4");
    assert_eq!(lex.get("word"), Some(4));
}

#[test]
fn extra_tab_fields_ignored() {
    // Only the first two tab-separated fields count.
    let lex = parse_string_to_hashmap("word\t2\tcomment");
    assert_eq!(lex.get("word"), Some(2));
}

#[test]
fn empty_input_builds_empty_lexicon() {
    let lex = parse_string_to_hashmap("");
    assert_eq!(lex.get("anything"), None);
}

#[test]
fn manual_and_parsed_lexicons_agree() {
    let parsed = parse_string_to_hashmap("good\t2\nbad\t-2");
    let mut built = Lexicon::new();
    built.insert("good".to_string(), 2);
    built.insert("bad".to_string(), -2);
    let toks = split_review_str("good bad good good");
    let from_parsed = check_sentiment(toks.clone(), &parsed);
    let from_built = check_sentiment(toks, &built);
    assert_eq!(from_parsed, from_built);
    // (2 - 2 + 2 + 2) / 4 truncated = 1
    assert_eq!(from_parsed, 1);
}
