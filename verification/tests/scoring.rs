use review_sentiment::{Lexicon, check_sentiment, split_review_str};

#[test]
fn test_split_review_string() {
    let sentence = "Moroni to Moheli. Turned out to be a pretty decent airline. Online booking worked well, checkin and boarding was fine and the plane looked well maintained. Its a very short flight - just 20 minutes or so so i didn't expect much but they still managed to hand our a bottle of water and some biscuits which i though was very nice. Both flights on time.";
    let toks = split_review_str(sentence);
    assert_eq!(toks[0], "moroni");
    assert_eq!(toks[2], "moheli.");
    assert!(toks.iter().all(|t| !t.contains(' ')));
    assert!(toks.iter().all(|t| *t == t.to_ascii_lowercase()));
}

#[test]
fn truncated_average_of_matches() {
    let mut lex = Lexicon::new();
    lex.insert("good".to_string(), 2);
    lex.insert("bad".to_string(), -2);
    let toks = split_review_str("good BAD good");
    // (2 + -2 + 2) / 3 truncated = 0
    assert_eq!(check_sentiment(toks, &lex), 0);
}

#[test]
fn empty_lexicon_scores_zero() {
    let lex = Lexicon::new();
    let toks = split_review_str("neutral words only");
    assert_eq!(check_sentiment(toks, &lex), 0);
}

#[test]
fn negative_average_truncates_toward_zero() {
    let mut lex = Lexicon::new();
    lex.insert("good".to_string(), 2);
    lex.insert("awful".to_string(), -3);
    // (-3 + -3 + 2) / 3 = -4 / 3 truncated = -1
    let toks = split_review_str("awful awful good");
    assert_eq!(check_sentiment(toks, &lex), -1);
}

#[test]
fn case_folding_matches_lexicon() {
    let mut lex = Lexicon::new();
    lex.insert("great".to_string(), 4);
    let toks = split_review_str("GREAT GrEaT great");
    assert_eq!(check_sentiment(toks, &lex), 4);
}

#[test]
fn unmatched_words_do_not_dilute() {
    let mut lex = Lexicon::new();
    lex.insert("fine".to_string(), 3);
    let toks = split_review_str("it was all fine really");
    assert_eq!(check_sentiment(toks, &lex), 3);
}

#[test]
fn tabs_do_not_separate_tokens() {
    let mut lex = Lexicon::new();
    lex.insert("good".to_string(), 5);
    // The tokenizer splits on the space character only, so "good\tgood"
    // is one token and matches nothing.
    let toks = split_review_str("good\tgood");
    assert_eq!(toks.len(), 1);
    assert_eq!(check_sentiment(toks, &lex), 0);
}

#[test]
fn repeated_insert_keeps_latest_weight() {
    let mut lex = Lexicon::new();
    lex.insert("good".to_string(), 2);
    lex.insert("good".to_string(), 5);
    let toks = split_review_str("good");
    assert_eq!(check_sentiment(toks, &lex), 5);
}
