use itajara::verb::{lookup, tokenize, verbs};

fn word_of(rest: &str) -> Option<(&'static str, &str)> {
    tokenize(rest).map(|(v, a)| (v.word(), a))
}

#[test]
fn a_word_is_matched_whole_and_a_prefix_decides_nothing() {
    assert_eq!(word_of("tone3000"), Some(("tone", "3000")));
    assert_eq!(word_of("t3000"), Some(("t", "3000")));
    assert_eq!(word_of("t"), Some(("t", "")));
    assert_eq!(word_of("sp0.5"), Some(("sp", "0.5")));
    assert_eq!(word_of("s4"), Some(("s", "4")));
    assert_eq!(word_of("s"), Some(("s", "")));
    assert_eq!(word_of("src2"), Some(("src", "2")));
    assert_eq!(word_of("cp0l2"), Some(("cp", "0l2")));
    assert_eq!(word_of("c"), Some(("c", "")));
    assert_eq!(word_of("lw2:1000:625000"), Some(("lw", "2:1000:625000")));
    assert_eq!(word_of("in-20"), Some(("in", "-20")));
    assert_eq!(word_of("win"), Some(("win", "")));
    assert_eq!(word_of("!lose"), Some(("!lose", "")));
    assert_eq!(word_of("pan 100"), Some(("pan", "100")), "the argument is trimmed");
}

#[test]
fn what_is_not_a_word_is_not_a_command() {
    assert_eq!(word_of("size13"), None, "was a sparse multiply by nothing");
    assert_eq!(word_of("tx"), None, "was an eight-second claim");
    assert_eq!(word_of("spread"), None);
    assert_eq!(word_of(""), None);
    assert_eq!(word_of("4"), None);
    assert_eq!(word_of("!"), None);
}

#[test]
fn a_name_is_read_after_the_longest_name_verb() {
    assert_eq!(word_of("exlriff"), Some(("exl", "riff")));
    assert_eq!(word_of("exriff"), Some(("ex", "riff")));
    assert_eq!(word_of("exriff2"), Some(("ex", "riff2")));
    assert_eq!(word_of("wriff"), Some(("w", "riff")));
    assert_eq!(word_of("w2026"), Some(("w", "2026")));
    assert_eq!(word_of("ex"), Some(("ex", "")));
    assert_eq!(word_of("exl"), Some(("exl", "")));
    assert_eq!(word_of("w"), Some(("w", "")));
    assert_eq!(word_of("win"), Some(("win", "")));
}

#[test]
fn a_word_that_takes_nothing_admits_nothing() {
    let kind = |w: &str| lookup(w).unwrap().arg();
    assert!(kind("x").admits(""));
    assert!(!kind("x").admits("1"));
    assert!(!kind("win").admits("5"));
    assert!(kind("g").admits("") && kind("g").admits("0") && kind("g").admits("1"));
    assert!(!kind("g").admits("5"));
    assert!(kind("sp").admits("0.5"));
    assert!(kind("w").admits(""));
}

#[test]
fn every_word_is_its_verb() {
    for v in verbs() {
        assert_eq!(lookup(v.word()), Some(v));
    }
    assert_eq!(lookup("size"), None);
}
