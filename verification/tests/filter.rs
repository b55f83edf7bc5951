use rustcom::filter::ContentFilter;

#[test]
fn fresh_filter_passes_everything() {
    let f = ContentFilter::new();
    assert!(f.matches(b"anything at all"));
    assert!(f.matches(b""));
    assert!(f.matches(&[0xFF, 0x00]));
}

#[test]
fn empty_pattern_clears_the_matcher() {
    let mut f = ContentFilter::new();
    assert!(f.set_pattern("HELLO").is_none());
    assert!(!f.matches(b"nothing here"));
    assert!(f.set_pattern("").is_none());
    assert!(f.matches(b"nothing here"));
}

#[test]
fn pattern_matches_unanchored() {
    let mut f = ContentFilter::new();
    assert!(f.set_pattern("HELLO").is_none());
    assert!(f.matches(b"xx HELLO yy"));
    assert!(f.matches(b"HELLO"));
    assert!(!f.matches(b"hello"));
    assert!(!f.matches(b"HEL LO"));
}

#[test]
fn character_classes_work() {
    let mut f = ContentFilter::new();
    assert!(f.set_pattern(r"\d{3}").is_none());
    assert!(f.matches(b"abc123"));
    assert!(!f.matches(b"ab12"));
}

#[test]
fn invalid_pattern_keeps_previous_matcher() {
    let mut f = ContentFilter::new();
    assert!(f.set_pattern("HELLO").is_none());
    // an unbalanced group does not compile
    let err = f.set_pattern("(");
    assert!(err.is_some());
    // the previous behaviour continues until corrected
    assert!(f.matches(b"say HELLO"));
    assert!(!f.matches(b"something else"));
}

#[test]
fn invalid_pattern_on_fresh_filter_still_passes_all() {
    let mut f = ContentFilter::new();
    assert!(f.set_pattern("(").is_some());
    assert!(f.matches(b"whatever"));
}
