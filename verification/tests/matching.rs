use gall::fuzzy::{ascii_lower, fuzzy, fuzzy_bytes};

#[test]
fn fuzzy_finds_subsequence() {
    assert!(fuzzy("Firefox", "ffx"));
    assert!(fuzzy("Firefox", "fire"));
    assert!(fuzzy("Firefox", "Firefox"));
    assert!(fuzzy("GNU Image Manipulation Program", "gimp"));
}

#[test]
fn fuzzy_ignores_ascii_case() {
    assert!(fuzzy("firefox", "FOX"));
    assert!(fuzzy("FIREFOX", "fox"));
    assert!(fuzzy("FireFox", "fIrEfOx"));
}

#[test]
fn fuzzy_respects_order() {
    assert!(!fuzzy("Firefox", "xf"));
    assert!(!fuzzy("abc", "cba"));
    assert!(fuzzy("abcabc", "cab"));
}

#[test]
fn fuzzy_needs_every_byte() {
    assert!(!fuzzy("Firefox", "firefoxx"));
    assert!(!fuzzy("aab", "aaa"));
    assert!(fuzzy("aaab", "aaa"));
    assert!(!fuzzy("", "a"));
}

#[test]
fn fuzzy_empty_pattern_matches_everything() {
    assert!(fuzzy("", ""));
    assert!(fuzzy("anything", ""));
}

#[test]
fn fuzzy_pattern_longer_than_text() {
    assert!(!fuzzy("ab", "abc"));
}

#[test]
fn fuzzy_works_on_bytes_beyond_ascii() {
    assert!(fuzzy("Café", "cé"));
    assert!(!fuzzy("Cafe", "é"));
    // only ASCII letters fold
    assert!(!fuzzy("É", "é"));
    assert!(fuzzy_bytes(&[0xC3, 0x89], &[0xC3]));
}

#[test]
fn ascii_lower_folds_letters_only() {
    assert_eq!(ascii_lower(b'A'), b'a');
    assert_eq!(ascii_lower(b'Z'), b'z');
    assert_eq!(ascii_lower(b'a'), b'a');
    assert_eq!(ascii_lower(b'@'), b'@');
    assert_eq!(ascii_lower(b'['), b'[');
    assert_eq!(ascii_lower(0xC9), 0xC9);
    for b in 0u8..=255 {
        assert_eq!(ascii_lower(b), b.to_ascii_lowercase());
    }
}

#[test]
fn typing_more_never_brings_a_text_back() {
    let texts = ["Firefox", "Files", "Terminal", "GNU Image Manipulation Program", ""];
    let typed = "fimage";
    for text in texts {
        let mut matched = true;
        for k in 0..=typed.len() {
            let now = fuzzy(text, &typed[..k]);
            assert!(matched || !now);
            matched = now;
        }
    }
}
