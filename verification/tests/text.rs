use zoomies::text::canonicalize;
use zoomies::text::chars_of;
use zoomies::text::contains_char;
use zoomies::text::contains_text;
use zoomies::text::is_blank;
use zoomies::text::string_of;
use zoomies::text::to_ascii_lower;
use zoomies::text::trim;

#[test]
fn canonicalize_lowercases_and_joins() {
    assert_eq!(canonicalize("  Warzone Trinidad "), "warzone_trinidad");
    assert_eq!(canonicalize("banana"), "banana");
    assert_eq!(canonicalize(""), "");
    assert_eq!(canonicalize("   "), "");
    assert_eq!(canonicalize("A  B"), "a__b");
}

#[test]
fn canonicalize_agrees_with_std() {
    for s in ["  The East Pacific\t", "ÄB c", "\u{a0}x y\u{3000}", "Z", "a\tb"] {
        let mut lowered = String::from(s);
        lowered.make_ascii_lowercase();
        assert_eq!(canonicalize(s), lowered.trim().replace(" ", "_"));
    }
}

#[test]
fn blank_agrees_with_std_on_every_char() {
    let mut n: u32 = 0;
    while n <= 0x10FFFF {
        if let Some(c) = char::from_u32(n) {
            assert_eq!(is_blank(c), c.is_whitespace());
            assert_eq!(to_ascii_lower(c), c.to_ascii_lowercase());
        }
        n += 1;
    }
}

#[test]
fn trim_removes_both_ends() {
    assert_eq!(trim("  a b  "), "a b");
    assert_eq!(trim("\t\n"), "");
    assert_eq!(trim("x"), "x");
}

#[test]
fn contains_text_finds_substrings() {
    assert!(contains_text("abc 1) def", "1)"));
    assert!(!contains_text("abc 1 ) def", "1)"));
    assert!(contains_text("abc", ""));
    assert!(!contains_text("ab", "abc"));
    assert!(contains_text("x/template-none", "template-"));
}

#[test]
fn chars_round_trip() {
    let v = chars_of("héllo");
    assert_eq!(v.len(), 5);
    assert!(contains_char(&v, 'é'));
    assert!(!contains_char(&v, 'z'));
    assert_eq!(string_of(&v, 1, 4), "éll");
}
