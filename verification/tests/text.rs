use rarerankd::text::chars_of;
use rarerankd::text::contains_upper;
use rarerankd::text::same_text;
use rarerankd::text::text_before;
use rarerankd::text::trim_end_slashes;

#[test]
fn slashes_are_taken_off_the_end_only() {
    for (given, left) in [
        ("http://127.0.0.1:8083", "http://127.0.0.1:8083"),
        ("http://127.0.0.1:8083/", "http://127.0.0.1:8083"),
        ("http://h//", "http://h"),
        ("/a/b", "/a/b"),
        ("///", ""),
        ("", ""),
        ("ü/", "ü"),
    ] {
        assert_eq!(trim_end_slashes(given), left);
        assert_eq!(trim_end_slashes(given), given.trim_end_matches('/'));
    }
}

#[test]
fn texts_are_the_same_character_by_character() {
    assert!(same_text("", ""));
    assert!(same_text("sat", "sat"));
    assert!(!same_text("sat", "sats"));
    assert!(!same_text("sat", "Sat"));
    assert!(!same_text("é", "e"));
}

#[test]
fn texts_are_ordered_as_strings_are() {
    let texts = ["", "A", "AB", "B", "a", "aa", "b", "z", "é", "日", "𝄞", "\u{ffff}"];
    for a in texts {
        for b in texts {
            assert_eq!(text_before(a, b), a < b, "{a:?} {b:?}");
        }
    }
}

#[test]
fn letters_are_compared_in_upper_case() {
    for (text, found) in [
        ("SEQUENCE_NUMBER_TO_SATPOINT", true),
        ("sequence_number_to_satpoint", true),
        ("SatPoint", true),
        ("SATPOIN", false),
        ("SAT_POINT", false),
        ("", false),
        ("SATPOISATPOINT", true),
        ("satpoınt", false),
    ] {
        assert_eq!(contains_upper(text, "SATPOINT"), found, "{text}");
        assert_eq!(text.to_ascii_uppercase().contains("SATPOINT"), found, "{text}");
    }
    assert!(contains_upper("", ""));
    assert!(!contains_upper("satpoint", "satpoint"));
}

#[test]
fn characters_are_taken_in_order() {
    assert_eq!(chars_of("a日c"), vec!['a', '日', 'c']);
    assert_eq!(chars_of(""), Vec::<char>::new());
}
