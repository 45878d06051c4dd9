use smduperemover::text::{chars_of, is_whitespace_char, is_yes, same_text, trim};

#[test]
fn whitespace_matches_std_for_every_char() {
    for n in 0u32..=0x10FFFF {
        if let Some(c) = char::from_u32(n) {
            assert_eq!(is_whitespace_char(c), c.is_whitespace(), "code point {:x}", n);
        }
    }
}

#[test]
fn trim_matches_std() {
    let samples = [
        "",
        "   ",
        "abc",
        "  abc  ",
        "\t\n duration DESC \r\n",
        "\u{3000}x y\u{2009}",
        "\u{85}\u{a0}a\u{1680}",
        "# comment  ",
        "a\u{200b}",
    ];
    for s in samples {
        assert_eq!(trim(s), s.trim(), "sample {:?}", s);
    }
}

#[test]
fn yes_answers() {
    assert!(is_yes("yes\n"));
    assert!(is_yes("  YES  "));
    assert!(is_yes("Yes"));
    assert!(is_yes("yEs\r\n"));
    assert!(!is_yes("y"));
    assert!(!is_yes("yes please"));
    assert!(!is_yes(""));
    assert!(!is_yes("no"));
    assert!(!is_yes("ye s"));
}

#[test]
fn yes_answers_agree_with_both_prompt_checks() {
    for s in ["yes", "YES\n", " Yes ", "yeS", "no", "yess", "", "ｙes", "y\u{301}es"] {
        let expected_a = s.trim().eq_ignore_ascii_case("yes");
        let expected_b = s.trim().to_lowercase() == "yes";
        assert_eq!(is_yes(s), expected_a);
        assert_eq!(is_yes(s), expected_b);
    }
}

#[test]
fn chars_and_same_text() {
    assert_eq!(chars_of("héllo"), vec!['h', 'é', 'l', 'l', 'o']);
    assert!(same_text("abc", "abc"));
    assert!(!same_text("abc", "abd"));
    assert!(!same_text("abc", "ab"));
}
