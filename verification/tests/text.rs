use office_convert_lambda::text::{chars_of, contains, parse_number, same};

#[test]
fn chars_are_kept_in_order() {
    assert_eq!(chars_of("añ→x"), vec!['a', 'ñ', '→', 'x']);
    assert_eq!(chars_of(""), Vec::<char>::new());
}

#[test]
fn same_compares_whole_texts() {
    assert!(same("true", "true"));
    assert!(same("", ""));
    assert!(!same("true", "True"));
    assert!(!same("true", "true "));
    assert!(!same("true", ""));
    assert!(same("añ→", "añ→"));
}

#[test]
fn contains_agrees_with_str() {
    let texts = [
        "",
        "a",
        "aab",
        "aabaab",
        "Unsupported URL <file:///tmp/x>: \"type detection failed\"",
        "loadComponentFromURL returned an empty reference",
        "xñ→ñ",
    ];
    let needles = [
        "",
        "a",
        "ab",
        "aab",
        "aabaabx",
        "Unsupported URL",
        "loadComponentFromURL returned an empty reference",
        "ñ→",
        "→x",
    ];
    for text in texts {
        for needle in needles {
            assert_eq!(contains(text, needle), text.contains(needle), "{} in {}", needle, text);
        }
    }
}

#[test]
fn numbers_agree_with_std() {
    let texts = [
        "", "0", "60", "+60", "-1", "+", "++1", "007", "1_000", " 1", "1 ", "1.5", "0x10", "٣",
        "18446744073709551615", "18446744073709551616", "99999999999999999999",
        "00000000000000000000000001", "+18446744073709551615", "184467440737095516150", "12a",
    ];
    for text in texts {
        assert_eq!(parse_number(text), text.parse::<u64>().ok(), "{}", text);
    }
    assert_eq!(parse_number("+60"), Some(60));
    assert_eq!(parse_number("18446744073709551615"), Some(u64::MAX));
    assert_eq!(parse_number("18446744073709551616"), None);
}
