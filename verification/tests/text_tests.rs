use aerial::text::{chars_of, contains, find, join, parse_usize, split_char, trim};

#[test]
fn split_char_like_str_split() {
    assert_eq!(split_char("a,b,,c", ','), vec!["a", "b", "", "c"]);
    assert_eq!(split_char("", ','), vec![""]);
    assert_eq!(split_char(",", ','), vec!["", ""]);
    assert_eq!(split_char("abc", ','), vec!["abc"]);
}

#[test]
fn law_join_of_split_gives_back_text() {
    for s in ["a,b,,c", "", ",", "x,y,", "no separator"] {
        let pieces = split_char(s, ',');
        assert_eq!(join(&pieces, ","), s);
    }
}

#[test]
fn trim_like_str_trim() {
    assert_eq!(trim("  abc \n"), "abc");
    assert_eq!(trim("\u{3000}a b\u{85}"), "a b");
    assert_eq!(trim("   "), "");
    assert_eq!(trim(""), "");
}

#[test]
fn parse_usize_like_str_parse() {
    assert_eq!(parse_usize("42"), Some(42));
    assert_eq!(parse_usize("+7"), Some(7));
    assert_eq!(parse_usize("007"), Some(7));
    assert_eq!(parse_usize("+"), None);
    assert_eq!(parse_usize(""), None);
    assert_eq!(parse_usize("-1"), None);
    assert_eq!(parse_usize("1a"), None);
    assert_eq!(parse_usize("١٢"), None);
    assert_eq!(parse_usize(&usize::MAX.to_string()), Some(usize::MAX));
    assert_eq!(parse_usize("99999999999999999999999"), None);
    for s in ["0", "18446744073709551616", "+12", "++1", " 1"] {
        assert_eq!(parse_usize(s), s.parse::<usize>().ok());
    }
}

#[test]
fn find_first_occurrence() {
    let hay = chars_of("abcabc");
    assert_eq!(find(&hay, &chars_of("bc")), Some(1));
    assert_eq!(find(&hay, &chars_of("")), Some(0));
    assert_eq!(find(&hay, &chars_of("cb")), None);
    assert_eq!(find(&chars_of("ab"), &chars_of("abc")), None);
    assert!(contains("a ratebypass=yes", "ratebypass"));
    assert!(!contains("abc", "abd"));
}

#[test]
fn join_with_separator() {
    let parts = vec!["a".to_string(), "b".to_string(), "c".to_string()];
    assert_eq!(join(&parts, "|"), "a|b|c");
    assert_eq!(join(&vec![], "|"), "");
}
