use kern::text::{
    index_of, is_space_char, lines_of, lowercase_chars, parse_unsigned, part, push_decimal, same,
    split_char, split_once, starts_with, str_eq, trimmed, without_prefix,
};

fn chars(s: &str) -> Vec<char> {
    s.chars().collect()
}

fn text(v: &[char]) -> String {
    v.iter().collect()
}

fn texts(v: &[Vec<char>]) -> Vec<String> {
    v.iter().map(|p| text(p)).collect()
}

#[test]
fn whitespace_is_what_the_standard_library_trims() {
    let mut c = '\u{0}';
    loop {
        assert_eq!(is_space_char(c), c.is_whitespace(), "{:?}", c);
        if c == char::MAX {
            break;
        }
        c = char::from_u32(c as u32 + 1).unwrap_or('\u{e000}');
    }
}

#[test]
fn trim_like_the_standard_library() {
    for s in [
        "",
        " ",
        "  a  ",
        "a",
        "\t\r\n a b \u{a0}\u{3000}",
        "\u{2003}x\u{2003}y\u{2003}",
        "ä ",
        "\u{200b}a",
    ] {
        assert_eq!(text(&trimmed(&chars(s))), s.trim(), "{:?}", s);
    }
}

#[test]
fn lowercase_follows_unicode() {
    assert_eq!(lowercase_chars(&chars("Content-TYPE")), "content-type");
    assert_eq!(lowercase_chars(&chars("ÄÖÜ")), "äöü");
    assert_eq!(lowercase_chars(&chars("ΟΔΟΣ")), "οδος");
    assert_eq!(lowercase_chars(&chars("İ")), "i\u{307}");
    assert_eq!(lowercase_chars(&chars("")), "");
}

#[test]
fn unsigned_numbers_like_the_standard_library() {
    for s in [
        "0",
        "7",
        "+7",
        "007",
        "10485760",
        "18446744073709551615",
        "18446744073709551616",
        "99999999999999999999999",
        "",
        "+",
        "-1",
        "1 ",
        " 1",
        "1.5",
        "12a",
        "++1",
        "１",
    ] {
        assert_eq!(parse_unsigned(&chars(s)), s.parse::<usize>().ok(), "{:?}", s);
    }
}

#[test]
fn decimal_digits_of_numbers() {
    for n in [0u128, 1, 9, 10, 99, 100, 12345, u64::MAX as u128, u128::MAX] {
        let mut out = vec![b'>'];
        push_decimal(&mut out, n);
        assert_eq!(String::from_utf8(out).unwrap(), format!(">{}", n));
    }
}

#[test]
fn lines_like_the_standard_library() {
    for s in [
        "",
        "a",
        "a\n",
        "a\nb",
        "a\r\nb\r\n",
        "\n",
        "\n\n",
        "\r\n\r\n",
        "a\r",
        "a\r\r\nb",
        "GET / HTTP/1.1\r\nHost: h\r\n\r\n",
    ] {
        let expected: Vec<String> = s.lines().map(|l| l.to_string()).collect();
        assert_eq!(texts(&lines_of(&chars(s))), expected, "{:?}", s);
    }
}

#[test]
fn split_like_the_standard_library() {
    for s in ["", "a", "a,b", ",a,,b,", ",", "ä,ö"] {
        let expected: Vec<String> = s.split(',').map(|l| l.to_string()).collect();
        assert_eq!(texts(&split_char(&chars(s), ',')), expected, "{:?}", s);
    }
}

#[test]
fn split_once_at_first() {
    let (head, tail) = split_once(&chars("a=b=c"), '=');
    assert_eq!(text(&head), "a");
    assert_eq!(tail.map(|t| text(&t)), Some("b=c".to_string()));
    let (head, tail) = split_once(&chars("abc"), '=');
    assert_eq!(text(&head), "abc");
    assert!(tail.is_none());
    let (head, tail) = split_once(&chars("="), '=');
    assert_eq!(text(&head), "");
    assert_eq!(tail.map(|t| text(&t)), Some(String::new()));
}

#[test]
fn positions_prefixes_and_parts() {
    let s = chars("abcabc");
    assert_eq!(index_of(&s, 'c', 0), Some(2));
    assert_eq!(index_of(&s, 'c', 3), Some(5));
    assert_eq!(index_of(&s, 'c', 6), None);
    assert_eq!(index_of(&s, 'x', 0), None);
    assert!(starts_with(&s, &chars("abc")));
    assert!(starts_with(&s, &chars("")));
    assert!(!starts_with(&s, &chars("abd")));
    assert!(!starts_with(&chars("ab"), &s));
    assert_eq!(text(&part(&s, 1, 4)), "bca");
    assert_eq!(text(&part(&s, 6, 6)), "");
    assert!(same(&s, &chars("abcabc")));
    assert!(!same(&s, &chars("abcab")));
    assert!(!same(&s, &chars("abcabd")));
    assert!(str_eq("äb", "äb"));
    assert!(!str_eq("ab", "äb"));
    assert_eq!(
        without_prefix(&s, &chars("abc")).map(|r| text(&r)),
        Some("abc".to_string())
    );
    assert!(without_prefix(&s, &chars("bc")).is_none());
}
