use kern::byte::{ends_with, scan, scan_from, split, splitn};

#[test]
fn test_splitn() {
    let v = vec![0, 1, 2, 3, 4, 5, 6, 7, 8, 9, 0, 1, 2, 3, 4, 5, 6];
    let s = splitn(2, &v, &[2, 3]);

    assert_eq!(s.len(), 2);
    assert_eq!(s[0].len(), 2);
    assert_eq!(s[1].len(), 13);
}

#[test]
fn test_split() {
    let v = vec![0, 1, 2, 3, 4, 5, 6, 7, 8, 9, 0, 1, 2, 3, 4, 5, 6];
    let s = split(&v, &[2, 3]);

    assert_eq!(s.len(), 3);
    assert_eq!(s[0].len(), 2);
    assert_eq!(s[1].len(), 8);
    assert_eq!(s[2].len(), 3);
}

#[test]
fn test_scan() {
    let mut v = vec![0, 1, 2, 3, 4, 5, 6, 7, 8, 9, 10, 11];
    assert_eq!(scan(&v, &[5, 6, 7]).unwrap(), 5);

    v.reverse();
    assert_eq!(scan(&v, &[7, 6, 5]).unwrap(), 4);
}

#[test]
fn scan_finds_first_occurrence_after_partial_match() {
    assert_eq!(scan(b"aab", b"ab"), Some(1));
    assert_eq!(scan(b"xxabcabc", b"abc"), Some(2));
    assert_eq!(scan(b"\r\r\n\r\n", b"\r\n\r\n"), Some(1));
}

#[test]
fn scan_absent_and_empty() {
    assert_eq!(scan(b"abc", b"d"), None);
    assert_eq!(scan(b"ab", b"abc"), None);
    assert_eq!(scan(b"", b"a"), None);
    assert_eq!(scan(b"abc", b""), None);
    assert_eq!(scan(b"", b""), None);
}

#[test]
fn scan_from_offset() {
    assert_eq!(scan_from(b"abcabc", b"abc", 0), Some(0));
    assert_eq!(scan_from(b"abcabc", b"abc", 1), Some(3));
    assert_eq!(scan_from(b"abcabc", b"abc", 4), None);
    assert_eq!(scan_from(b"abcabc", b"abc", 6), None);
}

#[test]
fn split_pieces_exact() {
    let s = split(b"a--b----c", b"--");
    assert_eq!(s, vec![&b"a"[..], &b"b"[..], &b""[..], &b"c"[..]]);
    let s = split(b"abc", b"--");
    assert_eq!(s, vec![&b"abc"[..]]);
    let s = split(b"", b"--");
    assert_eq!(s, vec![&b""[..]]);
    let s = split(b"abc", b"");
    assert_eq!(s, vec![&b"abc"[..]]);
    let s = split(b"--", b"--");
    assert_eq!(s, vec![&b""[..], &b""[..]]);
}

#[test]
fn splitn_limits() {
    let s = splitn(3, b"a,b,c,d", b",");
    assert_eq!(s, vec![&b"a"[..], &b"b"[..], &b"c,d"[..]]);
    let s = splitn(1, b"a,b,c,d", b",");
    assert_eq!(s, vec![&b"a,b,c,d"[..]]);
    let s = splitn(0, b"a,b,c,d", b",");
    assert_eq!(s, vec![&b"a"[..], &b"b"[..], &b"c"[..], &b"d"[..]]);
    let s = splitn(9, b"a,b", b",");
    assert_eq!(s, vec![&b"a"[..], &b"b"[..]]);
}

#[test]
fn ends_with_suffix() {
    assert!(ends_with(b"hello", b"llo"));
    assert!(ends_with(b"hello", b""));
    assert!(ends_with(b"hello", b"hello"));
    assert!(!ends_with(b"hello", b"hell"));
    assert!(!ends_with(b"lo", b"hello"));
}
