use kern::data::{parse, serialize};
use kern::http::server::unsecure::{needs_more, read_target, redirect_reply, target_in};
use kern::http::server::redirect;
use kern::net::{read_bool, read_full, write_bool};
use kern::Dict;

#[test]
fn storage_parse_and_serialize() {
    let map = parse(" Key = Value \nother=1\nKEY=second=2\nno pair\n");
    assert_eq!(map.len(), 2);
    assert_eq!(map.get("key").unwrap(), "second=2");
    assert_eq!(map.get("other").unwrap(), "1");
    assert!(map.get("Key").is_none());
    assert_eq!(serialize(&map), "key=second=2\nother=1\n");
    assert_eq!(serialize(&parse("")), "");
    let again = parse(&serialize(&map));
    assert_eq!(serialize(&again), "key=second=2\nother=1\n");
}

#[test]
fn dictionary_keeps_order_and_distinct_keys() {
    let mut dict: Dict<String> = Dict::new();
    assert!(dict.is_empty());
    dict.insert("b".to_string(), "1".to_string());
    dict.insert("a".to_string(), "2".to_string());
    dict.insert("b".to_string(), "3".to_string());
    dict.insert("c".to_string(), "4".to_string());
    assert_eq!(dict.len(), 3);
    assert_eq!(dict.key_at(0), "b");
    assert_eq!(dict.value_at(0), "3");
    assert_eq!(dict.key_at(1), "a");
    assert_eq!(dict.key_at(2), "c");
    assert!(dict.contains_key("a"));
    assert!(!dict.contains_key("A"));
    assert_eq!(dict.get("b").unwrap(), "3");
    assert!(dict.get("d").is_none());
    dict.remove("a");
    dict.remove("missing");
    assert_eq!(dict.len(), 2);
    assert_eq!(dict.key_at(0), "b");
    assert_eq!(dict.key_at(1), "c");
    assert!(!dict.is_empty());
}

#[test]
fn truth_values_on_the_wire() {
    assert_eq!(read_bool(1).unwrap(), true);
    assert_eq!(read_bool(0).unwrap(), false);
    assert_eq!(
        read_bool(2).unwrap_err().err_msg(),
        "received byte is neither 1 nor 0"
    );
    assert!(read_bool(255).is_err());
    assert_eq!(write_bool(true), 1);
    assert_eq!(write_bool(false), 0);
}

#[test]
fn reading_in_full_ends_with_a_short_read() {
    let mut data = b"ab".to_vec();
    assert_eq!(read_full(&mut data, b"cdef", 4), true);
    assert_eq!(read_full(&mut data, b"gh", 4), false);
    assert_eq!(data, b"abcdefgh");
    assert_eq!(read_full(&mut data, b"", 4), false);
    assert_eq!(read_full(&mut data, b"", 0), true);
    assert_eq!(data, b"abcdefgh");
}

#[test]
fn redirecter_reads_first_line() {
    assert!(needs_more(b""));
    assert!(needs_more(b"GET /x HTTP/1.1\r"));
    assert!(!needs_more(b"GET /x HTTP/1.1\r\n"));
    assert!(needs_more(&[b'a'; 2047]));
    assert!(!needs_more(&[b'a'; 2048]));
    assert_eq!(
        read_target(b"GET /x?y=1 HTTP/1.1\r\nHost: h\r\n"),
        Some("/x?y=1".to_string())
    );
    // the carriage return is part of the text that is split
    assert_eq!(read_target(b"GET /x\r\n"), Some("/x\r".to_string()));
    assert_eq!(read_target(b"GET /x HTTP/1.1\n"), None);
    assert_eq!(read_target(b"GET\r\n"), None);
    assert_eq!(read_target(b"GET /\xff HTTP/1.1\r\n"), None);
}

#[test]
fn redirecter_answers_with_secure_address() {
    assert_eq!(
        redirect_reply(b"GET /x?y=1 HTTP/1.1\r\nHost: h\r\n", "example.org:8443"),
        Some(redirect("https://example.org:8443/x?y=1"))
    );
    assert_eq!(redirect_reply(b"nothing", "example.org"), None);
}

#[test]
fn second_word_of_a_text() {
    let chars = |s: &str| s.chars().collect::<Vec<char>>();
    assert_eq!(target_in(&chars("GET /x HTTP/1.1")), Some("/x".to_string()));
    assert_eq!(target_in(&chars("GET  /x")), Some(String::new()));
    assert_eq!(target_in(&chars("GET")), None);
    assert_eq!(target_in(&chars("")), None);
}
