use git_credential_github::paramparsing::{is_blank_line, parse_from, write_to};
use git_credential_github::params::Params;

fn set(pairs: &[(&str, &str)]) -> Params {
    let mut p = Params::new();
    for (k, v) in pairs {
        p.add(k.to_string(), v.to_string());
    }
    p
}

fn value(p: &Params, k: &str) -> Option<String> {
    p.get(k.to_string()).cloned()
}

#[test]
fn parses_two_lines_up_to_blank_line() {
    let p = parse_from("host=github.com\nprotocol=https\n\n").unwrap();
    assert_eq!(p.len(), 2);
    assert_eq!(value(&p, "host"), Some("github.com".to_string()));
    assert_eq!(value(&p, "protocol"), Some("https".to_string()));
}

#[test]
fn line_without_equals_is_malformed() {
    let e = parse_from("novalue").err().unwrap();
    assert_eq!(e.data(), "novalue");
}

#[test]
fn malformed_line_after_good_ones_is_reported() {
    let e = parse_from("host=a\nbroken line\n\n").err().unwrap();
    assert_eq!(e.data(), "broken line");
}

#[test]
fn value_keeps_later_equals_signs() {
    let p = parse_from("url=https://x.com/a=b\n\n").unwrap();
    assert_eq!(p.len(), 1);
    assert_eq!(value(&p, "url"), Some("https://x.com/a=b".to_string()));
}

#[test]
fn keys_and_values_are_trimmed() {
    let p = parse_from("  host =  github.com \r\n\tpath= a b \n\n").unwrap();
    assert_eq!(value(&p, "host"), Some("github.com".to_string()));
    assert_eq!(value(&p, "path"), Some("a b".to_string()));
}

#[test]
fn end_of_text_ends_the_block() {
    let p = parse_from("host=x\nprotocol=https").unwrap();
    assert_eq!(p.len(), 2);
    assert_eq!(value(&p, "protocol"), Some("https".to_string()));
}

#[test]
fn nothing_is_read_past_the_blank_line() {
    let p = parse_from("host=x\n   \nnovalue\nuser=y\n").unwrap();
    assert_eq!(p.len(), 1);
    assert!(!p.contains("user".to_string()));
}

#[test]
fn empty_text_is_an_empty_set() {
    let p = parse_from("").unwrap();
    assert_eq!(p.len(), 0);
}

#[test]
fn later_line_overrides_earlier_key() {
    let p = parse_from("host=a\nhost=b\n\n").unwrap();
    assert_eq!(p.len(), 1);
    assert_eq!(value(&p, "host"), Some("b".to_string()));
}

#[test]
fn empty_key_and_value_are_read() {
    let p = parse_from("=v\nk=\n\n").unwrap();
    assert_eq!(value(&p, ""), Some("v".to_string()));
    assert_eq!(value(&p, "k"), Some("".to_string()));
}

#[test]
fn writes_entries_then_blank_line() {
    let p = set(&[("host", "github.com"), ("protocol", "https")]);
    let mut out = String::new();
    write_to(&p, &mut out);
    assert_eq!(out, "host=github.com\nprotocol=https\n\n");
}

#[test]
fn write_appends_to_what_is_there() {
    let p = set(&[("a", "1")]);
    let mut out = String::from("x");
    p.write_to(&mut out);
    assert_eq!(out, "xa=1\n\n");
}

#[test]
fn write_skips_empty_keys_and_values() {
    let p = set(&[("", "v"), ("k", ""), ("a", "b")]);
    let mut out = String::new();
    write_to(&p, &mut out);
    assert_eq!(out, "a=b\n\n");
}

#[test]
fn empty_set_writes_blank_line() {
    let mut out = String::new();
    write_to(&Params::new(), &mut out);
    assert_eq!(out, "\n");
}

#[test]
fn written_block_reads_back_as_the_same_set() {
    let p = set(&[("host", "github.com"), ("username", "u v"), ("url", "https://x.com/a=b")]);
    let mut out = String::new();
    write_to(&p, &mut out);
    let q = parse_from(&out).unwrap();
    assert_eq!(q.len(), p.len());
    for k in ["host", "username", "url"] {
        assert_eq!(value(&q, k), value(&p, k));
    }
}

#[test]
fn add_from_string_splits_on_first_equals() {
    let mut p = Params::new();
    p.add_from_string(&" a = b=c \n".to_string()).unwrap();
    assert_eq!(value(&p, "a"), Some("b=c".to_string()));
    let e = p.add_from_string(&"nothing".to_string()).err().unwrap();
    assert_eq!(e.data(), "nothing");
    assert_eq!(p.len(), 1);
}

#[test]
fn add_replaces_value_of_existing_key() {
    let mut p = set(&[("a", "1"), ("b", "2")]);
    p.add("a".to_string(), "3".to_string());
    assert_eq!(p.len(), 2);
    assert_eq!(value(&p, "a"), Some("3".to_string()));
    assert!(p.contains("b".to_string()));
    assert!(!p.contains("c".to_string()));
    assert_eq!(p.get("c".to_string()), None);
}

#[test]
fn entries_keep_insertion_order() {
    let p = set(&[("z", "1"), ("a", "2")]);
    let (k, v) = p.entry(0);
    assert_eq!((k.as_str(), v.as_str()), ("z", "1"));
    let (k, v) = p.entry(1);
    assert_eq!((k.as_str(), v.as_str()), ("a", "2"));
}

#[test]
fn blank_lines() {
    assert!(is_blank_line(""));
    assert!(is_blank_line(" \t\r\n"));
    assert!(!is_blank_line(" a \n"));
}

#[test]
fn parse_error_message_names_the_line() {
    let e = parse_from("bad").err().unwrap();
    assert_eq!(e.message(), "Failed to parse parameter. Data bad");
}
