use rawproxy::read_header;
use rawproxy::remove_header;
use rawproxy::string_to_usize;
use rawproxy::str_contains;
use rawproxy::vec_has_sequence;
use rawproxy::write_header;

#[test]
fn read_header_value() {
    assert_eq!(
        read_header(
            &vec![
                "GET / HTTP/1.1".to_string(),
                "Host: google.com".to_string(),
                "Connection: close".to_string(),
            ],
            "Host",
        ),
        Some("google.com".to_string())
    );
}

#[test]
fn checks_vector_has_sequence() {
    assert!(vec_has_sequence(&[1, 4, 6, 10, 21, 5, 150], &[10, 21, 5]));
    assert!(!vec_has_sequence(&[1, 4, 6, 10, 21, 5, 150], &[10, 5]));
}

#[test]
fn lookup_finds_first_match_and_misses_absent_names() {
    let lines = vec![
        "GET / HTTP/1.1".to_string(),
        "Host: a".to_string(),
        "Connection: close".to_string(),
    ];
    assert_eq!(read_header(&lines, "Host"), Some("a".to_string()));
    assert_eq!(read_header(&lines, "Content-Length"), None);
    let without_host = vec!["GET / HTTP/1.1".to_string(), "Connection: close".to_string()];
    assert_eq!(read_header(&without_host, "Host"), None);
}

#[test]
fn lookup_keeps_value_spaces_after_the_separator() {
    let lines = vec!["X: a b  c".to_string()];
    assert_eq!(read_header(&lines, "X"), Some("a b  c".to_string()));
}

#[test]
fn lookup_sees_only_the_first_duplicate() {
    let lines = vec!["A: one".to_string(), "A: two".to_string()];
    assert_eq!(read_header(&lines, "A"), Some("one".to_string()));
}

#[test]
fn upsert_replaces_in_place_and_preserves_other_lines() {
    let mut lines = vec![
        "GET / HTTP/1.1".to_string(),
        "Host: a".to_string(),
        "Connection: close".to_string(),
    ];
    write_header(&mut lines, "Host", "b");
    assert_eq!(
        lines,
        vec![
            "GET / HTTP/1.1".to_string(),
            "Host: b".to_string(),
            "Connection: close".to_string(),
        ]
    );
}

#[test]
fn upsert_appends_for_an_absent_name() {
    let mut lines = vec!["GET / HTTP/1.1".to_string(), "Host: a".to_string()];
    write_header(&mut lines, "Accept", "*/*");
    assert_eq!(
        lines,
        vec![
            "GET / HTTP/1.1".to_string(),
            "Host: a".to_string(),
            "Accept: */*".to_string(),
        ]
    );
}

#[test]
fn remove_deletes_first_match_only_and_tolerates_absence() {
    let mut lines = vec![
        "GET / HTTP/1.1".to_string(),
        "A: one".to_string(),
        "A: two".to_string(),
    ];
    remove_header(&mut lines, "A");
    assert_eq!(lines, vec!["GET / HTTP/1.1".to_string(), "A: two".to_string()]);
    remove_header(&mut lines, "B");
    assert_eq!(lines, vec!["GET / HTTP/1.1".to_string(), "A: two".to_string()]);
}

#[test]
fn parses_decimal_numbers_exactly() {
    assert_eq!(string_to_usize("0"), Some(0));
    assert_eq!(string_to_usize("10"), Some(10));
    assert_eq!(string_to_usize("4096"), Some(4096));
    assert_eq!(string_to_usize(""), None);
    assert_eq!(string_to_usize("12a"), None);
    assert_eq!(string_to_usize("-3"), None);
    assert_eq!(string_to_usize("99999999999999999999999999"), None);
}

#[test]
fn finds_substrings() {
    assert!(str_contains("chunked", "chunked"));
    assert!(str_contains("gzip, chunked", "chunked"));
    assert!(!str_contains("identity", "chunked"));
    assert!(str_contains("anything", ""));
}

#[test]
fn scan_finds_a_match_ending_at_the_last_byte() {
    assert!(vec_has_sequence(&[10, 21, 5], &[10, 21, 5]));
    assert!(vec_has_sequence(&[0, 10, 21, 5], &[10, 21, 5]));
}

#[test]
fn scan_finds_a_match_overlapping_an_abandoned_run() {
    assert!(vec_has_sequence(&[7, 7, 8], &[7, 8]));
    assert!(vec_has_sequence(b"aaab", b"aab"));
}
