use rawproxy::read_protocol;
use rawproxy::ErrorKind;
use rawproxy::MemoryConnection;

#[test]
fn parses_a_request_head_with_the_sentinel() {
    let mut conn = MemoryConnection::new(b"GET / HTTP/1.1\r\nHost: a\r\n\r\n".to_vec(), 1024);
    let mut lines: Vec<String> = Vec::new();
    read_protocol(&mut conn, &mut lines, None).unwrap();
    assert_eq!(
        lines,
        vec![
            "GET / HTTP/1.1".to_string(),
            "Host: a".to_string(),
            "".to_string(),
            "".to_string(),
        ]
    );
}

#[test]
fn leaves_the_body_in_the_stream() {
    let mut conn =
        MemoryConnection::new(b"POST / HTTP/1.1\r\nContent-Length: 4\r\n\r\nbody".to_vec(), 1024);
    let mut lines: Vec<String> = Vec::new();
    read_protocol(&mut conn, &mut lines, None).unwrap();
    assert_eq!(lines.len(), 4);
    assert_eq!(conn.remaining(), 4);
}

#[test]
fn stops_quietly_at_end_of_stream() {
    let mut conn = MemoryConnection::new(b"GET / HTTP/1.1\r\nHos".to_vec(), 1024);
    let mut lines: Vec<String> = Vec::new();
    read_protocol(&mut conn, &mut lines, None).unwrap();
    assert_eq!(lines, vec!["GET / HTTP/1.1".to_string(), "".to_string()]);
}

#[test]
fn fails_over_the_configured_ceiling() {
    let mut conn = MemoryConnection::new(b"GET / HTTP/1.1\r\nHost: a\r\n\r\n".to_vec(), 1024);
    let mut lines: Vec<String> = Vec::new();
    let r = read_protocol(&mut conn, &mut lines, Some(5));
    assert_eq!(r, Err(ErrorKind::SizeLimitExceeded(5)));
    assert!(lines.is_empty());
}

#[test]
fn rejects_a_line_feed_without_carriage_return() {
    let mut conn = MemoryConnection::new(b"GET / HTTP/1.1\nHost: a\r\n\r\n".to_vec(), 1024);
    let mut lines: Vec<String> = Vec::new();
    assert_eq!(read_protocol(&mut conn, &mut lines, None), Err(ErrorKind::InvalidData));
}

#[test]
fn rejects_a_carriage_return_followed_by_an_ordinary_byte() {
    let mut conn = MemoryConnection::new(b"GET\rX / HTTP/1.1\r\n\r\n".to_vec(), 1024);
    let mut lines: Vec<String> = Vec::new();
    assert_eq!(read_protocol(&mut conn, &mut lines, None), Err(ErrorKind::InvalidData));
    assert!(lines.is_empty());
}

#[test]
fn a_failed_parse_keeps_only_completed_lines_and_no_sentinel() {
    let mut conn = MemoryConnection::new(b"GET / HTTP/1.1\r\nHos\xff\r\n\r\n".to_vec(), 1024);
    let mut lines: Vec<String> = Vec::new();
    assert_eq!(read_protocol(&mut conn, &mut lines, None), Err(ErrorKind::InvalidData));
    assert_eq!(lines, vec!["GET / HTTP/1.1".to_string()]);
}

#[test]
fn rejects_a_carriage_return_inside_the_terminator_run() {
    let mut conn = MemoryConnection::new(b"GET\r\r\n\r\n".to_vec(), 1024);
    let mut lines: Vec<String> = Vec::new();
    assert_eq!(read_protocol(&mut conn, &mut lines, None), Err(ErrorKind::InvalidData));
}

#[test]
fn rejects_bytes_that_are_not_text() {
    let mut conn = MemoryConnection::new(vec![0xff, 0xfe, 13, 10, 13, 10], 1024);
    let mut lines: Vec<String> = Vec::new();
    assert_eq!(read_protocol(&mut conn, &mut lines, None), Err(ErrorKind::InvalidData));
}

#[test]
fn decodes_multi_byte_text_lines() {
    let mut conn = MemoryConnection::new("X: \u{00e9}t\u{00e9}\r\n\r\n".as_bytes().to_vec(), 1024);
    let mut lines: Vec<String> = Vec::new();
    read_protocol(&mut conn, &mut lines, None).unwrap();
    assert_eq!(
        lines,
        vec!["X: \u{00e9}t\u{00e9}".to_string(), "".to_string(), "".to_string()]
    );
}

#[test]
fn a_head_ending_exactly_at_the_ceiling_is_accepted() {
    let bytes = b"GET / HTTP/1.1\r\nHost: a\r\n\r\n".to_vec();
    let n = bytes.len();
    let mut conn = MemoryConnection::new(bytes, 1024);
    let mut lines: Vec<String> = Vec::new();
    read_protocol(&mut conn, &mut lines, Some(n)).unwrap();
    assert_eq!(lines.len(), 4);
}
