use rawproxy::forward_body;
use rawproxy::forward_chunked_body;
use rawproxy::forward_sized_body;
use rawproxy::ErrorKind;
use rawproxy::MemoryConnection;

#[test]
fn no_framing_headers_means_no_transfer() {
    let lines = vec!["GET / HTTP/1.1".to_string(), "Host: a".to_string(), "".to_string()];
    let mut input = MemoryConnection::new(b"leftover".to_vec(), 1024);
    let mut output = MemoryConnection::new(Vec::new(), 1024);
    forward_body(&mut input, &mut output, &lines, None).unwrap();
    assert_eq!(input.remaining(), 8);
    assert!(output.sent_bytes().is_empty());
    assert_eq!(output.flushed_count(), 0);
}

#[test]
fn sized_forward_of_length_zero_does_nothing() {
    let mut input = MemoryConnection::new(b"0123456789".to_vec(), 1024);
    let mut output = MemoryConnection::new(Vec::new(), 1024);
    forward_sized_body(&mut input, &mut output, 0).unwrap();
    assert_eq!(input.remaining(), 10);
    assert!(output.sent_bytes().is_empty());
    assert_eq!(output.flushed_count(), 0);
}

#[test]
fn sized_forward_moves_exactly_the_declared_bytes_in_order() {
    let mut input = MemoryConnection::new(b"0123456789".to_vec(), 3);
    let mut output = MemoryConnection::new(Vec::new(), 1024);
    forward_sized_body(&mut input, &mut output, 7).unwrap();
    assert_eq!(output.sent_bytes(), &b"0123456".to_vec());
    assert_eq!(output.flushed_count(), 7);
    assert_eq!(input.remaining(), 3);
}

#[test]
fn sized_forward_accepts_an_early_close() {
    let mut input = MemoryConnection::new(b"abc".to_vec(), 1024);
    let mut output = MemoryConnection::new(Vec::new(), 1024);
    forward_sized_body(&mut input, &mut output, 10).unwrap();
    assert_eq!(output.sent_bytes(), &b"abc".to_vec());
}

#[test]
fn body_forward_uses_content_length() {
    let lines = vec![
        "POST / HTTP/1.1".to_string(),
        "Content-Length: 4".to_string(),
        "".to_string(),
    ];
    let mut input = MemoryConnection::new(b"bodyrest".to_vec(), 1024);
    let mut output = MemoryConnection::new(Vec::new(), 1024);
    forward_body(&mut input, &mut output, &lines, None).unwrap();
    assert_eq!(output.sent_bytes(), &b"body".to_vec());
    assert_eq!(input.remaining(), 4);
}

#[test]
fn body_forward_rejects_an_unreadable_content_length() {
    let lines = vec!["POST / HTTP/1.1".to_string(), "Content-Length: abc".to_string()];
    let mut input = MemoryConnection::new(b"body".to_vec(), 1024);
    let mut output = MemoryConnection::new(Vec::new(), 1024);
    let r = forward_body(&mut input, &mut output, &lines, None);
    assert_eq!(r, Err(ErrorKind::InvalidHeader("Content-Length".to_string())));
    assert_eq!(input.remaining(), 4);
    assert!(output.sent_bytes().is_empty());
}

#[test]
fn body_forward_rejects_a_declared_length_over_the_ceiling() {
    let lines = vec!["POST / HTTP/1.1".to_string(), "Content-Length: 10".to_string()];
    let mut input = MemoryConnection::new(b"0123456789".to_vec(), 1024);
    let mut output = MemoryConnection::new(Vec::new(), 1024);
    let r = forward_body(&mut input, &mut output, &lines, Some(5));
    assert_eq!(r, Err(ErrorKind::SizeLimitExceeded(5)));
    assert_eq!(input.remaining(), 10);
    assert!(output.sent_bytes().is_empty());
}

#[test]
fn chunked_forward_stops_at_the_terminator() {
    let payload = b"4\r\nWiki\r\n0\r\n\r\n".to_vec();
    let mut input = MemoryConnection::new(payload.clone(), 1024);
    let mut output = MemoryConnection::new(Vec::new(), 1024);
    forward_chunked_body(&mut input, &mut output, None).unwrap();
    assert_eq!(output.sent_bytes(), &payload);
    assert_eq!(output.flushed_count(), payload.len());
}

#[test]
fn chunked_forward_sees_a_terminator_split_across_reads() {
    let payload = b"4\r\nWiki\r\n0\r\n\r\n".to_vec();
    // Reads of twelve bytes put the boundary inside the terminator: the
    // first read ends with "0\r\n" and the second begins with "\r\n".
    let mut input = MemoryConnection::new(payload.clone(), 12);
    let mut output = MemoryConnection::new(Vec::new(), 1024);
    forward_chunked_body(&mut input, &mut output, None).unwrap();
    assert_eq!(output.sent_bytes(), &payload);
    assert_eq!(input.remaining(), 0);
}

#[test]
fn chunked_forward_relays_bytes_unmodified() {
    let lines = vec![
        "HTTP/1.1 200 OK".to_string(),
        "Transfer-Encoding: chunked".to_string(),
        "".to_string(),
    ];
    let payload = b"5\r\nhello\r\n0\r\n\r\n".to_vec();
    let mut input = MemoryConnection::new(payload.clone(), 4);
    let mut output = MemoryConnection::new(Vec::new(), 1024);
    forward_body(&mut input, &mut output, &lines, None).unwrap();
    assert_eq!(output.sent_bytes(), &payload);
}

#[test]
fn chunked_forward_enforces_the_ceiling() {
    let payload = b"4\r\nWiki\r\n0\r\n\r\n".to_vec();
    let mut input = MemoryConnection::new(payload, 4);
    let mut output = MemoryConnection::new(Vec::new(), 1024);
    let r = forward_chunked_body(&mut input, &mut output, Some(6));
    assert_eq!(r, Err(ErrorKind::SizeLimitExceeded(6)));
}

#[test]
fn chunked_forward_accepts_an_early_close() {
    let mut input = MemoryConnection::new(b"partial".to_vec(), 1024);
    let mut output = MemoryConnection::new(Vec::new(), 1024);
    forward_chunked_body(&mut input, &mut output, None).unwrap();
    assert_eq!(output.sent_bytes(), &b"partial".to_vec());
}

#[test]
fn a_failing_input_reports_read_failure() {
    let mut input = MemoryConnection::faulty();
    let mut output = MemoryConnection::new(Vec::new(), 1024);
    assert_eq!(
        forward_sized_body(&mut input, &mut output, 3),
        Err(ErrorKind::ReadFailed)
    );
    assert_eq!(
        forward_chunked_body(&mut input, &mut output, None),
        Err(ErrorKind::ReadFailed)
    );
}

#[test]
fn a_failing_output_reports_write_failure() {
    let mut input = MemoryConnection::new(b"abc".to_vec(), 1024);
    let mut output = MemoryConnection::faulty();
    assert_eq!(
        forward_sized_body(&mut input, &mut output, 3),
        Err(ErrorKind::WriteFailed)
    );
}
