use rawproxy::Error;
use rawproxy::ErrorKind;
use rawproxy::MemoryConnection;
use rawproxy::MemoryConnector;
use rawproxy::Router;
use rawproxy::RouterOptions;

fn response_bytes() -> Vec<u8> {
    b"HTTP/1.1 200 OK\r\nContent-Length: 5\r\n\r\nhello".to_vec()
}

#[test]
fn a_mapped_host_is_rewritten_and_contacted() {
    let client = MemoryConnection::new(b"GET / HTTP/1.1\r\nHost: a\r\n\r\n".to_vec(), 1024);
    let mut router = Router::new(client);
    router.parse_request().unwrap();

    let mut options = RouterOptions::default();
    options.set_target("a", "b");
    let mut connector = MemoryConnector::new(vec![response_bytes()], 1024);
    router.relay_request(&options, &mut connector).unwrap();

    assert_eq!(connector.contacted_hosts(), &vec!["b".to_string()]);
    assert_eq!(router.request_header("Host"), Some("b".to_string()));
}

#[test]
fn an_unmapped_host_passes_through_unchanged() {
    let client = MemoryConnection::new(b"GET / HTTP/1.1\r\nHost: c\r\n\r\n".to_vec(), 1024);
    let mut router = Router::new(client);
    router.parse_request().unwrap();

    let mut options = RouterOptions::default();
    options.set_target("a", "b");
    let mut connector = MemoryConnector::new(vec![response_bytes()], 1024);
    router.relay_request(&options, &mut connector).unwrap();

    assert_eq!(connector.contacted_hosts(), &vec!["c".to_string()]);
    assert_eq!(router.request_header("Host"), Some("c".to_string()));
}

#[test]
fn a_request_without_host_fails_before_any_connection() {
    let client = MemoryConnection::new(
        b"GET / HTTP/1.1\r\nConnection: close\r\n\r\n".to_vec(),
        1024,
    );
    let mut router = Router::new(client);
    router.parse_request().unwrap();

    let options = RouterOptions::default();
    let mut connector = MemoryConnector::new(vec![response_bytes()], 1024);
    let r = router.relay_request(&options, &mut connector);
    assert_eq!(
        r,
        Err(Error::Request(ErrorKind::MissingHeader("Host".to_string())))
    );
    assert!(connector.contacted_hosts().is_empty());
}

#[test]
fn a_full_relay_carries_the_response_back() {
    let client = MemoryConnection::new(b"GET / HTTP/1.1\r\nHost: a\r\n\r\n".to_vec(), 1024);
    let mut router = Router::new(client);
    router.parse_request().unwrap();
    assert_eq!(
        router.request_headers(),
        &vec![
            "GET / HTTP/1.1".to_string(),
            "Host: a".to_string(),
            "".to_string(),
            "".to_string(),
        ]
    );

    let options = RouterOptions::default();
    let mut connector = MemoryConnector::new(vec![response_bytes()], 1024);
    router.relay_request(&options, &mut connector).unwrap();
    router.parse_response().unwrap();
    assert_eq!(router.response_header("Content-Length"), Some("5".to_string()));
    router.relay_response().unwrap();

    assert_eq!(
        router.stream().sent_bytes(),
        &b"HTTP/1.1 200 OK\r\nContent-Length: 5\r\n\r\nhello".to_vec()
    );
}

#[test]
fn an_unreachable_host_is_a_relay_write_failure() {
    let client = MemoryConnection::new(b"GET / HTTP/1.1\r\nHost: a\r\n\r\n".to_vec(), 1024);
    let mut router = Router::new(client);
    router.parse_request().unwrap();

    let options = RouterOptions::default();
    let mut connector = MemoryConnector::new(Vec::new(), 1024);
    let r = router.relay_request(&options, &mut connector);
    assert_eq!(r, Err(Error::Relay(ErrorKind::WriteFailed)));
    assert_eq!(connector.contacted_hosts(), &vec!["a".to_string()]);
}

#[test]
fn response_operations_need_the_relay_connection() {
    let client = MemoryConnection::new(Vec::new(), 1024);
    let mut router = Router::new(client);
    assert_eq!(
        router.parse_response(),
        Err(Error::Response(ErrorKind::NotConnected))
    );
    assert_eq!(
        router.relay_response(),
        Err(Error::Response(ErrorKind::NotConnected))
    );
}

#[test]
fn a_request_head_over_its_ceiling_is_a_request_failure() {
    let client = MemoryConnection::new(b"GET / HTTP/1.1\r\nHost: a\r\n\r\n".to_vec(), 1024);
    let mut router = Router::new(client);
    router.set_request_headers_size_limit(4);
    assert_eq!(router.request_headers_size_limit(), &Some(4));
    let r = router.parse_request();
    assert_eq!(r, Err(Error::Request(ErrorKind::SizeLimitExceeded(4))));
    router.remove_request_headers_size_limit();
    assert_eq!(router.request_headers_size_limit(), &None);
}

#[test]
fn direct_writes_reach_the_client() {
    let client = MemoryConnection::new(Vec::new(), 1024);
    let mut router = Router::new(client);
    assert_eq!(router.write(b"oops"), Ok(4));
    assert_eq!(router.stream().sent_bytes(), &b"oops".to_vec());
}

#[test]
fn header_edits_on_the_router_stores() {
    let client = MemoryConnection::new(Vec::new(), 1024);
    let mut router = Router::new(client);
    router.set_request_header("Host", "x");
    router.set_request_header("Host", "y");
    assert_eq!(router.request_header("Host"), Some("y".to_string()));
    router.remove_request_header("Host");
    assert_eq!(router.request_header("Host"), None);
    router.set_response_header("Server", "demo");
    assert_eq!(router.response_header("Server"), Some("demo".to_string()));
    router.remove_response_header("Server");
    assert_eq!(router.response_headers(), &Vec::<String>::new());
}
