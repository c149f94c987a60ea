use rawproxy::RouterOptions;

#[test]
fn a_default_configuration_is_unlimited_and_unrouted() {
    let options = RouterOptions::default();
    assert_eq!(options.request_headers_size_limit(), &None);
    assert_eq!(options.request_body_size_limit(), &None);
    assert_eq!(options.response_headers_size_limit(), &None);
    assert_eq!(options.response_body_size_limit(), &None);
    assert!(!options.has_target("a"));
    assert_eq!(options.target("a"), None);
}

#[test]
fn ceilings_can_be_set_and_cleared_independently() {
    let mut options = RouterOptions::default();
    options.set_request_headers_size_limit(1);
    options.set_request_body_size_limit(2);
    options.set_response_headers_size_limit(3);
    options.set_response_body_size_limit(4);
    assert_eq!(options.request_headers_size_limit(), &Some(1));
    assert_eq!(options.request_body_size_limit(), &Some(2));
    assert_eq!(options.response_headers_size_limit(), &Some(3));
    assert_eq!(options.response_body_size_limit(), &Some(4));
    options.remove_request_headers_size_limit();
    options.remove_request_body_size_limit();
    options.remove_response_headers_size_limit();
    options.remove_response_body_size_limit();
    assert_eq!(options.request_headers_size_limit(), &None);
    assert_eq!(options.request_body_size_limit(), &None);
    assert_eq!(options.response_headers_size_limit(), &None);
    assert_eq!(options.response_body_size_limit(), &None);
}

#[test]
fn the_routing_table_maps_exact_hosts() {
    let mut options = RouterOptions::default();
    options.set_target("a", "b");
    assert!(options.has_target("a"));
    assert!(!options.has_target("b"));
    assert_eq!(options.target("a"), Some(&"b".to_string()));
    options.set_target("a", "c");
    assert_eq!(options.target("a"), Some(&"c".to_string()));
    options.remove_target("a");
    assert_eq!(options.target("a"), None);
    options.remove_target("a");
    assert!(!options.has_target("a"));
}
