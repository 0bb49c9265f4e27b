use wsio::clamp_channel_capacity;
use wsio::paths::{normalize_request_path, rewrite_query_pairs, valid_ws_scheme};

#[test]
fn paths_normalize_to_nonempty_segments() {
    assert_eq!(normalize_request_path(""), "/");
    assert_eq!(normalize_request_path("/"), "/");
    assert_eq!(normalize_request_path("///"), "/");
    assert_eq!(normalize_request_path("json"), "/json");
    assert_eq!(normalize_request_path("/json"), "/json");
    assert_eq!(normalize_request_path("/json/"), "/json");
    assert_eq!(normalize_request_path("/a//b/"), "/a/b");
    assert_eq!(normalize_request_path("a/b/c"), "/a/b/c");
}

#[test]
fn query_rewrite_replaces_the_namespace_key() {
    let pairs = vec![
        ("token".to_string(), "abc".to_string()),
        ("namespace".to_string(), "/old".to_string()),
        ("x".to_string(), "1".to_string()),
    ];
    let rewritten = rewrite_query_pairs(&pairs, "/json");
    assert_eq!(
        rewritten,
        vec![
            ("token".to_string(), "abc".to_string()),
            ("x".to_string(), "1".to_string()),
            ("namespace".to_string(), "/json".to_string()),
        ]
    );
    // With no pairs at all, only the namespace pair remains.
    let rewritten = rewrite_query_pairs(&Vec::new(), "/a/b");
    assert_eq!(rewritten, vec![("namespace".to_string(), "/a/b".to_string())]);
}

#[test]
fn websocket_schemes() {
    assert!(valid_ws_scheme("ws"));
    assert!(valid_ws_scheme("wss"));
    assert!(!valid_ws_scheme("http"));
    assert!(!valid_ws_scheme("wss2"));
    assert!(!valid_ws_scheme(""));
}

#[test]
fn channel_capacity_is_clamped_between_64_and_16384() {
    assert_eq!(clamp_channel_capacity(0), 64);
    assert_eq!(clamp_channel_capacity(63), 64);
    assert_eq!(clamp_channel_capacity(64), 64);
    assert_eq!(clamp_channel_capacity(2048), 2048);
    assert_eq!(clamp_channel_capacity(16384), 16384);
    assert_eq!(clamp_channel_capacity(16385), 16384);
    assert_eq!(clamp_channel_capacity(usize::MAX), 16384);
}
