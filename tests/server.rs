use metrsd::addr::{parse_listen_addr, parse_listen_hosts, ListenAddr};
use metrsd::error::HttpError;
use metrsd::frame::FrameParser;
use metrsd::hub::EventEmitter;

fn hosts(items: &[&str]) -> Vec<String> {
    items.iter().map(|s| s.to_string()).collect()
}

#[test]
fn test_gen_srv() {
    let srv = parse_listen_hosts(&hosts(&["unix:///tmp/metrsd.sock"]));
    assert!(srv.is_ok());
    let srv = parse_listen_hosts(&hosts(&["tcp://0.0.0.0:1245"]));
    assert!(srv.is_ok());
    let srv = parse_listen_hosts(&hosts(&["wrong_scheme://dsadas"]));
    assert!(srv.is_err());
}

#[test]
fn listen_unix_and_tcp_together() {
    let addrs = parse_listen_hosts(&hosts(&["unix:///tmp/t.sock", "tcp://127.0.0.1:0"])).unwrap();
    assert_eq!(
        addrs,
        vec![
            ListenAddr::Unix("/tmp/t.sock".to_string()),
            ListenAddr::Tcp("127.0.0.1:0".to_string())
        ]
    );
}

#[test]
fn listen_bad_scheme() {
    let err = parse_listen_hosts(&hosts(&["ftp://x"])).unwrap_err();
    assert_eq!(err.message(), "Invalid host scheme must be [tcp,unix] got: ftp://x");
    let err = parse_listen_hosts(&hosts(&["tcp://127.0.0.1:0", "ftp://x", "udp://y"])).unwrap_err();
    assert_eq!(err.message(), "Invalid host scheme must be [tcp,unix] got: ftp://x");
}

#[test]
fn listen_no_host() {
    let err = parse_listen_hosts(&Vec::new()).unwrap_err();
    assert_eq!(err.message(), "No host to listen on");
}

#[test]
fn listen_single_addr() {
    assert_eq!(parse_listen_addr("tcp://").unwrap(), ListenAddr::Tcp(String::new()));
    assert_eq!(
        parse_listen_addr("unix://relative.sock").unwrap(),
        ListenAddr::Unix("relative.sock".to_string())
    );
    assert!(parse_listen_addr("unix:/x").is_err());
    assert!(parse_listen_addr("").is_err());
}

#[test]
fn server_test_subscribe() {
    let mut event_emitter = EventEmitter::new();
    let mut rx = event_emitter.subscribe().unwrap();
    const MAX_COUNT: usize = 50;
    for i in 0..MAX_COUNT {
        let payload = format!("{{\"Tick\":{i}}}");
        assert!(event_emitter.emit(&payload).is_ok());
    }
    let mut parser = FrameParser::new();
    let mut count = 0;
    while let Ok(chunk) = rx.try_recv() {
        for frame in parser.push(&chunk) {
            assert_eq!(frame, format!("{{\"Tick\":{count}}}").into_bytes());
            count += 1;
        }
    }
    assert_eq!(count, MAX_COUNT);
    assert!(parser.pending().is_empty());
}

#[test]
fn test_unhandled_route() {
    let err = HttpError::unhandled_route();
    assert_eq!(err.status, 404);
    assert_eq!(err.body(), "{\"msg\":\"Unhandled route\"}");
}

#[test]
fn error_body_escapes_message() {
    let err = HttpError::internal("line \"one\"\nline two");
    assert_eq!(err.status, 500);
    assert_eq!(err.body(), "{\"msg\":\"line \\\"one\\\"\\nline two\"}");
}
