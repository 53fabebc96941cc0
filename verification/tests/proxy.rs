use openab_agent::proxy::{
    choose_port, connect_request, detect_http_proxy, find_header_end, judge_response,
    proxy_variables, read_proxy, socket_address, target_port, ConnectError, ConnectHandshake,
    ConnectStep, UnsupportedUrlScheme,
};
use tungstenite::http::Uri;

fn proxy(host: &str, port: u16) -> Option<(String, u16)> {
    Some((host.to_string(), port))
}

fn uri(text: &str) -> Uri {
    text.parse().unwrap()
}

#[test]
fn values_of_proxy_variables() {
    assert_eq!(read_proxy("http://proxy.local:3128"), proxy("proxy.local", 3128));
    assert_eq!(read_proxy("https://proxy.local:3128/"), proxy("proxy.local", 3128));
    assert_eq!(read_proxy("proxy.local:8080"), proxy("proxy.local", 8080));
    assert_eq!(read_proxy("proxy.local"), proxy("proxy.local", 1080));
    assert_eq!(read_proxy("http://proxy.local///"), proxy("proxy.local", 1080));
    assert_eq!(read_proxy("http://proxy.local:99999"), proxy("proxy.local:99999", 1080));
    assert_eq!(read_proxy("http://proxy.local:"), proxy("proxy.local:", 1080));
    assert_eq!(read_proxy("[::1]:+80"), proxy("[::1]", 80));
    assert_eq!(read_proxy("http://"), proxy("", 1080));
    assert_eq!(read_proxy(""), None);
    assert_eq!(read_proxy("socks5://proxy.local:1080"), None);
    assert_eq!(read_proxy("sockshop:80"), None);
}

#[test]
fn schemes_and_slashes_do_not_count() {
    for value in ["proxy.local:3128", "proxy.local", "[::1]:80", "a/b:1", ":", "/"] {
        let plain = read_proxy(value);
        for text in [
            format!("http://{value}"),
            format!("https://{value}"),
            format!("{value}//"),
            format!("https://{value}/"),
        ] {
            assert_eq!(read_proxy(&text), plain);
        }
    }
    assert_ne!(read_proxy("http:/"), read_proxy("http://"));
}

#[test]
fn first_usable_variable_decides() {
    assert_eq!(
        proxy_variables(),
        vec!["HTTPS_PROXY", "https_proxy", "HTTP_PROXY", "http_proxy", "ALL_PROXY", "all_proxy"]
    );
    let some = |s: &str| Some(s.to_string());
    let values = [None, some(""), some("socks5://a:1"), some("b:2"), some("c:3")];
    assert_eq!(detect_http_proxy(&values), proxy("b", 2));
    assert_eq!(detect_http_proxy(&values[..3]), None);
    assert_eq!(detect_http_proxy(&[]), None);
}

#[test]
fn address_round_trip() {
    for (host, port) in [("proxy.local", 0), ("[::1]", 65535), ("a/b", 10)] {
        let address = format!("http://{}", socket_address(host, port));
        assert_eq!(read_proxy(&address), proxy(host, port));
    }
}

#[test]
fn tunnel_request() {
    assert_eq!(
        connect_request("gateway.discord.gg", 443),
        "CONNECT gateway.discord.gg:443 HTTP/1.1\r\nHost: gateway.discord.gg:443\r\n\r\n"
    );
    assert_eq!(socket_address("gateway.discord.gg", 443), "gateway.discord.gg:443");
}

#[test]
fn end_of_headers() {
    assert_eq!(find_header_end(b"HTTP/1.1 200 OK\r\n\r\n"), Some(19));
    assert_eq!(find_header_end(b"\r\n\r\n\r\n\r\n"), Some(4));
    assert_eq!(find_header_end(b"\r\r\n\r\nx"), Some(5));
    assert_eq!(find_header_end(b"a\r\n\r"), None);
    assert_eq!(find_header_end(b""), None);
}

#[test]
fn response_heads() {
    assert!(matches!(judge_response("HTTP/1.1 200 OK\r\n\r\n"), ConnectStep::Established));
    let rejected = |head: &str| match judge_response(head) {
        ConnectStep::Failed(error) => error.message(),
        other => panic!("expected a failure, got {other:?}"),
    };
    assert_eq!(
        rejected("HTTP/1.1 407 Proxy Authentication Required\r\nA: b\r\n\r\n"),
        "HTTP CONNECT proxy rejected: HTTP/1.1 407 Proxy Authentication Required"
    );
    assert_eq!(
        rejected("HTTP/1.1 407 Proxy Authentication Required\r\nContent-Length: 200\r\n\r\n"),
        "HTTP CONNECT proxy rejected: HTTP/1.1 407 Proxy Authentication Required"
    );
    assert_eq!(rejected(""), "HTTP CONNECT proxy rejected: ");
    for head in ["HTTP/1.0 200\r\n\r\n", "HTTP/1.1 200 \r\n\r\n", "HTTP/1.1 200 OK"] {
        assert!(matches!(judge_response(head), ConnectStep::Established));
    }
    for line in ["HTTP/1.1 2000", "HTTP/1.1  200", "HTTP/2 200 OK", "200", "HTTP/1.1 20", "x 200"] {
        assert_eq!(rejected(line), format!("HTTP CONNECT proxy rejected: {line}"));
    }
}

#[test]
fn handshake_in_pieces() {
    let response = b"HTTP/1.1 200 Connection established\r\nVia: x\r\n\r\nrest";
    let mut handshake = ConnectHandshake::new();
    assert_eq!(handshake.room(), 4096);
    let mut steps = 0;
    for (i, byte) in response.iter().enumerate() {
        assert_eq!(handshake.room(), 4096 - i);
        match handshake.receive(&[*byte]) {
            ConnectStep::ReadMore => steps += 1,
            ConnectStep::Established => break,
            other => panic!("unexpected {other:?}"),
        }
    }
    assert_eq!(steps, response.len() - 5);
    let mut handshake = ConnectHandshake::new();
    assert!(matches!(handshake.receive(response), ConnectStep::Established));
    for size in 1..response.len() {
        let mut handshake = ConnectHandshake::new();
        let steps: Vec<ConnectStep> = response[..response.len() - 4]
            .chunks(size)
            .map(|piece| handshake.receive(piece))
            .collect();
        assert!(matches!(steps.last(), Some(ConnectStep::Established)));
    }
}

#[test]
fn handshake_that_fails() {
    let mut handshake = ConnectHandshake::new();
    let step = handshake.receive(b"HTTP/1.1 403 Forb\xffdden\r\n\r\n");
    match step {
        ConnectStep::Failed(ConnectError::Rejected(line)) => {
            assert_eq!(line, "HTTP/1.1 403 Forb\u{fffd}dden")
        }
        other => panic!("unexpected {other:?}"),
    }

    let mut handshake = ConnectHandshake::new();
    assert!(matches!(handshake.receive(b"HTTP/1.1 200"), ConnectStep::ReadMore));
    match handshake.receive(b"") {
        ConnectStep::Failed(error) => assert_eq!(
            error.message(),
            "proxy closed connection before completing CONNECT handshake"
        ),
        other => panic!("unexpected {other:?}"),
    }

    let mut handshake = ConnectHandshake::new();
    assert!(matches!(handshake.receive(&[b'a'; 4095]), ConnectStep::ReadMore));
    assert_eq!(handshake.room(), 1);
    match handshake.receive(b"a") {
        ConnectStep::Failed(error) => {
            assert_eq!(error.message(), "HTTP CONNECT response too large")
        }
        other => panic!("unexpected {other:?}"),
    }
}

#[test]
fn ports_of_requests() {
    assert_eq!(target_port(&uri("wss://example.com/x")), Ok(443));
    assert_eq!(target_port(&uri("ws://example.com")), Ok(80));
    assert_eq!(target_port(&uri("ws://example.com:9000/")), Ok(9000));
    assert_eq!(target_port(&uri("https://example.com:8443")), Ok(8443));
    assert_eq!(target_port(&uri("https://example.com")), Err(UnsupportedUrlScheme));
    assert_eq!(target_port(&uri("/path")), Err(UnsupportedUrlScheme));
    assert_eq!(choose_port(Some(1), None), Ok(1));
    assert_eq!(choose_port(None, Some("wss")), Ok(443));
    assert_eq!(choose_port(None, Some("WS")), Err(UnsupportedUrlScheme));
    assert_eq!(choose_port(None, None), Err(UnsupportedUrlScheme));
}
