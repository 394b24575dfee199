use peregrein::config::BackendConfig;
use peregrein::error::ConfigError;
use peregrein::layer::http_forward::{
    address_text, authority_text, check_host, push_decimal, Forward, Header, Request, Transport,
};

fn backend(host: &str, port: u16, enable_h2c: bool) -> BackendConfig {
    BackendConfig { host: host.to_string(), port, enable_h2c }
}

#[test]
fn decimal_numerals() {
    for (n, expected) in [
        (0u16, "0"),
        (7, "7"),
        (9, "9"),
        (10, "10"),
        (99, "99"),
        (100, "100"),
        (8081, "8081"),
        (60000, "60000"),
        (65535, "65535"),
    ] {
        let mut text = String::from("port ");
        push_decimal(&mut text, n);
        assert_eq!(text, format!("port {}", expected));
    }
}

#[test]
fn every_port_is_written_as_std_writes_it() {
    for port in 0..=u16::MAX {
        assert_eq!(authority_text("h", port), format!("h:{}", port));
    }
}

#[test]
fn address_is_scheme_host_and_port() {
    assert_eq!(address_text("localhost", 8081), "http://localhost:8081");
    assert_eq!(authority_text("example.org", 80), "example.org:80");
    assert_eq!(address_text("10.0.0.7", 65535), "http://10.0.0.7:65535");
}

#[test]
fn forward_is_built_from_a_backend() {
    let forward = Forward::new(&backend("localhost", 8081, false)).unwrap();
    assert_eq!(forward.host(), "localhost");
    assert_eq!(forward.port(), 8081);
    assert_eq!(forward.authority(), "localhost:8081");
    assert_eq!(forward.address(), "http://localhost:8081");
    assert_eq!(forward.transport(), Transport::Http1);
    assert!(forward.poll_ready());
    let forward = Forward::new(&backend("backend.internal", 443, true)).unwrap();
    assert_eq!(forward.transport(), Transport::H2c);
    assert_eq!(forward.authority(), "backend.internal:443");
}

#[test]
fn forward_address_is_one_the_uri_parser_reads_back() {
    let forward = Forward::new(&backend("localhost", 8081, false)).unwrap();
    let uri: http::Uri = forward.address().parse().unwrap();
    assert_eq!(uri.scheme_str(), Some("http"));
    assert_eq!(uri.authority().map(|a| a.as_str()), Some(forward.authority()));
    assert_eq!(uri.port_u16(), Some(8081));
}

#[test]
fn address_check_follows_the_uri_parser() {
    for (host, port) in [
        ("localhost", 8081u16),
        ("example.org", 80),
        ("10.0.0.7", 65535),
        ("[::1]", 443),
        ("", 80),
        ("not a host", 8081),
        ("a/b", 1),
        ("a?b", 1),
        ("user@host", 1),
        ("[::1", 1),
        ("h\u{e9}te", 1),
    ] {
        let parsed = format!("http://{}:{}", host, port).parse::<http::Uri>();
        assert_eq!(Forward::check_address(&backend(host, port, false)), parsed.is_ok(), "{}", host);
    }
    assert!(Forward::check_address(&backend("localhost", 8081, false)));
    assert!(!Forward::check_address(&backend("not a host", 8081, false)));
}

#[test]
fn forward_refuses_an_empty_host() {
    assert_eq!(Forward::new(&backend("", 8081, false)).err(), Some(ConfigError::EmptyHost));
    assert_eq!(Forward::new(&backend("", 0, false)).err(), Some(ConfigError::EmptyHost));
    assert_eq!(
        Forward::from_checked(&backend("", 8081, false), true).err(),
        Some(ConfigError::EmptyHost)
    );
}

#[test]
fn forward_refuses_port_zero() {
    assert_eq!(Forward::new(&backend("localhost", 0, false)).err(), Some(ConfigError::InvalidPort));
    assert_eq!(
        Forward::from_checked(&backend("localhost", 0, true), false).err(),
        Some(ConfigError::InvalidPort)
    );
}

#[test]
fn forward_refuses_an_address_that_is_no_uri() {
    for host in ["not a host", "exa mple.org", "a\\b", "<host>", "[::1"] {
        assert_eq!(
            Forward::new(&backend(host, 8081, false)).err(),
            Some(ConfigError::InvalidAddress),
            "{}",
            host
        );
    }
    assert_eq!(
        Forward::from_checked(&backend("localhost", 8081, false), false).err(),
        Some(ConfigError::InvalidAddress)
    );
    assert!(Forward::from_checked(&backend("localhost", 8081, false), true).is_ok());
}

#[test]
fn forward_refuses_a_host_that_does_not_stay_whole() {
    // The parser reads these, but with a shorter authority.
    for host in ["a/b", "a?b", "a#b", "example.org/", "/", "host/path?x#y"] {
        assert!(format!("http://{}:1", host).parse::<http::Uri>().is_ok() || host == "/", "{}", host);
        assert!(!check_host(host));
        assert_eq!(
            Forward::new(&backend(host, 8081, false)).err(),
            Some(ConfigError::InvalidAddress),
            "{}",
            host
        );
        assert_eq!(
            Forward::from_checked(&backend(host, 8081, false), true).err(),
            Some(ConfigError::InvalidAddress)
        );
        assert_eq!(
            Forward::from_checked(&backend(host, 0, false), true).err(),
            Some(ConfigError::InvalidPort)
        );
    }
    for host in ["localhost", "example.org", "10.0.0.7", "[::1]", "user@host", "h\u{f4}te", ""] {
        assert!(check_host(host), "{}", host);
    }
}

#[test]
fn every_forwarder_has_host_and_port_for_its_authority() {
    for host in ["localhost", "example.org", "10.0.0.7", "[::1]", "user@host", "a-b.c_d"] {
        for port in [1u16, 80, 8081, 65535] {
            let forward = Forward::new(&backend(host, port, false)).unwrap();
            let uri: http::Uri = forward.address().parse().unwrap();
            assert_eq!(uri.authority().map(|a| a.as_str()), Some(forward.authority()));
            assert_eq!(uri.path(), "/");
            assert_eq!(uri.query(), None);
        }
    }
}

#[test]
fn call_hands_the_backend_what_came_in_but_for_the_target() {
    let forward = Forward::new(&backend("localhost", 8081, false)).unwrap();
    let headers = vec![
        Header { name: "host".to_string(), value: b"proxy.example:8080".to_vec() },
        Header { name: "x-trace".to_string(), value: vec![0, 159, 146, 150] },
    ];
    let body: Vec<u8> = (0..=255).rev().collect();
    let request = Request {
        method: "PUT".to_string(),
        scheme: None,
        authority: Some("proxy.example:8080".to_string()),
        path: "/echo".to_string(),
        query: Some("q=%2F".to_string()),
        headers: headers.clone(),
        body: body.clone(),
    };
    let mut received = Vec::new();
    let echoed: Result<Vec<u8>, String> = forward.call(request, |out| {
        received.push((out.method, out.scheme, out.authority, out.path, out.query, out.headers));
        Ok(out.body)
    });
    assert_eq!(echoed, Ok(body));
    assert_eq!(
        received,
        vec![(
            "PUT".to_string(),
            Some("http".to_string()),
            Some("localhost:8081".to_string()),
            "/echo".to_string(),
            Some("q=%2F".to_string()),
            headers,
        )]
    );
}

#[test]
fn call_hands_a_failure_back_as_it_came() {
    let forward = Forward::new(&backend("localhost", 8081, true)).unwrap();
    let request = Request {
        method: "GET".to_string(),
        scheme: None,
        authority: None,
        path: "/".to_string(),
        query: None,
        headers: Vec::new(),
        body: (),
    };
    let failed: Result<u8, String> =
        forward.call(request, |_| Err("connection refused".to_string()));
    assert_eq!(failed, Err("connection refused".to_string()));
}

#[test]
fn rewrite_replaces_the_target_and_nothing_else() {
    let forward = Forward::new(&backend("localhost", 8081, false)).unwrap();
    let headers = vec![
        Header { name: "host".to_string(), value: b"proxy.example:8080".to_vec() },
        Header { name: "x-trace".to_string(), value: vec![0, 159, 146, 150] },
        Header { name: "accept".to_string(), value: b"*/*".to_vec() },
    ];
    let body: Vec<u8> = (0..=255).collect();
    let request = Request {
        method: "POST".to_string(),
        scheme: Some("https".to_string()),
        authority: Some("proxy.example:8080".to_string()),
        path: "/v1/items/42".to_string(),
        query: Some("a=1&b=%20x".to_string()),
        headers: headers.clone(),
        body: body.clone(),
    };
    let out = forward.rewrite(request);
    assert_eq!(out.scheme.as_deref(), Some("http"));
    assert_eq!(out.authority.as_deref(), Some("localhost:8081"));
    assert_eq!(out.method, "POST");
    assert_eq!(out.path, "/v1/items/42");
    assert_eq!(out.query.as_deref(), Some("a=1&b=%20x"));
    assert_eq!(out.headers, headers);
    assert_eq!(out.body, body);
}

#[test]
fn rewrite_fills_in_a_missing_target() {
    let forward = Forward::new(&backend("10.1.2.3", 9, true)).unwrap();
    let request = Request {
        method: "GET".to_string(),
        scheme: None,
        authority: None,
        path: "/".to_string(),
        query: None,
        headers: Vec::new(),
        body: (),
    };
    let out = forward.rewrite(request);
    assert_eq!(out.scheme.as_deref(), Some("http"));
    assert_eq!(out.authority.as_deref(), Some("10.1.2.3:9"));
    assert_eq!(out.method, "GET");
    assert_eq!(out.path, "/");
    assert_eq!(out.query, None);
    assert!(out.headers.is_empty());
}
