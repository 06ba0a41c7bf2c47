use auth_proxy::auth::{authenticate, ct_eq, presented_token, AuthResult, AuthScheme};
use auth_proxy::config::{header_value_ok, parse_port, ConfigError, ProxyConfig, DEFAULT_PORT};
use auth_proxy::headers::{eq_ignore_case, lists_name_exec, sanitize, Direction, Header};
use auth_proxy::router::{
    classify_failure, finish_forward, route, Decision, InboundRequest, ProxyError, Response,
    UpstreamFailure, UpstreamResponse,
};
use auth_proxy::shutdown::{Phase, ShutdownCoordinator};
use auth_proxy::target::{parse_authority, resolve_target, TargetMode};
use auth_proxy::tunnel::{EndKind, Side, TunnelSession, TunnelState};

fn h(name: &str, value: &str) -> Header {
    Header::new(name.as_bytes().to_vec(), value.as_bytes().to_vec())
}

fn pairs(hs: &[Header]) -> Vec<(String, String)> {
    hs.iter()
        .map(|x| {
            (
                String::from_utf8(x.name.clone()).unwrap(),
                String::from_utf8(x.value.clone()).unwrap(),
            )
        })
        .collect()
}

fn cfg() -> ProxyConfig {
    ProxyConfig::new(7788, b"secret".to_vec(), b"probe/1.0".to_vec()).unwrap()
}

fn req(method: &str, target: &str, headers: Vec<Header>) -> InboundRequest {
    InboundRequest {
        method: method.as_bytes().to_vec(),
        target: target.as_bytes().to_vec(),
        headers,
    }
}

fn basic_ok() -> Header {
    h("Proxy-Authorization", "Basic cHJveHk6c2VjcmV0")
}

fn respond(d: Decision) -> Response {
    match d {
        Decision::Respond(r) => r,
        _ => panic!("expected an immediate response"),
    }
}

#[test]
fn ct_eq_compares_contents() {
    assert!(ct_eq(b"secret", b"secret"));
    assert!(!ct_eq(b"secret", b"secreT"));
    assert!(!ct_eq(b"secret", b"secret2"));
    assert!(!ct_eq(b"", b"x"));
    assert!(ct_eq(b"", b""));
}

#[test]
fn authenticate_matches_exactly() {
    assert_eq!(authenticate(Some(b"secret"), b"secret"), AuthResult::Authorized);
    assert_eq!(authenticate(Some(b"secre"), b"secret"), AuthResult::Unauthorized);
    assert_eq!(authenticate(Some(b"xecret"), b"secret"), AuthResult::Unauthorized);
    assert_eq!(authenticate(Some(b"secretsecret"), b"secret"), AuthResult::Unauthorized);
    assert_eq!(authenticate(Some(b""), b"secret"), AuthResult::Unauthorized);
    assert_eq!(authenticate(None, b"secret"), AuthResult::Unauthorized);
}

#[test]
fn bearer_token_is_read() {
    let hs = vec![h("authorization", "Bearer abc123")];
    assert_eq!(presented_token(AuthScheme::Bearer, &hs), Some(b"abc123".to_vec()));
    let none = vec![h("authorization", "Basic abc123")];
    assert_eq!(presented_token(AuthScheme::Bearer, &none), None);
    assert_eq!(presented_token(AuthScheme::Bearer, &vec![]), None);
}

#[test]
fn basic_password_is_read_for_proxy_user() {
    let hs = vec![basic_ok()];
    assert_eq!(presented_token(AuthScheme::ProxyBasic, &hs), Some(b"secret".to_vec()));
    let other_user = vec![h("proxy-authorization", "Basic YWRtaW46c2VjcmV0")];
    assert_eq!(presented_token(AuthScheme::ProxyBasic, &other_user), None);
    let garbage = vec![h("proxy-authorization", "Basic !!!")];
    assert_eq!(presented_token(AuthScheme::ProxyBasic, &garbage), None);
}

#[test]
fn case_insensitive_names() {
    assert!(eq_ignore_case(b"Content-Type", b"content-type"));
    assert!(!eq_ignore_case(b"Content-Type", b"content-typ"));
}

#[test]
fn connection_lists_are_split_and_trimmed() {
    assert!(lists_name_exec(b"close, X-Foo", b"x-foo"));
    assert!(lists_name_exec(b" x-bar ,keep-alive", b"X-BAR"));
    assert!(!lists_name_exec(b"x-foobar", b"x-foo"));
    assert!(!lists_name_exec(b"", b"x-foo"));
}

#[test]
fn sanitize_outbound_strips_and_sets_agent() {
    let hs = vec![
        h("Host", "example.com"),
        h("Connection", "keep-alive, X-Secret"),
        h("X-Secret", "1"),
        h("Keep-Alive", "timeout=5"),
        h("User-Agent", "curl/8"),
        h("Proxy-Authorization", "Basic abc"),
        h("TE", "trailers"),
        h("Accept", "*/*"),
    ];
    let out = sanitize(Direction::OutboundRequest, &hs, b"probe/1.0");
    assert_eq!(
        pairs(&out),
        vec![
            ("Host".to_string(), "example.com".to_string()),
            ("Accept".to_string(), "*/*".to_string()),
            ("user-agent".to_string(), "probe/1.0".to_string()),
        ]
    );
}

#[test]
fn sanitize_inbound_keeps_agent_and_content_type() {
    let hs = vec![
        h("Content-Type", "text/plain"),
        h("Transfer-Encoding", "chunked"),
        h("Upgrade", "h2c"),
        h("Trailer", "x"),
        h("User-Agent", "server"),
        h("Proxy-Authenticate", "Basic"),
    ];
    let out = sanitize(Direction::InboundResponse, &hs, b"ignored");
    assert_eq!(
        pairs(&out),
        vec![
            ("Content-Type".to_string(), "text/plain".to_string()),
            ("User-Agent".to_string(), "server".to_string()),
        ]
    );
}

#[test]
fn sanitize_twice_is_sanitize_once() {
    let hs = vec![
        h("Connection", "x-a"),
        h("x-a", "1"),
        h("User-Agent", "old"),
        h("Accept", "*/*"),
    ];
    for dir in [Direction::OutboundRequest, Direction::InboundResponse] {
        let once = sanitize(dir, &hs, b"ua");
        let twice = sanitize(dir, &once, b"ua");
        assert_eq!(pairs(&once), pairs(&twice));
    }
}

#[test]
fn authority_parsing() {
    let a = parse_authority(b"example.com:443").unwrap();
    assert_eq!(a.host, b"example.com".to_vec());
    assert_eq!(a.port, 443);
    let v6 = parse_authority(b"[::1]:8080").unwrap();
    assert_eq!(v6.host, b"[::1]".to_vec());
    assert_eq!(v6.port, 8080);
    assert!(parse_authority(b"example.com").is_none());
    assert!(parse_authority(b":443").is_none());
    assert!(parse_authority(b"a:0").is_none());
    assert!(parse_authority(b"a:65536").is_none());
    assert!(parse_authority(b"a:123456").is_none());
    assert!(parse_authority(b"a b:1").is_none());
    assert!(parse_authority(b"a:b:1").is_none());
    assert!(parse_authority(b"a:1x").is_none());
    assert_eq!(parse_authority(b"a:65535").unwrap().port, 65535);
}

#[test]
fn target_resolution() {
    assert_eq!(
        resolve_target(TargetMode::RequestUri, b"http://example.com/x"),
        Some(b"http://example.com/x".to_vec())
    );
    assert_eq!(resolve_target(TargetMode::RequestUri, b"/x"), None);
    assert_eq!(resolve_target(TargetMode::RequestUri, b"http:///x"), None);
    assert_eq!(
        resolve_target(TargetMode::UrlParam, b"/?url=http://example.invalid"),
        Some(b"http://example.invalid".to_vec())
    );
    assert_eq!(
        resolve_target(TargetMode::UrlParam, b"/fetch?a=1&url=HTTPS://x.org/"),
        Some(b"HTTPS://x.org/".to_vec())
    );
    assert_eq!(resolve_target(TargetMode::UrlParam, b"/?url=ftp://x"), None);
    assert_eq!(resolve_target(TargetMode::UrlParam, b"/?u=http://x"), None);
    assert_eq!(resolve_target(TargetMode::UrlParam, b"/"), None);
}

#[test]
fn unauthorized_get_is_401() {
    let r = respond(route(&cfg(), &req("GET", "/", vec![])));
    assert_eq!(r.status, 401);
    assert_eq!(r.body, b"unauthorized".to_vec());
    let wrong = vec![h("Proxy-Authorization", "Basic cHJveHk6d3Jvbmc=")];
    let r = respond(route(&cfg(), &req("GET", "http://example.com/", wrong)));
    assert_eq!(r.status, 401);
}

#[test]
fn unauthorized_connect_is_not_tunnelled() {
    let r = respond(route(&cfg(), &req("CONNECT", "example.com:443", vec![])));
    assert_eq!(r.status, 401);
}

#[test]
fn url_param_unreachable_is_502() {
    let mut c = cfg();
    c.target_mode = TargetMode::UrlParam;
    let d = route(&c, &req("GET", "/?url=http://example.invalid", vec![basic_ok()]));
    match d {
        Decision::Forward(o) => assert_eq!(o.url, b"http://example.invalid".to_vec()),
        _ => panic!("expected a forward"),
    }
    let r = finish_forward(&c, Err(UpstreamFailure::Dns));
    assert_eq!(r.status, 502);
    assert_eq!(r.body, b"bad gateway".to_vec());
    assert!(r.headers.is_empty());
}

#[test]
fn every_unreachable_kind_is_502() {
    for f in [
        UpstreamFailure::Connect,
        UpstreamFailure::Dns,
        UpstreamFailure::Tls,
        UpstreamFailure::Timeout,
    ] {
        assert_eq!(classify_failure(f), ProxyError::UpstreamUnreachable);
        assert_eq!(finish_forward(&cfg(), Err(f)).status, 502);
    }
    let r = finish_forward(&cfg(), Err(UpstreamFailure::Other));
    assert_eq!(r.status, 500);
    assert_eq!(r.body, b"internal error".to_vec());
}

#[test]
fn connect_is_tunnelled_and_relays_verbatim() {
    let d = route(&cfg(), &req("CONNECT", "example.com:443", vec![basic_ok()]));
    match d {
        Decision::Tunnel(a) => {
            assert_eq!(a.host, b"example.com".to_vec());
            assert_eq!(a.port, 443);
        }
        _ => panic!("expected a tunnel"),
    }
    let mut s = TunnelSession::new();
    let a = s.handshake(b"127.0.0.1:9").unwrap();
    assert_eq!(a.port, 9);
    assert_eq!(s.state, TunnelState::Accepted);
    s.dialed(true);
    assert_eq!(s.state, TunnelState::Relaying);
    let out = s.relay(Side::Client, b"hello target".to_vec());
    assert_eq!(out, b"hello target".to_vec());
    assert_eq!(s.bytes_upstream, 12);
    assert_eq!(s.bytes_downstream, 0);
}

#[test]
fn connect_bad_target_is_400() {
    let r = respond(route(&cfg(), &req("CONNECT", "example.com", vec![basic_ok()])));
    assert_eq!(r.status, 400);
    assert_eq!(r.body, b"bad target".to_vec());
    let mut s = TunnelSession::new();
    assert!(matches!(s.handshake(b"nohost"), Err(ProxyError::BadTarget)));
    assert_eq!(s.state, TunnelState::Closed);
}

#[test]
fn connect_disabled_or_bad_method_is_404() {
    let mut c = cfg();
    c.tunnel_enabled = false;
    let r = respond(route(&c, &req("CONNECT", "example.com:443", vec![basic_ok()])));
    assert_eq!(r.status, 404);
    let r = respond(route(&cfg(), &req("get", "http://example.com/", vec![basic_ok()])));
    assert_eq!(r.status, 404);
}

#[test]
fn plain_forward_strips_credential_and_sets_agent() {
    let mut c = cfg();
    c.auth_scheme = AuthScheme::Bearer;
    let hs = vec![
        h("Authorization", "Bearer secret"),
        h("User-Agent", "curl/8"),
        h("Accept", "*/*"),
    ];
    match route(&c, &req("POST", "https://example.com/api", hs)) {
        Decision::Forward(o) => {
            assert_eq!(o.method, b"POST".to_vec());
            assert_eq!(o.url, b"https://example.com/api".to_vec());
            assert_eq!(
                pairs(&o.headers),
                vec![
                    ("Accept".to_string(), "*/*".to_string()),
                    ("user-agent".to_string(), "probe/1.0".to_string()),
                ]
            );
        }
        _ => panic!("expected a forward"),
    }
    let r = respond(route(&c, &req("GET", "/relative", vec![h("Authorization", "Bearer secret")])));
    assert_eq!(r.status, 400);
}

#[test]
fn upstream_204_is_relayed_empty() {
    let up = UpstreamResponse { status: 204, headers: vec![], body: vec![] };
    let r = finish_forward(&cfg(), Ok(up));
    assert_eq!(r.status, 204);
    assert!(r.body.is_empty());
    assert!(r.headers.is_empty());
}

#[test]
fn upstream_status_and_safe_headers_are_kept() {
    let up = UpstreamResponse {
        status: 418,
        headers: vec![h("Content-Type", "text/plain"), h("Connection", "close")],
        body: b"teapot".to_vec(),
    };
    let r = finish_forward(&cfg(), Ok(up));
    assert_eq!(r.status, 418);
    assert_eq!(r.body, b"teapot".to_vec());
    assert_eq!(pairs(&r.headers), vec![("Content-Type".to_string(), "text/plain".to_string())]);
}

#[test]
fn oversized_body_is_an_error() {
    let mut c = cfg();
    c.body_limit_bytes = 4;
    let up = UpstreamResponse { status: 200, headers: vec![], body: b"12345".to_vec() };
    let r = finish_forward(&c, Ok(up));
    assert_eq!(r.status, 502);
    assert_eq!(r.body, b"body too large".to_vec());
    let up = UpstreamResponse { status: 200, headers: vec![], body: b"1234".to_vec() };
    assert_eq!(finish_forward(&c, Ok(up)).status, 200);
}

#[test]
fn error_statuses() {
    assert_eq!(ProxyError::Unauthorized.status(), 401);
    assert_eq!(ProxyError::BadTarget.status(), 400);
    assert_eq!(ProxyError::UpstreamUnreachable.status(), 502);
    assert_eq!(ProxyError::InternalFault.status(), 500);
    assert_eq!(ProxyError::NotFound.status(), 404);
}

#[test]
fn relay_of_64k_each_way_is_faithful() {
    let mut s = TunnelSession::new();
    s.handshake(b"localhost:8443").unwrap();
    s.dialed(true);
    let up: Vec<u8> = (0..65536u32).map(|i| (i * 7 % 251) as u8).collect();
    let down: Vec<u8> = (0..65536u32).map(|i| (i * 13 % 253) as u8).collect();
    let mut to_upstream = Vec::new();
    let mut to_client = Vec::new();
    for (a, b) in up.chunks(1000).zip(down.chunks(1500).chain(std::iter::repeat(&[][..]))) {
        to_upstream.extend(s.relay(Side::Client, a.to_vec()));
        to_client.extend(s.relay(Side::Upstream, b.to_vec()));
    }
    for b in down.chunks(1500).skip(up.chunks(1000).count()) {
        to_client.extend(s.relay(Side::Upstream, b.to_vec()));
    }
    assert_eq!(to_upstream, up);
    assert_eq!(to_client, down);
    assert_eq!(s.bytes_upstream, 65536);
    assert_eq!(s.bytes_downstream, 65536);
    assert!(!s.end(EndKind::Eof));
    assert_eq!(s.state, TunnelState::Closed);
}

#[test]
fn tunnel_dial_failure_closes() {
    let mut s = TunnelSession::new();
    s.handshake(b"example.com:443").unwrap();
    s.dialed(false);
    assert_eq!(s.state, TunnelState::Closed);
}

#[test]
fn tunnel_end_kinds() {
    for (k, logged) in [
        (EndKind::Eof, false),
        (EndKind::Reset, false),
        (EndKind::BrokenPipe, false),
        (EndKind::Other, true),
    ] {
        let mut s = TunnelSession::new();
        assert_eq!(s.end(k), logged);
        assert_eq!(s.state, TunnelState::Closed);
    }
}

#[test]
fn shutdown_refuses_new_and_closes_after_grace() {
    let mut c = ShutdownCoordinator::new(30);
    assert!(c.try_accept());
    assert!(c.try_accept());
    assert_eq!(c.in_flight, 2);
    c.signal(100);
    assert_eq!(c.phase, Phase::Draining);
    assert!(!c.try_accept());
    assert_eq!(c.in_flight, 2);
    c.signal(110);
    assert_eq!(c.deadline, 130);
    assert!(!c.tick(129));
    c.finished();
    assert_eq!(c.phase, Phase::Draining);
    assert!(c.tick(130));
    assert!(c.is_done());
    assert!(!c.try_accept());
}

#[test]
fn shutdown_finishes_when_sessions_drain() {
    let mut c = ShutdownCoordinator::new(30);
    assert!(c.try_accept());
    c.signal(0);
    c.finished();
    assert!(c.is_done());
    let mut idle = ShutdownCoordinator::new(30);
    idle.signal(5);
    assert!(idle.is_done());
}

#[test]
fn config_needs_a_token() {
    assert!(matches!(
        ProxyConfig::new(1, vec![], vec![]),
        Err(ConfigError::MissingToken)
    ));
    assert!(matches!(
        ProxyConfig::new(1, b"t".to_vec(), b"bad\nagent".to_vec()),
        Err(ConfigError::BadUserAgent)
    ));
    assert!(matches!(
        ProxyConfig::new(1, vec![], b"bad\nagent".to_vec()),
        Err(ConfigError::MissingToken)
    ));
    assert!(ProxyConfig::new(1, b"t".to_vec(), b"tab\tok \xc3\xa9".to_vec()).is_ok());
    assert!(ProxyConfig::new(1, b"t".to_vec(), vec![127]).is_err());
    let c = cfg();
    assert_eq!(c.listen_port, 7788);
    assert_eq!(c.body_limit_bytes, 2 * 1024 * 1024);
    assert_eq!(c.shutdown_grace_secs, 30);
    assert_eq!(c.redirect_limit, 3);
}

#[test]
fn port_parsing() {
    assert_eq!(parse_port(None), Ok(DEFAULT_PORT));
    assert_eq!(parse_port(Some(b"8080")), Ok(8080));
    assert_eq!(parse_port(Some(b"0")), Err(ConfigError::BadPort));
    assert_eq!(parse_port(Some(b"65536")), Err(ConfigError::BadPort));
    assert_eq!(parse_port(Some(b"80a")), Err(ConfigError::BadPort));
    assert_eq!(parse_port(Some(b"")), Err(ConfigError::BadPort));
}

#[test]
fn config_valid_inputs_succeed() {
    let c = ProxyConfig::new(8080, b"tok".to_vec(), b"agent/2 (x; y)".to_vec()).unwrap();
    assert_eq!(c.listen_port, 8080);
    assert_eq!(c.auth_token, b"tok".to_vec());
    assert_eq!(c.user_agent, b"agent/2 (x; y)".to_vec());
    assert!(c.tunnel_enabled);
    assert!(ProxyConfig::new(1, b"t".to_vec(), vec![]).is_ok());
}

#[test]
fn header_value_bytes() {
    assert!(header_value_ok(b"Mozilla/5.0 (X11)"));
    assert!(header_value_ok(b"a\tb"));
    assert!(header_value_ok(&[200, 255]));
    assert!(!header_value_ok(b"a\rb"));
    assert!(!header_value_ok(&[127]));
    assert!(!header_value_ok(&[31]));
}

#[test]
fn dial_host_drops_ipv6_brackets() {
    assert_eq!(parse_authority(b"[::1]:443").unwrap().dial_host(), b"::1".to_vec());
    assert_eq!(
        parse_authority(b"example.com:443").unwrap().dial_host(),
        b"example.com".to_vec()
    );
}

#[test]
fn bearer_edge_cases() {
    let tok = |v: &str| presented_token(AuthScheme::Bearer, &vec![h("Authorization", v)]);
    assert_eq!(tok("bearer   abc"), Some(b"abc".to_vec()));
    assert_eq!(tok("BEARER:a b"), Some(b"a b".to_vec()));
    assert_eq!(tok("Bearer "), None);
    assert_eq!(tok("Bearer    "), None);
    assert_eq!(tok("Bearer a\u{7f}"), None);
    assert_eq!(tok("Bearer caf\u{e9}"), None);
    assert_eq!(tok("Bearerx"), None);
}

#[test]
fn forwarded_headers_are_already_sanitized() {
    let hs = vec![
        basic_ok(),
        h("Connection", "x-hop"),
        h("x-hop", "1"),
        h("User-Agent", "curl/8"),
        h("Accept", "*/*"),
    ];
    match route(&cfg(), &req("GET", "http://example.com/", hs)) {
        Decision::Forward(o) => {
            let again = sanitize(Direction::OutboundRequest, &o.headers, b"probe/1.0");
            assert_eq!(pairs(&again), pairs(&o.headers));
            assert_eq!(
                pairs(&o.headers),
                vec![
                    ("Accept".to_string(), "*/*".to_string()),
                    ("user-agent".to_string(), "probe/1.0".to_string()),
                ]
            );
        }
        _ => panic!("expected a forward"),
    }
}
