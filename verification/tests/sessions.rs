use load_balancer::algorithm::algorithm::RequestInfo;
use load_balancer::config::{
    BackendConfig, Config, HealthCheckConfig, PersistenceType, ServerStatus,
};
use load_balancer::cookie::Cookie;
use load_balancer::init_strategy;
use load_balancer::error::{
    bad_gateway_response, internal_error_response, CookieError, ServerMappingError,
};
use load_balancer::error::no_backend_response;
use load_balancer::text::u64_to_decimal;
use load_balancer::request::{
    forwarded_header, get_server, install_session_cookie, resolve_with, rewrite_uri,
    session_id_of, SessionMap, User,
};

fn backend(port: &str) -> BackendConfig {
    BackendConfig {
        ip: "127.0.0.1".to_string(),
        port: port.to_string(),
        path: "".to_string(),
        scheme: "http".to_string(),
        status: ServerStatus::Alive,
        num_connections: 0,
    }
}

fn rr_config() -> Config {
    Config {
        ip: "127.0.0.1".to_string(),
        port: "8080".to_string(),
        strategy: "RoundRobin".to_string(),
        persistence_type: PersistenceType::Cookie,
        replicas: 0,
        backends: vec![
            ("A".to_string(), backend("9001")),
            ("B".to_string(), backend("9002")),
            ("C".to_string(), backend("9003")),
        ],
        mappings: Vec::new(),
        health_check: HealthCheckConfig::default(),
    }
}

fn request_from(remote: &str, cookies: Vec<String>) -> RequestInfo {
    RequestInfo::new(
        "/".to_string(),
        "".to_string(),
        remote.to_string(),
        "proxy.local".to_string(),
        cookies,
    )
}

#[test]
fn test_cookie_affinity_pins_session() {
    let mut s = init_strategy(&rr_config()).unwrap();
    let mut map = SessionMap::new();
    let probes = Vec::new();

    // Client 1, no cookie: an id is synthesised and round-robin picks A.
    let req1 = request_from("1.1.1.1:50000", Vec::new());
    let id1 = session_id_of(&req1, PersistenceType::Cookie).unwrap();
    let first = get_server(&mut s, &mut map, &req1, &id1, &probes).unwrap();
    assert_eq!(first.port, "9001");

    // The response gets Set-Cookie: session=<id1>.
    let mut set_cookies: Vec<String> = Vec::new();
    install_session_cookie(&mut set_cookies, &id1);
    assert_eq!(set_cookies.len(), 1);
    assert_eq!(set_cookies[0], format!("session={}; Max-Age=30; HttpOnly", id1));

    // Client 1 replays the cookie four times: always A.
    for _ in 0..4 {
        let replay = request_from("1.1.1.1:50000", vec![format!("session={}", id1)]);
        let rid = session_id_of(&replay, PersistenceType::Cookie).unwrap();
        assert_eq!(rid, id1);
        let again = get_server(&mut s, &mut map, &replay, &rid, &probes).unwrap();
        assert_eq!(again.port, "9001");
    }

    // Client 2, no cookie: a different id, and the next backend in turn.
    let req2 = request_from("2.2.2.2:50001", Vec::new());
    let id2 = session_id_of(&req2, PersistenceType::Cookie).unwrap();
    assert_ne!(id2, id1);
    let second = get_server(&mut s, &mut map, &req2, &id2, &probes).unwrap();
    assert_eq!(second.port, "9002");
}

#[test]
fn test_affinity_survives_dead_backend() {
    let mut s = init_strategy(&rr_config()).unwrap();
    let mut map = SessionMap::new();
    let req = request_from("1.1.1.1:50000", Vec::new());
    let id = session_id_of(&req, PersistenceType::Cookie).unwrap();
    let first = get_server(&mut s, &mut map, &req, &id, &Vec::new()).unwrap();
    s.set_status(&first.ip, &first.port, ServerStatus::Dead);
    let again = get_server(&mut s, &mut map, &req, &id, &Vec::new()).unwrap();
    assert_eq!(again.port, first.port);
}

#[test]
fn test_session_id_of_policies() {
    let req = request_from("9.9.9.9:1234", vec!["session=abc123".to_string()]);
    assert_eq!(session_id_of(&req, PersistenceType::Cookie).unwrap(), "abc123");
    assert_eq!(session_id_of(&req, PersistenceType::IP).unwrap(), "9.9.9.9:1234");
    assert!(session_id_of(&req, PersistenceType::Disabled).is_none());

    let bare = request_from("9.9.9.9:1234", Vec::new());
    let synth = session_id_of(&bare, PersistenceType::Cookie).unwrap();
    assert!(!synth.is_empty());
    assert!(synth.chars().all(|c| c.is_ascii_digit()));
}

#[test]
fn test_generate_unique_id_deterministic() {
    let a = User::generate_unique_id("1.1.1.1".to_string(), "h.example".to_string());
    let b = User::generate_unique_id("1.1.1.1".to_string(), "h.example".to_string());
    let c = User::generate_unique_id("1.1.1.2".to_string(), "h.example".to_string());
    let d = User::generate_unique_id("h.example".to_string(), "1.1.1.1".to_string());
    assert_eq!(a, b);
    assert_ne!(a, c);
    assert_ne!(a, d);
    assert!(a.chars().all(|c| c.is_ascii_digit()));
}

#[test]
fn test_has_cookie_first_pair_semantics() {
    let headers = vec!["session=abc".to_string()];
    assert!(Cookie::has_cookie(&headers, "session"));
    let second_pair = vec!["a=1; session=abc".to_string()];
    assert!(!Cookie::has_cookie(&second_pair, "session"));
    let empty: Vec<String> = Vec::new();
    assert!(!Cookie::has_cookie(&empty, "session"));
    assert!(!Cookie::has_cookie(&vec!["sessionx=1".to_string()], "session"));
    assert!(!Cookie::has_cookie(&vec!["session".to_string()], "session"));
}

#[test]
fn test_parse_cookie_value_stops_at_semicolon() {
    let headers = vec![
        "other=1".to_string(),
        "session=xyz; Max-Age=30; HttpOnly".to_string(),
        "session=later".to_string(),
    ];
    assert_eq!(Cookie::parse_cookie_value(&headers, "session").unwrap(), "xyz");
    assert_eq!(Cookie::parse_cookie_value(&headers, "other").unwrap(), "1");
    assert!(Cookie::parse_cookie_value(&headers, "absent").is_none());
}

#[test]
fn test_install_session_cookie_is_idempotent() {
    let mut headers: Vec<String> = Vec::new();
    install_session_cookie(&mut headers, "42");
    assert_eq!(headers, vec!["session=42; Max-Age=30; HttpOnly".to_string()]);
    install_session_cookie(&mut headers, "42");
    install_session_cookie(&mut headers, "43");
    assert_eq!(headers, vec!["session=42; Max-Age=30; HttpOnly".to_string()]);
}

#[test]
fn test_upstream_session_cookie_passes_through() {
    let mut headers = vec!["session=upstream".to_string(), "theme=dark".to_string()];
    install_session_cookie(&mut headers, "42");
    assert_eq!(headers, vec!["session=upstream".to_string(), "theme=dark".to_string()]);
}

#[test]
fn test_resolve_with_prefers_cache() {
    let mut map = SessionMap::new();
    let offered = backend("9002");
    let r = resolve_with(&mut map, "sid", Some(offered.clone())).unwrap();
    assert_eq!(r.port, "9002");
    // A later resolution with another offer still returns the binding.
    let other = backend("9003");
    let r2 = resolve_with(&mut map, "sid", Some(other)).unwrap();
    assert_eq!(r2.port, "9002");
    // No binding and no offer resolves to nothing.
    assert!(resolve_with(&mut map, "fresh", None).is_none());
    assert!(map.lookup("fresh").is_none());
    assert_eq!(map.lookup("sid").unwrap().port, "9002");
}

#[test]
fn test_rewrite_uri_keeps_query_on_prefix() {
    let mut b = backend("9001");
    b.path = "/backend".to_string();
    assert_eq!(rewrite_uri(&b, "/backend/x", "a=1"), "http://127.0.0.1:9001/backend?a=1");
    assert_eq!(rewrite_uri(&b, "/other", "a=1"), "http://127.0.0.1:9001/backend");
    assert_eq!(rewrite_uri(&b, "/backend", ""), "http://127.0.0.1:9001/backend");
}

#[test]
fn test_forwarded_header_carries_client_ip() {
    let (name, value) = forwarded_header("203.0.113.7");
    assert_eq!(name, "Forwarded");
    assert_eq!(value, "203.0.113.7");
}

#[test]
fn test_error_responses() {
    assert_eq!(no_backend_response(), (503, "no backend available".to_string()));
    assert_eq!(bad_gateway_response(), (502, "upstream unavailable".to_string()));
    assert_eq!(internal_error_response(), (500, "internal proxy error".to_string()));
    let e = ServerMappingError::from(CookieError);
    assert_eq!(e.message(), "Request didn't contain any cookies.");
}

#[test]
fn test_u64_decimal_rendering() {
    assert_eq!(u64_to_decimal(0), "0");
    assert_eq!(u64_to_decimal(7), "7");
    assert_eq!(u64_to_decimal(1234567890), "1234567890");
    assert_eq!(u64_to_decimal(u64::MAX), "18446744073709551615");
}

#[test]
fn test_parse_cookies_uses_raw_header_as_key() {
    let mut s = init_strategy(&rr_config()).unwrap();
    let mut map = SessionMap::new();
    let probes = Vec::new();
    let req = request_from("1.1.1.1:50000", vec!["session=abc".to_string()]);
    let first = Cookie::parse_cookies(&req, &mut s, &mut map, &probes).unwrap();
    assert_eq!(first.port, "9001");
    let again = Cookie::parse_cookies(&req, &mut s, &mut map, &probes).unwrap();
    assert_eq!(again.port, "9001");
    // Without cookies, the strategy keeps rotating and nothing is cached.
    let bare = request_from("1.1.1.1:50000", Vec::new());
    let b1 = Cookie::parse_cookies(&bare, &mut s, &mut map, &probes).unwrap();
    let b2 = Cookie::parse_cookies(&bare, &mut s, &mut map, &probes).unwrap();
    assert_ne!(b1.port, b2.port);
}
