use load_balancer::algorithm::algorithm::{list_alive, RequestInfo, Strategy};
use load_balancer::algorithm::source_ip_hash::SourceIpHash;
use load_balancer::config::{
    BackendConfig, Config, HealthCheckConfig, PersistenceType, ServerStatus, StrategyMapping,
};
use load_balancer::cookie::Cookie;
use load_balancer::error::no_backend_response;
use load_balancer::request::User;
use load_balancer::init_strategy;

fn backend(port: &str) -> BackendConfig {
    BackendConfig {
        ip: "127.0.0.1".to_string(),
        port: port.to_string(),
        path: "".to_string(),
        scheme: "http".to_string(),
        status: ServerStatus::Alive,
        num_connections: 0,
    }
}

fn config_with(strategy: &str, backends: Vec<(&str, BackendConfig)>) -> Config {
    Config {
        ip: "127.0.0.1".to_string(),
        port: "8080".to_string(),
        strategy: strategy.to_string(),
        persistence_type: PersistenceType::Disabled,
        replicas: 0,
        backends: backends.into_iter().map(|(n, b)| (n.to_string(), b)).collect(),
        mappings: Vec::new(),
        health_check: HealthCheckConfig::default(),
    }
}

fn plain_request(path: &str) -> RequestInfo {
    RequestInfo::new(
        path.to_string(),
        "".to_string(),
        "10.0.0.9".to_string(),
        "proxy.local".to_string(),
        Vec::new(),
    )
}

#[test]
fn test_round_robin_cycles_in_registry_order() {
    let config = config_with(
        "RoundRobin",
        vec![("A", backend("9001")), ("B", backend("9002")), ("C", backend("9003"))],
    );
    let mut s = init_strategy(&config).expect("known strategy");
    let req = plain_request("/p");
    let probes = Vec::new();
    let expected = ["9001", "9002", "9003", "9001", "9002", "9003"];
    for port in expected.iter() {
        let b = s.server(&req, &probes).expect("an alive backend exists");
        assert_eq!(&b.port, port);
    }
}

#[test]
fn test_round_robin_skips_dead_backend() {
    let config = config_with(
        "RoundRobin",
        vec![("A", backend("9001")), ("B", backend("9002")), ("C", backend("9003"))],
    );
    let mut s = init_strategy(&config).unwrap();
    s.set_status("127.0.0.1", "9002", ServerStatus::Dead);
    let req = plain_request("/p");
    let probes = Vec::new();
    let expected = ["9001", "9003", "9001", "9003"];
    for port in expected.iter() {
        let b = s.server(&req, &probes).unwrap();
        assert_eq!(&b.port, port);
    }
}

#[test]
fn test_no_alive_backend_yields_none_and_503() {
    let config = config_with("RoundRobin", vec![("A", backend("9001")), ("B", backend("9002"))]);
    let mut s = init_strategy(&config).unwrap();
    s.set_status("127.0.0.1", "9001", ServerStatus::Dead);
    s.set_status("127.0.0.1", "9002", ServerStatus::Dead);
    let req = plain_request("/p");
    assert!(s.server(&req, &Vec::new()).is_none());
    let (code, body) = no_backend_response();
    assert_eq!(code, 503);
    assert_eq!(body, "no backend available");
}

#[test]
fn test_uri_path_hash_exact_match_only() {
    let mut config = config_with(
        "UriPathHash",
        vec![("A", backend("9001")), ("B", backend("9002"))],
    );
    config.mappings = vec![
        ("A".to_string(), StrategyMapping { path: "/api".to_string() }),
        ("B".to_string(), StrategyMapping { path: "/static".to_string() }),
    ];
    let mut s = init_strategy(&config).unwrap();
    let probes = Vec::new();
    assert!(s.server(&plain_request("/api/x"), &probes).is_none());
    assert_eq!(s.server(&plain_request("/api"), &probes).unwrap().port, "9001");
    assert_eq!(s.server(&plain_request("/static"), &probes).unwrap().port, "9002");
    assert!(s.server(&plain_request("/other"), &probes).is_none());
}

#[test]
fn test_uri_path_hash_unknown_mapping_name_dropped() {
    let mut config = config_with("UriPathHash", vec![("A", backend("9001"))]);
    config.mappings = vec![
        ("A".to_string(), StrategyMapping { path: "/api".to_string() }),
        ("ghost".to_string(), StrategyMapping { path: "/gone".to_string() }),
    ];
    let mut s = init_strategy(&config).unwrap();
    assert_eq!(s.server(&plain_request("/api"), &Vec::new()).unwrap().port, "9001");
    assert!(s.server(&plain_request("/gone"), &Vec::new()).is_none());
}

#[test]
fn test_uri_path_hash_dead_backend_not_returned() {
    let mut config = config_with("UriPathHash", vec![("A", backend("9001"))]);
    config.mappings = vec![("A".to_string(), StrategyMapping { path: "/api".to_string() })];
    let mut s = init_strategy(&config).unwrap();
    assert!(s.server(&plain_request("/api"), &Vec::new()).is_some());
    s.set_status("127.0.0.1", "9001", ServerStatus::Dead);
    assert!(s.server(&plain_request("/api"), &Vec::new()).is_none());
}

#[test]
fn test_source_ip_hash_strategy_maps_client_host() {
    let mut config = config_with(
        "SourceIPHash",
        vec![("A", backend("9001")), ("B", backend("9002"))],
    );
    config.mappings = vec![
        ("A".to_string(), StrategyMapping { path: "10.0.0.1".to_string() }),
        ("B".to_string(), StrategyMapping { path: "10.0.0.2".to_string() }),
    ];
    let mut s = init_strategy(&config).unwrap();
    let probes = Vec::new();
    let by_uri_host = RequestInfo::new(
        "/p".to_string(),
        "10.0.0.2".to_string(),
        "10.0.0.1".to_string(),
        "proxy.local".to_string(),
        Vec::new(),
    );
    assert_eq!(s.server(&by_uri_host, &probes).unwrap().port, "9002");
    let by_remote_ip = RequestInfo::new(
        "/p".to_string(),
        "".to_string(),
        "10.0.0.1".to_string(),
        "proxy.local".to_string(),
        Vec::new(),
    );
    assert_eq!(s.server(&by_remote_ip, &probes).unwrap().port, "9001");
    let unknown = RequestInfo::new(
        "/p".to_string(),
        "".to_string(),
        "10.9.9.9".to_string(),
        "proxy.local".to_string(),
        Vec::new(),
    );
    assert!(s.server(&unknown, &probes).is_none());
}

#[test]
fn test_random_returns_alive_backend() {
    let config = config_with(
        "Random",
        vec![("A", backend("9001")), ("B", backend("9002")), ("C", backend("9003"))],
    );
    let mut s = init_strategy(&config).unwrap();
    s.set_status("127.0.0.1", "9001", ServerStatus::Dead);
    s.set_status("127.0.0.1", "9003", ServerStatus::Dead);
    let req = plain_request("/p");
    for _ in 0..20 {
        let b = s.server(&req, &Vec::new()).expect("one backend is alive");
        assert_eq!(b.port, "9002");
        assert!(matches!(b.status, ServerStatus::Alive));
    }
}

#[test]
fn test_random_none_when_all_dead() {
    let config = config_with("Random", vec![("A", backend("9001"))]);
    let mut s = init_strategy(&config).unwrap();
    s.set_status("127.0.0.1", "9001", ServerStatus::Dead);
    assert!(s.server(&plain_request("/p"), &Vec::new()).is_none());
}

#[test]
fn test_least_latency_prefers_fastest_probe() {
    let config = config_with(
        "LeastLatency",
        vec![("A", backend("9001")), ("B", backend("9002"))],
    );
    let mut s = init_strategy(&config).unwrap();
    assert_eq!(s.probe_count(), 2);
    let req = plain_request("/p");
    let fast_a = vec![Some(1_000u64), Some(50_000u64)];
    for _ in 0..10 {
        assert_eq!(s.server(&req, &fast_a).unwrap().port, "9001");
    }
    let a_refuses = vec![None, Some(50_000u64)];
    assert_eq!(s.server(&req, &a_refuses).unwrap().port, "9002");
    let nobody = vec![None, None];
    assert!(s.server(&req, &nobody).is_none());
}

#[test]
fn test_least_latency_stable_tie_break() {
    let config = config_with(
        "LeastLatency",
        vec![("A", backend("9001")), ("B", backend("9002"))],
    );
    let mut s = init_strategy(&config).unwrap();
    let req = plain_request("/p");
    let tied = vec![Some(7u64), Some(7u64)];
    assert_eq!(s.server(&req, &tied).unwrap().port, "9001");
}

#[test]
fn test_unimplemented_strategies_select_nothing() {
    for name in ["WeightedRoundRobin", "LeastConnections", "WeightedLeastConnections", "LeastTraffic"] {
        let config = config_with(name, vec![("A", backend("9001"))]);
        let mut s = init_strategy(&config).expect("declared strategy");
        assert!(s.server(&plain_request("/p"), &Vec::new()).is_none());
    }
}

#[test]
fn test_implemented_flags() {
    assert!(Strategy::from_name("RoundRobin").unwrap().implemented());
    assert!(Strategy::from_name("Random").unwrap().implemented());
    assert!(Strategy::from_name("UriPathHash").unwrap().implemented());
    assert!(Strategy::from_name("SourceIPHash").unwrap().implemented());
    assert!(Strategy::from_name("LeastLatency").unwrap().implemented());
    assert!(!Strategy::from_name("WeightedRoundRobin").unwrap().implemented());
    assert!(!Strategy::from_name("LeastConnections").unwrap().implemented());
    assert!(!Strategy::from_name("WeightedLeastConnections").unwrap().implemented());
    assert!(!Strategy::from_name("LeastTraffic").unwrap().implemented());
}

#[test]
fn test_unknown_strategy_is_refused() {
    let config = config_with("FastestFirst", vec![("A", backend("9001"))]);
    assert!(init_strategy(&config).is_none());
    assert!(Strategy::from_name("roundrobin").is_none());
    assert!(Strategy::from_name("").is_none());
}

#[test]
fn test_source_ip_hash_cycles_indices() {
    let mut s = SourceIpHash { current_server: 0, len: 3 };
    assert_eq!(s.server(), 0);
    assert_eq!(s.server(), 1);
    assert_eq!(s.server(), 2);
    assert_eq!(s.server(), 0);
}

#[test]
fn test_round_robin_window_counts_balanced() {
    let config = config_with(
        "RoundRobin",
        vec![("A", backend("9001")), ("B", backend("9002")), ("C", backend("9003"))],
    );
    let mut s = init_strategy(&config).unwrap();
    let req = plain_request("/p");
    // Over a window of 7 requests against 3 alive backends, each backend
    // is selected either 2 or 3 times.
    let mut counts = [0usize; 3];
    for _ in 0..7 {
        let b = s.server(&req, &Vec::new()).unwrap();
        match b.port.as_str() {
            "9001" => counts[0] += 1,
            "9002" => counts[1] += 1,
            "9003" => counts[2] += 1,
            other => panic!("unexpected backend {other}"),
        }
    }
    assert_eq!(counts, [3, 2, 2]);
}

#[test]
fn test_list_alive_keeps_registry_order() {
    let a = backend("9001");
    let mut b = backend("9002");
    b.status = ServerStatus::Dead;
    let c = backend("9003");
    let alive = list_alive(&vec![a, b, c]);
    let ports: Vec<&str> = alive.iter().map(|s| s.port.as_str()).collect();
    assert_eq!(ports, vec!["9001", "9003"]);
}

#[test]
fn test_set_cookie_appends_synthesised_id() {
    let mut headers: Vec<String> = Vec::new();
    Cookie::set_cookie(&mut headers, "1.1.1.1".to_string(), "h.example".to_string(), "session");
    let id = User::generate_unique_id("1.1.1.1".to_string(), "h.example".to_string());
    assert_eq!(headers, vec![format!("session={id}; Max-Age=30; HttpOnly")]);
}

#[test]
fn test_probe_count_zero_for_non_latency() {
    let config = config_with("RoundRobin", vec![("A", backend("9001"))]);
    let s = init_strategy(&config).unwrap();
    assert_eq!(s.probe_count(), 0);
}
