use load_balancer::algorithm::algorithm::RequestInfo;
use load_balancer::config::{
    BackendConfig, Config, HealthCheckConfig, PersistenceType, ServerStatus,
};
use load_balancer::health_check::HealthMonitor;
use load_balancer::init_strategy;

fn hc(healthy: usize, unhealthy: usize) -> HealthCheckConfig {
    HealthCheckConfig { timeout: 1, interval: 1, healthy_threshold: healthy, unhealthy_threshold: unhealthy }
}

fn backend(port: &str) -> BackendConfig {
    BackendConfig {
        ip: "127.0.0.1".to_string(),
        port: port.to_string(),
        path: "".to_string(),
        scheme: "http".to_string(),
        status: ServerStatus::Alive,
        num_connections: 0,
    }
}

#[test]
fn test_monitor_dead_after_unhealthy_threshold() {
    let mut m = HealthMonitor::new(&hc(2, 3));
    assert!(matches!(m.observe(false), ServerStatus::Alive));
    assert!(matches!(m.observe(false), ServerStatus::Alive));
    assert!(matches!(m.observe(false), ServerStatus::Dead));
}

#[test]
fn test_monitor_success_resets_failure_streak() {
    let mut m = HealthMonitor::new(&hc(2, 3));
    assert!(matches!(m.observe(false), ServerStatus::Alive));
    assert!(matches!(m.observe(false), ServerStatus::Alive));
    assert!(matches!(m.observe(true), ServerStatus::Alive));
    // The streak starts over: two more failures are not yet enough.
    assert!(matches!(m.observe(false), ServerStatus::Alive));
    assert!(matches!(m.observe(false), ServerStatus::Alive));
    assert!(matches!(m.observe(false), ServerStatus::Dead));
}

#[test]
fn test_monitor_alive_after_healthy_threshold() {
    let mut m = HealthMonitor::new(&hc(2, 1));
    assert!(matches!(m.observe(false), ServerStatus::Dead));
    assert!(matches!(m.observe(true), ServerStatus::Dead));
    assert!(matches!(m.observe(true), ServerStatus::Alive));
}

#[test]
fn test_monitor_failure_resets_success_streak() {
    let mut m = HealthMonitor::new(&hc(3, 1));
    assert!(matches!(m.observe(false), ServerStatus::Dead));
    assert!(matches!(m.observe(true), ServerStatus::Dead));
    assert!(matches!(m.observe(true), ServerStatus::Dead));
    assert!(matches!(m.observe(false), ServerStatus::Dead));
    assert!(matches!(m.observe(true), ServerStatus::Dead));
    assert!(matches!(m.observe(true), ServerStatus::Dead));
    assert!(matches!(m.observe(true), ServerStatus::Alive));
}

#[test]
fn test_monitor_zero_thresholds_mean_one() {
    let mut m = HealthMonitor::new(&hc(0, 0));
    assert_eq!(m.healthy_threshold, 1);
    assert_eq!(m.unhealthy_threshold, 1);
    assert!(matches!(m.observe(false), ServerStatus::Dead));
    assert!(matches!(m.observe(true), ServerStatus::Alive));
}

#[test]
fn test_health_driven_exclusion_and_return() {
    let config = Config {
        ip: "127.0.0.1".to_string(),
        port: "8080".to_string(),
        strategy: "RoundRobin".to_string(),
        persistence_type: PersistenceType::Disabled,
        replicas: 0,
        backends: vec![("A".to_string(), backend("9001")), ("B".to_string(), backend("9002"))],
        mappings: Vec::new(),
        health_check: hc(2, 3),
    };
    let mut s = init_strategy(&config).unwrap();
    let req = RequestInfo::new(
        "/".to_string(),
        "".to_string(),
        "1.2.3.4".to_string(),
        "proxy.local".to_string(),
        Vec::new(),
    );
    let probes = Vec::new();

    // A is unreachable from the start: three failed probes mark it dead.
    let mut monitor_a = HealthMonitor::new(&config.health_check);
    monitor_a.observe(false);
    monitor_a.observe(false);
    let status = monitor_a.observe(false);
    assert!(matches!(status, ServerStatus::Dead));
    s.set_status("127.0.0.1", "9001", status);

    // Every request now lands on B.
    for _ in 0..4 {
        assert_eq!(s.server(&req, &probes).unwrap().port, "9002");
    }

    // A recovers: two successful probes restore it, and both serve again.
    monitor_a.observe(true);
    let status = monitor_a.observe(true);
    assert!(matches!(status, ServerStatus::Alive));
    s.set_status("127.0.0.1", "9001", status);
    let mut seen = Vec::new();
    for _ in 0..2 {
        seen.push(s.server(&req, &probes).unwrap().port);
    }
    seen.sort();
    assert_eq!(seen, vec!["9001".to_string(), "9002".to_string()]);
}
