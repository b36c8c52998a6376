//! Configuration values handed to the proxy by its loader.
//!
//! The loader (outside this library) reads the configuration file and
//! delivers a populated `Config`. Everything here is plain data: the
//! balancing strategies and the forwarding pipeline consume it.

use vstd::prelude::*;

verus! {

/// How a client session is pinned to a backend.
#[derive(Debug, Copy, Clone, PartialEq, Eq, Structural)]
pub enum PersistenceType {
    /// Requests with the same session cookie are routed to the same server.
    Cookie,
    /// Requests from the same IP address are routed to the same server.
    IP,
    /// Requests may be routed to any server chosen by the strategy.
    Disabled,
}

impl Default for PersistenceType {
    fn default() -> (r: Self)
        ensures
            r == PersistenceType::Cookie,
    {
        PersistenceType::Cookie
    }
}

/// Liveness of a backend server, written by the health supervisor and read
/// by every selection strategy.
#[derive(Debug, Copy, Clone, PartialEq, Eq, Structural)]
pub enum ServerStatus {
    Alive,
    Busy,
    Dead,
    Throttled,
}

impl Default for ServerStatus {
    fn default() -> (r: Self)
        ensures
            r == ServerStatus::Alive,
    {
        ServerStatus::Alive
    }
}

/// Binds a mapping entry (a request path, or a client host) to a backend,
/// by the backend's name.
#[derive(Debug)]
pub struct StrategyMapping {
    pub path: String,
}

impl Clone for StrategyMapping {
    fn clone(&self) -> (r: Self)
        ensures
            r == *self,
    {
        StrategyMapping { path: self.path.clone() }
    }
}

/// One backend server: immutable address data plus the mutable liveness
/// flag and connection counter.
#[derive(Debug)]
pub struct BackendConfig {
    pub ip: String,
    pub port: String,
    pub path: String,
    pub scheme: String,
    pub status: ServerStatus,
    pub num_connections: u64,
}

impl Clone for BackendConfig {
    fn clone(&self) -> (r: Self)
        ensures
            r == *self,
    {
        BackendConfig {
            ip: self.ip.clone(),
            port: self.port.clone(),
            path: self.path.clone(),
            scheme: self.scheme.clone(),
            status: self.status,
            num_connections: self.num_connections,
        }
    }
}

impl BackendConfig {
    pub fn status(&self) -> (r: &ServerStatus)
        ensures
            *r == self.status,
    {
        &self.status
    }

    pub fn status_mut(&mut self) -> (r: &mut ServerStatus)
        ensures
            *r == old(self).status,
            final(self).status == *final(r),
            final(self).ip == old(self).ip,
            final(self).port == old(self).port,
            final(self).path == old(self).path,
            final(self).scheme == old(self).scheme,
            final(self).num_connections == old(self).num_connections,
    {
        &mut self.status
    }

    pub fn ip(&self) -> (r: &String)
        ensures
            *r == self.ip,
    {
        &self.ip
    }

    pub fn ip_mut(&mut self) -> (r: &mut String)
        ensures
            *r == old(self).ip,
            final(self).ip == *final(r),
            final(self).port == old(self).port,
            final(self).path == old(self).path,
            final(self).scheme == old(self).scheme,
            final(self).status == old(self).status,
            final(self).num_connections == old(self).num_connections,
    {
        &mut self.ip
    }

    pub fn port(&self) -> (r: &String)
        ensures
            *r == self.port,
    {
        &self.port
    }

    pub fn port_mut(&mut self) -> (r: &mut String)
        ensures
            *r == old(self).port,
            final(self).port == *final(r),
            final(self).ip == old(self).ip,
            final(self).path == old(self).path,
            final(self).scheme == old(self).scheme,
            final(self).status == old(self).status,
            final(self).num_connections == old(self).num_connections,
    {
        &mut self.port
    }

    pub fn scheme(&self) -> (r: &String)
        ensures
            *r == self.scheme,
    {
        &self.scheme
    }

    pub fn scheme_mut(&mut self) -> (r: &mut String)
        ensures
            *r == old(self).scheme,
            final(self).scheme == *final(r),
            final(self).ip == old(self).ip,
            final(self).port == old(self).port,
            final(self).path == old(self).path,
            final(self).status == old(self).status,
            final(self).num_connections == old(self).num_connections,
    {
        &mut self.scheme
    }

    pub fn path(&self) -> (r: &String)
        ensures
            *r == self.path,
    {
        &self.path
    }

    pub fn path_mut(&mut self) -> (r: &mut String)
        ensures
            *r == old(self).path,
            final(self).path == *final(r),
            final(self).ip == old(self).ip,
            final(self).port == old(self).port,
            final(self).scheme == old(self).scheme,
            final(self).status == old(self).status,
            final(self).num_connections == old(self).num_connections,
    {
        &mut self.path
    }

    pub fn num_connections(&self) -> (r: &u64)
        ensures
            *r == self.num_connections,
    {
        &self.num_connections
    }

    pub fn num_connections_mut(&mut self) -> (r: &mut u64)
        ensures
            *r == old(self).num_connections,
            final(self).num_connections == *final(r),
            final(self).ip == old(self).ip,
            final(self).port == old(self).port,
            final(self).path == old(self).path,
            final(self).scheme == old(self).scheme,
            final(self).status == old(self).status,
    {
        &mut self.num_connections
    }
}

impl Default for BackendConfig {
    fn default() -> (r: Self)
        ensures
            r.ip@ == "127.0.0.1"@,
            r.port@ == "8080"@,
            r.path@ == "/backend"@,
            r.scheme@ == "http"@,
            r.status == ServerStatus::Alive,
            r.num_connections == 0u64,
    {
        BackendConfig {
            ip: "127.0.0.1".to_owned(),
            port: "8080".to_owned(),
            path: "/backend".to_owned(),
            scheme: "http".to_owned(),
            status: ServerStatus::Alive,
            num_connections: 0,
        }
    }
}

/// Parameters of the health supervisor's probe loop.
#[derive(Debug)]
pub struct HealthCheckConfig {
    /// Deadline, in seconds, for one TCP probe.
    pub timeout: u64,
    /// Seconds between the starts of two probes of the same backend.
    pub interval: u64,
    /// Consecutive successful probes needed to mark a backend alive.
    pub healthy_threshold: usize,
    /// Consecutive failed probes needed to mark a backend dead.
    pub unhealthy_threshold: usize,
}

impl Clone for HealthCheckConfig {
    fn clone(&self) -> (r: Self)
        ensures
            r == *self,
    {
        HealthCheckConfig {
            timeout: self.timeout,
            interval: self.interval,
            healthy_threshold: self.healthy_threshold,
            unhealthy_threshold: self.unhealthy_threshold,
        }
    }
}

impl Default for HealthCheckConfig {
    fn default() -> (r: Self)
        ensures
            r.timeout == 10u64,
            r.interval == 5u64,
            r.healthy_threshold == 5usize,
            r.unhealthy_threshold == 5usize,
    {
        HealthCheckConfig { timeout: 10, interval: 5, healthy_threshold: 5, unhealthy_threshold: 5 }
    }
}

/// The whole configuration delivered by the loader.
///
/// `backends` and `mappings` are ordered as the configuration listed them;
/// round-robin selection follows that order.
#[derive(Debug)]
pub struct Config {
    pub ip: String,
    pub port: String,
    pub strategy: String,
    pub persistence_type: PersistenceType,
    pub replicas: usize,
    pub backends: Vec<(String, BackendConfig)>,
    pub mappings: Vec<(String, StrategyMapping)>,
    pub health_check: HealthCheckConfig,
}

impl Config {
    pub fn strategy(&self) -> (r: &String)
        ensures
            *r == self.strategy,
    {
        &self.strategy
    }

    pub fn strategy_mut(&mut self) -> (r: &mut String)
        ensures
            *r == old(self).strategy,
            final(self).strategy == *final(r),
            final(self).ip == old(self).ip,
            final(self).port == old(self).port,
            final(self).persistence_type == old(self).persistence_type,
            final(self).replicas == old(self).replicas,
            final(self).backends == old(self).backends,
            final(self).mappings == old(self).mappings,
            final(self).health_check == old(self).health_check,
    {
        &mut self.strategy
    }
}

impl Default for Config {
    fn default() -> (r: Self)
        ensures
            r.ip@ == "127.0.0.1"@,
            r.port@ == "8080"@,
            r.strategy@ == "RoundRobin"@,
            r.persistence_type == PersistenceType::Cookie,
            r.replicas == 0usize,
            r.backends@ == Seq::<(String, BackendConfig)>::empty(),
            r.mappings@ == Seq::<(String, StrategyMapping)>::empty(),
            r.health_check.timeout == 10u64,
            r.health_check.interval == 5u64,
            r.health_check.healthy_threshold == 5usize,
            r.health_check.unhealthy_threshold == 5usize,
    {
        Config {
            ip: "127.0.0.1".to_owned(),
            port: "8080".to_owned(),
            strategy: "RoundRobin".to_owned(),
            persistence_type: PersistenceType::Cookie,
            replicas: 0,
            backends: Vec::new(),
            mappings: Vec::new(),
            health_check: HealthCheckConfig::default(),
        }
    }
}

} // verus!
