//! Run-time descriptors: the process-wide state and the per-server
//! record with its liveness flag.

use vstd::prelude::*;

use crate::algorithm::algorithm::Strategy;

verus! {

/// Liveness of one server, as the supervisor records it.
#[derive(Debug, Copy, Clone, PartialEq, Eq, Structural)]
pub enum ServerStatus {
    Alive,
    Busy,
    Dead,
    Throttled,
}

/// The process-wide state: the chosen strategy and the listening
/// address.
pub struct Global {
    pub strategy: Strategy,
    pub ip: String,
    pub port: String,
}

impl Global {
    pub fn ip(&self) -> (r: &String)
        ensures
            *r == self.ip,
    {
        &self.ip
    }

    pub fn ip_mut(&mut self) -> (r: &mut String)
        ensures
            *r == old(self).ip,
            final(self).ip == *final(r),
            final(self).port == old(self).port,
            final(self).strategy == old(self).strategy,
    {
        &mut self.ip
    }

    pub fn port(&self) -> (r: &String)
        ensures
            *r == self.port,
    {
        &self.port
    }

    pub fn port_mut(&mut self) -> (r: &mut String)
        ensures
            *r == old(self).port,
            final(self).port == *final(r),
            final(self).ip == old(self).ip,
            final(self).strategy == old(self).strategy,
    {
        &mut self.port
    }

    pub fn strategy(&self) -> (r: &Strategy)
        ensures
            *r == self.strategy,
    {
        &self.strategy
    }

    pub fn strategy_mut(&mut self) -> (r: &mut Strategy)
        ensures
            *r == old(self).strategy,
            final(self).strategy == *final(r),
            final(self).ip == old(self).ip,
            final(self).port == old(self).port,
    {
        &mut self.strategy
    }
}

/// One upstream server: its address data, its liveness, and how many
/// connections it has carried.
pub struct Server {
    pub status: ServerStatus,
    pub ip: String,
    pub port: String,
    pub path: String,
    pub num_connections: u64,
}

impl Server {
    pub fn status(&self) -> (r: &ServerStatus)
        ensures
            *r == self.status,
    {
        &self.status
    }

    pub fn status_mut(&mut self) -> (r: &mut ServerStatus)
        ensures
            *r == old(self).status,
            final(self).status == *final(r),
            final(self).ip == old(self).ip,
            final(self).port == old(self).port,
            final(self).path == old(self).path,
            final(self).num_connections == old(self).num_connections,
    {
        &mut self.status
    }

    pub fn ip(&self) -> (r: &String)
        ensures
            *r == self.ip,
    {
        &self.ip
    }

    pub fn ip_mut(&mut self) -> (r: &mut String)
        ensures
            *r == old(self).ip,
            final(self).ip == *final(r),
            final(self).status == old(self).status,
            final(self).port == old(self).port,
            final(self).path == old(self).path,
            final(self).num_connections == old(self).num_connections,
    {
        &mut self.ip
    }

    pub fn port(&self) -> (r: &String)
        ensures
            *r == self.port,
    {
        &self.port
    }

    pub fn port_mut(&mut self) -> (r: &mut String)
        ensures
            *r == old(self).port,
            final(self).port == *final(r),
            final(self).status == old(self).status,
            final(self).ip == old(self).ip,
            final(self).path == old(self).path,
            final(self).num_connections == old(self).num_connections,
    {
        &mut self.port
    }

    pub fn path(&self) -> (r: &String)
        ensures
            *r == self.path,
    {
        &self.path
    }

    pub fn path_mut(&mut self) -> (r: &mut String)
        ensures
            *r == old(self).path,
            final(self).path == *final(r),
            final(self).status == old(self).status,
            final(self).ip == old(self).ip,
            final(self).port == old(self).port,
            final(self).num_connections == old(self).num_connections,
    {
        &mut self.path
    }

    pub fn num_connections(&self) -> (r: &u64)
        ensures
            *r == self.num_connections,
    {
        &self.num_connections
    }

    pub fn num_connections_mut(&mut self) -> (r: &mut u64)
        ensures
            *r == old(self).num_connections,
            final(self).num_connections == *final(r),
            final(self).status == old(self).status,
            final(self).ip == old(self).ip,
            final(self).port == old(self).port,
            final(self).path == old(self).path,
    {
        &mut self.num_connections
    }
}

} // verus!
