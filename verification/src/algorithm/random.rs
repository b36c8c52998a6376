//! Random selection: a uniform draw over the registry, falling forward
//! to the next alive backend.

use vstd::prelude::*;

use crate::algorithm::algorithm::{
    append_alive_copies, scan_alive_from, set_status_by_addr, spec_alive, spec_alive_copies,
    spec_exists_alive, spec_status_at_addr, RequestInfo,
};
use crate::config::{BackendConfig, Config, ServerStatus};

verus! {

/// The random strategy: an ordered copy of the registry; the draw is
/// taken fresh on every selection.
pub struct Random {
    pub servers: Vec<BackendConfig>,
}

/// Relies on rand::random_range: a draw from a non-empty range lies
/// inside the range.
#[verifier::external_body]
fn random_index_below(n: usize) -> (r: usize)
    requires
        n > 0,
    ensures
        r < n,
{
    rand::random_range(0..n)
}

impl Random {
    pub fn new() -> (r: Self)
        ensures
            r.servers@ == Seq::<BackendConfig>::empty(),
    {
        Random { servers: Vec::new() }
    }

    /// Copies every configured backend, in configuration order, marking
    /// each alive.
    pub fn configure(&mut self, config: &Config)
        ensures
            final(self).servers@ == old(self).servers@ + spec_alive_copies(config.backends@),
    {
        append_alive_copies(&mut self.servers, &config.backends);
    }

    /// Draws an index uniformly and selects the first alive backend at
    /// or after it on the ring; selects nothing only when no backend is
    /// alive. The draw is fresh on each call, so only what holds of
    /// every outcome is promised.
    pub fn server(&mut self, _req: &RequestInfo) -> (r: Option<BackendConfig>)
        ensures
            *final(self) == *old(self),
            (r is Some) == spec_exists_alive(old(self).servers@),
            r matches Some(b) ==> spec_alive(b) && (exists|j: int|
                0 <= j < old(self).servers@.len() && old(self).servers@[j] == b),
    {
        let len = self.servers.len();
        if len == 0 {
            return None;
        }
        let start = random_index_below(len);
        match scan_alive_from(&self.servers, start) {
            Some(i) => Some(self.servers[i].clone()),
            None => None,
        }
    }

    /// Writes the liveness flag of every held backend at `(ip, port)`.
    pub fn set_status(&mut self, ip: &str, port: &str, st: ServerStatus)
        ensures
            final(self).servers@ == old(self).servers@.map_values(
                |b: BackendConfig| spec_status_at_addr(b, ip@, port@, st),
            ),
    {
        set_status_by_addr(&mut self.servers, ip, port, st);
    }
}

} // verus!
