//! Source-address-mapped selection: an immutable table from client
//! hosts to backends, matched by exact equality.

use vstd::prelude::*;

use crate::algorithm::algorithm::{assoc_get, spec_alive, spec_assoc, spec_status_at_addr, RequestInfo};
use crate::algorithm::url_hash::{build_mapping_entries, set_pair_status_by_addr, spec_mapping_entries};
use crate::config::{BackendConfig, Config, ServerStatus};

verus! {

/// The host a request is keyed by: the host of its URI when one was
/// received, else the connection's remote address.
pub open spec fn spec_client_key(req: RequestInfo) -> Seq<char> {
    if req.uri_host@.len() > 0 {
        req.uri_host@
    } else {
        req.remote_ip@
    }
}

/// Maps a request to a backend by the client's host.
pub struct IPHash {
    ip_mappings: Vec<(String, BackendConfig)>,
}

impl IPHash {
    /// The strategy's table, as a sequence of host-to-backend rows.
    pub closed spec fn spec_mappings(self) -> Seq<(String, BackendConfig)> {
        self.ip_mappings@
    }

    /// What a client host selects: the backend bound to it, when one is
    /// and it is alive.
    pub open spec fn spec_select_host(self, host: Seq<char>) -> Option<BackendConfig> {
        match spec_assoc(self.spec_mappings(), host) {
            Some(b) => if spec_alive(b) {
                Some(b)
            } else {
                None
            },
            None => None,
        }
    }

    pub fn new() -> (r: Self)
        ensures
            r.spec_mappings() == Seq::<(String, BackendConfig)>::empty(),
    {
        IPHash { ip_mappings: Vec::new() }
    }

    /// Builds the host table from the configuration's mappings.
    pub fn configure(&mut self, config: &Config)
        ensures
            final(self).spec_mappings() == old(self).spec_mappings() + spec_mapping_entries(
                config.backends@,
                config.mappings@,
            ),
    {
        build_mapping_entries(&mut self.ip_mappings, config);
    }

    /// Selects the backend the client's host is mapped to, if that
    /// mapping exists and the backend is alive.
    pub fn server(&mut self, req: &RequestInfo) -> (r: Option<BackendConfig>)
        ensures
            *final(self) == *old(self),
            r == old(self).spec_select_host(spec_client_key(*req)),
    {
        let key = if req.uri_host.as_str().is_empty() {
            req.remote_ip.as_str()
        } else {
            req.uri_host.as_str()
        };
        match assoc_get(&self.ip_mappings, key) {
            Some(b) => {
                if matches!(b.status, ServerStatus::Alive) {
                    Some(b)
                } else {
                    None
                }
            },
            None => None,
        }
    }

    /// Writes the liveness flag of every held backend at `(ip, port)`.
    pub fn set_status(&mut self, ip: &str, port: &str, st: ServerStatus)
        ensures
            final(self).spec_mappings() == old(self).spec_mappings().map_values(
                |p: (String, BackendConfig)| (p.0, spec_status_at_addr(p.1, ip@, port@, st)),
            ),
    {
        set_pair_status_by_addr(&mut self.ip_mappings, ip, port, st);
    }
}

} // verus!
