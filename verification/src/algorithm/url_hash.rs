//! Path-mapped selection: an immutable table from declared request
//! paths to backends, matched by exact equality.

use vstd::prelude::*;

use crate::algorithm::algorithm::{
    assoc_get, set_status_by_addr, spec_alive, spec_assoc, spec_copy_alive, spec_status_at_addr,
    RequestInfo,
};
use crate::config::{BackendConfig, Config, ServerStatus, StrategyMapping};

verus! {

/// The table rows a configuration declares: for each mapping whose name
/// resolves to a backend, the declared path bound to an alive-marked
/// copy of that backend; mappings with unknown names are dropped.
pub open spec fn spec_mapping_entries(
    bs: Seq<(String, BackendConfig)>,
    ms: Seq<(String, StrategyMapping)>,
) -> Seq<(String, BackendConfig)>
    decreases ms.len(),
{
    if ms.len() == 0 {
        Seq::empty()
    } else {
        spec_mapping_entries(bs, ms.drop_last()) + (match spec_assoc(bs, ms.last().0@) {
            Some(b) => seq![(ms.last().1.path, spec_copy_alive(b))],
            None => Seq::empty(),
        })
    }
}

/// Builds the declared table rows by walking the mappings in order.
pub fn build_mapping_entries(
    dst: &mut Vec<(String, BackendConfig)>,
    config: &Config,
)
    ensures
        final(dst)@ == old(dst)@ + spec_mapping_entries(config.backends@, config.mappings@),
{
    let n = config.mappings.len();
    let mut i: usize = 0;
    while i < n
        invariant
            n == config.mappings@.len(),
            i <= n,
            dst@ == old(dst)@ + spec_mapping_entries(
                config.backends@,
                config.mappings@.subrange(0, i as int),
            ),
        decreases n - i,
    {
        let name = config.mappings[i].0.as_str();
        match assoc_get(&config.backends, name) {
            Some(b) => {
                let path = config.mappings[i].1.path.clone();
                dst.push((path, crate::algorithm::algorithm::copy_alive(&b)));
            },
            None => {},
        }
        proof {
            let bs = config.backends@;
            let pre = config.mappings@.subrange(0, i as int);
            let cur = config.mappings@.subrange(0, i as int + 1);
            assert(cur.drop_last() =~= pre);
            assert(cur.last() == config.mappings@[i as int]);
            assert(spec_mapping_entries(bs, cur) == spec_mapping_entries(bs, pre) + (
            match spec_assoc(bs, cur.last().0@) {
                Some(b) => seq![(cur.last().1.path, spec_copy_alive(b))],
                None => Seq::empty(),
            }));
            assert(dst@ =~= old(dst)@ + spec_mapping_entries(bs, cur));
        }
        i += 1;
    }
    proof {
        assert(config.mappings@.subrange(0, n as int) =~= config.mappings@);
    }
}

/// Maps a request to a backend by the exact path of its URI.
pub struct UriPathHash {
    url_mappings: Vec<(String, BackendConfig)>,
}

impl UriPathHash {
    /// The strategy's table, as a sequence of path-to-backend rows.
    pub closed spec fn spec_mappings(self) -> Seq<(String, BackendConfig)> {
        self.url_mappings@
    }

    /// What a request path selects: the backend bound to the path, when
    /// one is and it is alive.
    pub open spec fn spec_select_path(self, path: Seq<char>) -> Option<BackendConfig> {
        match spec_assoc(self.spec_mappings(), path) {
            Some(b) => if spec_alive(b) {
                Some(b)
            } else {
                None
            },
            None => None,
        }
    }

    pub fn new() -> (r: Self)
        ensures
            r.spec_mappings() == Seq::<(String, BackendConfig)>::empty(),
    {
        UriPathHash { url_mappings: Vec::new() }
    }

    /// Builds the path table from the configuration's mappings.
    pub fn configure(&mut self, config: &Config)
        ensures
            final(self).spec_mappings() == old(self).spec_mappings() + spec_mapping_entries(
                config.backends@,
                config.mappings@,
            ),
    {
        build_mapping_entries(&mut self.url_mappings, config);
    }

    /// Selects the backend the request path is mapped to, if that
    /// mapping exists and the backend is alive.
    pub fn server(&mut self, req: &RequestInfo) -> (r: Option<BackendConfig>)
        ensures
            *final(self) == *old(self),
            r == old(self).spec_select_path(req.uri_path@),
    {
        match assoc_get(&self.url_mappings, req.uri_path.as_str()) {
            Some(b) => {
                if matches!(b.status, ServerStatus::Alive) {
                    Some(b)
                } else {
                    None
                }
            },
            None => None,
        }
    }

    /// Writes the liveness flag of every held backend at `(ip, port)`.
    pub fn set_status(&mut self, ip: &str, port: &str, st: ServerStatus)
        ensures
            final(self).spec_mappings() == old(self).spec_mappings().map_values(
                |p: (String, BackendConfig)| (p.0, spec_status_at_addr(p.1, ip@, port@, st)),
            ),
    {
        set_pair_status_by_addr(&mut self.url_mappings, ip, port, st);
    }
}

/// Sets the status of every backend bound in a table whose address is
/// `(ip, port)`.
pub fn set_pair_status_by_addr(
    entries: &mut Vec<(String, BackendConfig)>,
    ip: &str,
    port: &str,
    st: ServerStatus,
)
    ensures
        final(entries)@ == old(entries)@.map_values(
            |p: (String, BackendConfig)| (p.0, spec_status_at_addr(p.1, ip@, port@, st)),
        ),
{
    let n = entries.len();
    let mut i: usize = 0;
    while i < n
        invariant
            n == entries@.len(),
            entries@.len() == old(entries)@.len(),
            i <= n,
            forall|j: int| 0 <= j < i ==> entries@[j] == (
                old(entries)@[j].0,
                spec_status_at_addr(old(entries)@[j].1, ip@, port@, st),
            ),
            forall|j: int| i <= j < n ==> entries@[j] == old(entries)@[j],
        decreases n - i,
    {
        if crate::text::str_eq(entries[i].1.ip.as_str(), ip) && crate::text::str_eq(
            entries[i].1.port.as_str(),
            port,
        ) {
            let p = &mut entries[i];
            p.1.status = st;
        }
        i += 1;
    }
    proof {
        assert(entries@ =~= old(entries)@.map_values(
            |p: (String, BackendConfig)| (p.0, spec_status_at_addr(p.1, ip@, port@, st)),
        ));
    }
}

} // verus!
