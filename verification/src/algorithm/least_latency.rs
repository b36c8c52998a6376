//! Latency-driven selection: per call, every alive backend is probed
//! with a TCP connect, and the fastest successful one wins. The probing
//! itself is outside work; this module holds the decision over the
//! measured outcomes.

use vstd::prelude::*;

use crate::algorithm::algorithm::{
    append_alive_copies, set_status_by_addr, spec_alive, spec_alive_copies, spec_status_at_addr,
};
use crate::config::{BackendConfig, Config, ServerStatus};

verus! {

/// Whether backend `i` may win: it is alive and its probe connected.
pub open spec fn spec_eligible(s: Seq<BackendConfig>, p: Seq<Option<u64>>, i: int) -> bool {
    spec_alive(s[i]) && p[i] is Some
}

/// Index of the winner among the first `n` backends: the smallest
/// measured latency, earliest position winning ties.
pub open spec fn spec_best_upto(s: Seq<BackendConfig>, p: Seq<Option<u64>>, n: int) -> Option<int>
    decreases n,
{
    if n <= 0 {
        None
    } else {
        let prev = spec_best_upto(s, p, n - 1);
        if !spec_eligible(s, p, n - 1) {
            prev
        } else {
            match prev {
                None => Some(n - 1),
                Some(j) => if p[n - 1]->Some_0 < p[j]->Some_0 {
                    Some(n - 1)
                } else {
                    Some(j)
                },
            }
        }
    }
}

/// The winner is in range and eligible.
pub proof fn lemma_best_upto_eligible(s: Seq<BackendConfig>, p: Seq<Option<u64>>, n: int)
    requires
        spec_best_upto(s, p, n) is Some,
        n <= s.len(),
    ensures
        0 <= spec_best_upto(s, p, n)->Some_0 < n,
        spec_eligible(s, p, spec_best_upto(s, p, n)->Some_0),
    decreases n,
{
    if n > 0 {
        if spec_best_upto(s, p, n - 1) is Some {
            lemma_best_upto_eligible(s, p, n - 1);
        }
    }
}

/// The latency-probing strategy: an ordered copy of the registry. It
/// keeps no probe state; each selection starts from fresh measurements.
pub struct LeastLatency {
    pub current_server: usize,
    pub servers: Vec<BackendConfig>,
}

impl LeastLatency {
    /// What a round of probe outcomes selects, one outcome per held
    /// backend: `None` for a failed connect, else the elapsed time.
    pub open spec fn spec_select_least(self, p: Seq<Option<u64>>) -> Option<BackendConfig> {
        match spec_best_upto(self.servers@, p, self.servers@.len() as int) {
            Some(i) => Some(self.servers@[i]),
            None => None,
        }
    }

    pub fn new() -> (r: Self)
        ensures
            r.current_server == 0usize,
            r.servers@ == Seq::<BackendConfig>::empty(),
    {
        LeastLatency { current_server: 0, servers: Vec::new() }
    }

    /// Copies every configured backend, in configuration order, marking
    /// each alive.
    pub fn configure(&mut self, config: &Config)
        ensures
            final(self).current_server == old(self).current_server,
            final(self).servers@ == old(self).servers@ + spec_alive_copies(config.backends@),
    {
        append_alive_copies(&mut self.servers, &config.backends);
    }

    /// Selects the alive backend whose probe connected fastest, the
    /// earliest position winning ties; selects nothing when no alive
    /// backend's probe connected.
    pub fn server_from_probes(&self, probes: &Vec<Option<u64>>) -> (r: Option<BackendConfig>)
        requires
            probes@.len() == self.servers@.len(),
        ensures
            r == self.spec_select_least(probes@),
            r matches Some(b) ==> spec_alive(b),
    {
        let n = self.servers.len();
        let mut best: Option<usize> = None;
        let mut i: usize = 0;
        while i < n
            invariant
                n == self.servers@.len(),
                probes@.len() == n,
                i <= n,
                match best {
                    Some(j) => spec_best_upto(self.servers@, probes@, i as int) == Some(j as int)
                        && j < i && spec_eligible(self.servers@, probes@, j as int),
                    None => spec_best_upto(self.servers@, probes@, i as int) is None,
                },
            decreases n - i,
        {
            let alive = matches!(self.servers[i].status, ServerStatus::Alive);
            match probes[i] {
                Some(t) => {
                    if alive {
                        best = match best {
                            None => Some(i),
                            Some(j) => {
                                let tj = probes[j].unwrap();
                                if t < tj {
                                    Some(i)
                                } else {
                                    Some(j)
                                }
                            },
                        };
                    }
                },
                None => {},
            }
            i += 1;
        }
        match best {
            Some(j) => {
                proof {
                    lemma_best_upto_eligible(self.servers@, probes@, n as int);
                }
                Some(self.servers[j].clone())
            },
            None => None,
        }
    }

    /// Writes the liveness flag of every held backend at `(ip, port)`.
    pub fn set_status(&mut self, ip: &str, port: &str, st: ServerStatus)
        ensures
            final(self).current_server == old(self).current_server,
            final(self).servers@ == old(self).servers@.map_values(
                |b: BackendConfig| spec_status_at_addr(b, ip@, port@, st),
            ),
    {
        set_status_by_addr(&mut self.servers, ip, port, st);
    }
}

} // verus!
