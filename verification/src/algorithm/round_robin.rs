//! Round-robin selection: a cursor walks the registry ring, skipping
//! backends that are not alive.

use vstd::prelude::*;

use crate::algorithm::algorithm::{
    append_alive_copies, scan_alive_from, set_status_by_addr, spec_alive, spec_alive_copies,
    spec_exists_alive, spec_ring_next, spec_scan_alive, spec_status_at_addr, RequestInfo,
};
use crate::config::{BackendConfig, Config, ServerStatus};

verus! {

/// The round-robin strategy: an ordered copy of the registry and the
/// cursor of the next candidate.
pub struct RoundRobin {
    pub current_server: usize,
    pub servers: Vec<BackendConfig>,
}

impl RoundRobin {
    /// Index of the backend the next call will select: the first alive
    /// backend at or after the cursor, if any backend is alive.
    pub open spec fn spec_selection(self) -> Option<int> {
        if self.servers@.len() == 0 {
            None
        } else {
            spec_scan_alive(
                self.servers@,
                (self.current_server as int) % (self.servers@.len() as int),
                self.servers@.len() as nat,
            )
        }
    }

    pub fn new() -> (r: Self)
        ensures
            r.current_server == 0usize,
            r.servers@ == Seq::<BackendConfig>::empty(),
    {
        RoundRobin { current_server: 0, servers: Vec::new() }
    }

    /// Copies every configured backend, in configuration order, marking
    /// each alive.
    pub fn configure(&mut self, config: &Config)
        ensures
            final(self).current_server == old(self).current_server,
            final(self).servers@ == old(self).servers@ + spec_alive_copies(config.backends@),
    {
        append_alive_copies(&mut self.servers, &config.backends);
    }

    /// Selects the first alive backend at or after the cursor and moves
    /// the cursor one past it; with no alive backend, selects nothing
    /// and leaves the cursor alone.
    /// The state one selection call leaves behind: the cursor one past
    /// the selected backend, or unchanged when nothing was selected.
    pub open spec fn spec_step(self) -> RoundRobin {
        match self.spec_selection() {
            Some(i) => RoundRobin {
                current_server: spec_ring_next(i, self.servers@.len() as int) as usize,
                servers: self.servers,
            },
            None => self,
        }
    }

    pub fn server(&mut self, _req: &RequestInfo) -> (r: Option<BackendConfig>)
        ensures
            *final(self) == old(self).spec_step(),
            final(self).servers == old(self).servers,
            (r is Some) == spec_exists_alive(old(self).servers@),
            r matches Some(b) ==> spec_alive(b),
            old(self).spec_selection() matches Some(i) ==> r == Some(old(self).servers@[i])
                && final(self).current_server as int == spec_ring_next(
                i,
                old(self).servers@.len() as int,
            ),
            old(self).spec_selection() is None ==> r is None && final(self).current_server == old(
                self,
            ).current_server,
    {
        let len = self.servers.len();
        if len == 0 {
            return None;
        }
        let start = self.current_server % len;
        match scan_alive_from(&self.servers, start) {
            Some(i) => {
                self.current_server = if i + 1 == len {
                    0
                } else {
                    i + 1
                };
                Some(self.servers[i].clone())
            },
            None => None,
        }
    }

    /// Writes the liveness flag of every held backend at `(ip, port)`.
    pub fn set_status(&mut self, ip: &str, port: &str, st: ServerStatus)
        ensures
            final(self).current_server == old(self).current_server,
            final(self).servers@ == old(self).servers@.map_values(
                |b: BackendConfig| spec_status_at_addr(b, ip@, port@, st),
            ),
    {
        set_status_by_addr(&mut self.servers, ip, port, st);
    }
}

/// With every backend alive, a selection lands exactly on the cursor:
/// selection `i` of a run that starts at cursor `c` therefore lands on
/// position `(c + i) % len`.
pub proof fn lemma_selection_all_alive(rr: RoundRobin)
    requires
        rr.servers@.len() > 0,
        forall|i: int| 0 <= i < rr.servers@.len() ==> spec_alive(rr.servers@[i]),
    ensures
        rr.spec_selection() == Some(
            (rr.current_server as int) % (rr.servers@.len() as int),
        ),
{
    let n = rr.servers@.len() as int;
    let start = (rr.current_server as int) % n;
    vstd::arithmetic::div_mod::lemma_mod_division_less_than_divisor(rr.current_server as int, n);
    vstd::arithmetic::div_mod::lemma_mod_bound(rr.current_server as int, n);
    assert(0 <= start < n);
    assert(spec_alive(rr.servers@[start]));
}

/// How many of `k` successive round-robin selections starting at cursor
/// `c0` land on registry position `j`, when every backend stays alive:
/// selection `i` lands on `(c0 + i) % n`.
pub open spec fn spec_rr_hits(c0: int, k: nat, n: int, j: int) -> nat
    decreases k,
{
    if k == 0 {
        0
    } else {
        spec_rr_hits(c0, (k - 1) as nat, n, j) + (if (c0 + k - 1) % n == j {
            1nat
        } else {
            0nat
        })
    }
}

/// The exact count: `⌊k/n⌋`, plus one when `j` falls inside the partial
/// final lap.
proof fn lemma_rr_hits_closed(c0: int, k: nat, n: int, j: int)
    requires
        n >= 1,
        0 <= c0 < n,
        0 <= j < n,
    ensures
        spec_rr_hits(c0, k, n, j) == (k as int) / n + (if (j - c0 + n) % n < (k as int) % n {
            1int
        } else {
            0int
        }),
    decreases k,
{
    let jrel = (j - c0 + n) % n;
    if j >= c0 {
        vstd::arithmetic::div_mod::lemma_fundamental_div_mod_converse(j - c0 + n, n, 1, j - c0);
    } else {
        vstd::arithmetic::div_mod::lemma_fundamental_div_mod_converse(j - c0 + n, n, 0, j - c0 + n);
    }
    assert(jrel == (if j >= c0 { j - c0 } else { j - c0 + n }));
    if k == 0 {
        vstd::arithmetic::div_mod::lemma_fundamental_div_mod_converse(0, n, 0, 0);
    } else {
        lemma_rr_hits_closed(c0, (k - 1) as nat, n, j);
        let km1: int = k - 1;
        let m = km1 % n;
        let q = km1 / n;
        vstd::arithmetic::div_mod::lemma_fundamental_div_mod(km1, n);
        vstd::arithmetic::div_mod::lemma_mod_division_less_than_divisor(km1, n);
        vstd::arithmetic::div_mod::lemma_mod_bound(km1, n);
        assert(0 <= m < n);
        // The landing position of the last selection, via the cursor lap.
        vstd::arithmetic::div_mod::lemma_add_mod_noop_right(c0, km1, n);
        assert((c0 + km1) % n == (c0 + m) % n);
        if c0 + m < n {
            vstd::arithmetic::div_mod::lemma_fundamental_div_mod_converse(c0 + m, n, 0, c0 + m);
        } else {
            vstd::arithmetic::div_mod::lemma_fundamental_div_mod_converse(c0 + m, n, 1, c0 + m - n);
        }
        assert(((c0 + km1) % n == j) == (m == jrel));
        // One selection later, the quotient and remainder of `k` itself.
        if m + 1 < n {
            assert(k as int == q * n + (m + 1)) by (nonlinear_arith)
                requires
                    km1 == n * q + m,
                    k as int == km1 + 1,
            ;
            vstd::arithmetic::div_mod::lemma_fundamental_div_mod_converse(k as int, n, q, m + 1);
            assert((k as int) / n == q && (k as int) % n == m + 1);
        } else {
            assert(k as int == (q + 1) * n + 0) by (nonlinear_arith)
                requires
                    km1 == n * q + m,
                    k as int == km1 + 1,
                    m + 1 == n,
            ;
            vstd::arithmetic::div_mod::lemma_fundamental_div_mod_converse(k as int, n, q + 1, 0);
            assert((k as int) / n == q + 1 && (k as int) % n == 0);
        }
    }
}

/// Round-robin fairness: over a window of `k` selections with all `n`
/// backends alive and the registry unchanged, every position is
/// selected either `⌊k/n⌋` or `⌈k/n⌉` times; a window of whole laps
/// treats every position exactly alike.
pub proof fn lemma_round_robin_fair(c0: int, k: nat, n: int, j: int)
    requires
        n >= 1,
        0 <= c0 < n,
        0 <= j < n,
    ensures
        (k as int) / n <= spec_rr_hits(c0, k, n, j) <= (k as int) / n + 1,
        (k as int) % n == 0 ==> spec_rr_hits(c0, k, n, j) == (k as int) / n,
        (k as int) % n != 0 ==> spec_rr_hits(c0, k, n, j) == (k as int) / n || spec_rr_hits(
            c0,
            k,
            n,
            j,
        ) == (k as int) / n + 1,
{
    lemma_rr_hits_closed(c0, k, n, j);
    vstd::arithmetic::div_mod::lemma_mod_bound(j - c0 + n, n);
}

/// The state after `i` successive selection calls: `server` ensures
/// that each call turns its state into `spec_step` of it, so a chain of
/// `i` calls lands exactly here.
pub open spec fn spec_rr_after(rr: RoundRobin, i: nat) -> RoundRobin
    decreases i,
{
    if i == 0 {
        rr
    } else {
        spec_rr_after(rr, (i - 1) as nat).spec_step()
    }
}

/// How many of the first `k` selections of the chain starting at `rr`
/// land on registry position `j`.
pub open spec fn spec_window_hits(rr: RoundRobin, k: nat, j: int) -> nat
    decreases k,
{
    if k == 0 {
        0
    } else {
        spec_window_hits(rr, (k - 1) as nat, j) + (if spec_rr_after(
            rr,
            (k - 1) as nat,
        ).spec_selection() == Some(j) {
            1nat
        } else {
            0nat
        })
    }
}

/// On the ring, one step forward is addition by one modulo the length.
proof fn lemma_ring_next_is_mod(x: int, n: int)
    requires
        n >= 1,
        0 <= x < n,
    ensures
        spec_ring_next(x, n) == (x + 1) % n,
{
    if x + 1 == n {
        vstd::arithmetic::div_mod::lemma_mod_self_0(n);
    } else {
        vstd::arithmetic::div_mod::lemma_small_mod((x + 1) as nat, n as nat);
    }
}

/// With every backend alive, the chain's `i`-th state keeps the
/// registry, its cursor is congruent to the start plus `i`, and its
/// selection is exactly position `(c0 + i) % n`.
proof fn lemma_rr_after_cursor(rr: RoundRobin, i: nat)
    requires
        rr.servers@.len() > 0,
        forall|x: int| 0 <= x < rr.servers@.len() ==> spec_alive(rr.servers@[x]),
    ensures
        spec_rr_after(rr, i).servers == rr.servers,
        (spec_rr_after(rr, i).current_server as int) % (rr.servers@.len() as int) == (
        (rr.current_server as int) % (rr.servers@.len() as int) + i) % (rr.servers@.len() as int),
        spec_rr_after(rr, i).spec_selection() == Some(
            ((rr.current_server as int) % (rr.servers@.len() as int) + i) % (
            rr.servers@.len() as int),
        ),
    decreases i,
{
    let n = rr.servers@.len() as int;
    let c0 = (rr.current_server as int) % n;
    vstd::arithmetic::div_mod::lemma_mod_bound(rr.current_server as int, n);
    if i == 0 {
        lemma_selection_all_alive(rr);
        vstd::arithmetic::div_mod::lemma_small_mod(c0 as nat, n as nat);
    } else {
        lemma_rr_after_cursor(rr, (i - 1) as nat);
        let prev = spec_rr_after(rr, (i - 1) as nat);
        let cur = spec_rr_after(rr, i);
        let sel = (c0 + i - 1) % n;
        vstd::arithmetic::div_mod::lemma_mod_bound(c0 + i - 1, n);
        reveal_with_fuel(spec_rr_after, 2);
        assert(cur == prev.spec_step());
        // The ring position fits a cursor: the registry is a Vec.
        vstd::std_specs::vec::axiom_spec_len(&rr.servers);
        assert(cur.current_server as int == spec_ring_next(sel, n));
        lemma_ring_next_is_mod(sel, n);
        // Stepping the selected position is stepping the sum, modulo n.
        vstd::arithmetic::div_mod::lemma_add_mod_noop(c0 + i - 1, 1, n);
        if n == 1 {
            vstd::arithmetic::div_mod::lemma_mod_self_0(n);
        } else {
            vstd::arithmetic::div_mod::lemma_small_mod(1nat, n as nat);
        }
        assert((sel + (1int) % n) % n == (c0 + i) % n);
        assert(cur.current_server as int == (c0 + i) % n);
        vstd::arithmetic::div_mod::lemma_mod_bound(c0 + i, n);
        vstd::arithmetic::div_mod::lemma_small_mod(((c0 + i) % n) as nat, n as nat);
        lemma_selection_all_alive(cur);
    }
}

/// The chain's window counts are the counts of the cursor walk.
proof fn lemma_window_hits_are_rr_hits(rr: RoundRobin, k: nat, j: int)
    requires
        rr.servers@.len() > 0,
        forall|x: int| 0 <= x < rr.servers@.len() ==> spec_alive(rr.servers@[x]),
    ensures
        spec_window_hits(rr, k, j) == spec_rr_hits(
            (rr.current_server as int) % (rr.servers@.len() as int),
            k,
            rr.servers@.len() as int,
            j,
        ),
    decreases k,
{
    if k > 0 {
        lemma_window_hits_are_rr_hits(rr, (k - 1) as nat, j);
        lemma_rr_after_cursor(rr, (k - 1) as nat);
    }
}

/// Round-robin fairness over the machine's own run: starting anywhere,
/// over a window of `k` successive selection calls with all `n` held
/// backends alive, every registry position is selected either `⌊k/n⌋`
/// or `⌈k/n⌉` times, and exactly `k/n` times when the window is a whole
/// number of laps. `server` ensures each call realises `spec_step`, so
/// `spec_rr_after` is the state such a chain of calls reaches.
pub proof fn lemma_round_robin_window(rr: RoundRobin, k: nat, j: int)
    requires
        rr.servers@.len() > 0,
        forall|x: int| 0 <= x < rr.servers@.len() ==> spec_alive(rr.servers@[x]),
        0 <= j < rr.servers@.len(),
    ensures
        (k as int) / (rr.servers@.len() as int) <= spec_window_hits(rr, k, j) <= (k as int) / (
        rr.servers@.len() as int) + 1,
        (k as int) % (rr.servers@.len() as int) == 0 ==> spec_window_hits(rr, k, j) == (k as int)
            / (rr.servers@.len() as int),
{
    let n = rr.servers@.len() as int;
    let c0 = (rr.current_server as int) % n;
    vstd::arithmetic::div_mod::lemma_mod_bound(rr.current_server as int, n);
    lemma_window_hits_are_rr_hits(rr, k, j);
    lemma_round_robin_fair(c0, k, n, j);
}

} // verus!
