//! The health supervisor's judgement: per backend, a monitor folds the
//! stream of probe outcomes into a liveness flag. A backend becomes
//! dead only after enough consecutive failures, and alive again only
//! after enough consecutive successes; the prober loop that produces
//! the outcomes runs outside this library.

use vstd::prelude::*;

use crate::config::{HealthCheckConfig, ServerStatus};

verus! {

/// One backend's monitor: the streak counters, the flag, and the two
/// thresholds (at least one each).
pub struct HealthMonitor {
    pub up_streak: u64,
    pub down_streak: u64,
    pub status: ServerStatus,
    pub healthy_threshold: u64,
    pub unhealthy_threshold: u64,
}

impl HealthMonitor {
    /// The monitor's internal consistency: thresholds are positive, and
    /// a streak that would have crossed its threshold has been consumed
    /// by the transition.
    pub open spec fn spec_wf(self) -> bool {
        self.healthy_threshold >= 1 && self.unhealthy_threshold >= 1 && (self.status
            != ServerStatus::Dead ==> self.down_streak < self.unhealthy_threshold) && (self.status
            != ServerStatus::Alive ==> self.up_streak < self.healthy_threshold)
    }

    /// A fresh monitor: optimistic, with clean streaks; a configured
    /// threshold of zero is treated as one.
    pub fn new(hc: &HealthCheckConfig) -> (r: Self)
        ensures
            r.up_streak == 0u64,
            r.down_streak == 0u64,
            r.status == ServerStatus::Alive,
            r.healthy_threshold as int == (if hc.healthy_threshold as int > 1 {
                hc.healthy_threshold as int
            } else {
                1int
            }),
            r.unhealthy_threshold as int == (if hc.unhealthy_threshold as int > 1 {
                hc.unhealthy_threshold as int
            } else {
                1int
            }),
            r.spec_wf(),
    {
        let healthy: u64 = if hc.healthy_threshold > 1 {
            hc.healthy_threshold as u64
        } else {
            1
        };
        let unhealthy: u64 = if hc.unhealthy_threshold > 1 {
            hc.unhealthy_threshold as u64
        } else {
            1
        };
        HealthMonitor {
            up_streak: 0,
            down_streak: 0,
            status: ServerStatus::Alive,
            healthy_threshold: healthy,
            unhealthy_threshold: unhealthy,
        }
    }
}

/// One probe outcome folded into the monitor. A success extends the up
/// streak and clears the down streak; enough consecutive successes turn
/// a non-alive backend alive. A failure (a refused connect, an error or
/// a timeout alike) does the mirror image. Streaks saturate at their
/// threshold once no transition is left to take.
pub open spec fn spec_observe(m: HealthMonitor, ok: bool) -> HealthMonitor {
    if ok {
        let up = if m.up_streak < m.healthy_threshold {
            (m.up_streak + 1) as u64
        } else {
            m.up_streak
        };
        if up >= m.healthy_threshold && m.status != ServerStatus::Alive {
            HealthMonitor { up_streak: 0, down_streak: 0, status: ServerStatus::Alive, ..m }
        } else {
            HealthMonitor { up_streak: up, down_streak: 0, ..m }
        }
    } else {
        let down = if m.down_streak < m.unhealthy_threshold {
            (m.down_streak + 1) as u64
        } else {
            m.down_streak
        };
        if down >= m.unhealthy_threshold && m.status != ServerStatus::Dead {
            HealthMonitor { up_streak: 0, down_streak: 0, status: ServerStatus::Dead, ..m }
        } else {
            HealthMonitor { up_streak: 0, down_streak: down, ..m }
        }
    }
}

impl HealthMonitor {
    /// Folds one probe outcome into the monitor and reports the flag
    /// it now shows.
    pub fn observe(&mut self, ok: bool) -> (r: ServerStatus)
        ensures
            *final(self) == spec_observe(*old(self), ok),
            r == final(self).status,
    {
        if ok {
            if self.up_streak < self.healthy_threshold {
                self.up_streak = self.up_streak + 1;
            }
            self.down_streak = 0;
            if self.up_streak >= self.healthy_threshold && !matches!(
                self.status,
                ServerStatus::Alive,
            ) {
                self.status = ServerStatus::Alive;
                self.up_streak = 0;
            }
        } else {
            if self.down_streak < self.unhealthy_threshold {
                self.down_streak = self.down_streak + 1;
            }
            self.up_streak = 0;
            if self.down_streak >= self.unhealthy_threshold && !matches!(
                self.status,
                ServerStatus::Dead,
            ) {
                self.status = ServerStatus::Dead;
                self.down_streak = 0;
            }
        }
        self.status
    }
}

/// The monitor after a whole stream of probe outcomes, oldest first.
pub open spec fn spec_run(m: HealthMonitor, ev: Seq<bool>) -> HealthMonitor
    decreases ev.len(),
{
    if ev.len() == 0 {
        m
    } else {
        spec_run(spec_observe(m, ev[0]), ev.drop_first())
    }
}

/// A run is the run over all but the last outcome, followed by the
/// last outcome.
proof fn lemma_run_snoc(m: HealthMonitor, ev: Seq<bool>)
    requires
        ev.len() > 0,
    ensures
        spec_run(m, ev) == spec_observe(spec_run(m, ev.drop_last()), ev.last()),
    decreases ev.len(),
{
    if ev.len() == 1 {
        assert(ev.drop_first().len() == 0);
        assert(ev.drop_last().len() == 0);
    } else {
        let m1 = spec_observe(m, ev[0]);
        lemma_run_snoc(m1, ev.drop_first());
        assert(ev.drop_first().drop_last() =~= ev.drop_last().drop_first());
        assert(ev.drop_first().last() == ev.last());
        assert(ev.drop_last()[0] == ev[0]);
        assert(spec_run(m, ev.drop_last()) == spec_run(m1, ev.drop_last().drop_first()));
    }
}

/// One outcome keeps the monitor consistent and its thresholds.
proof fn lemma_observe_wf(m: HealthMonitor, ok: bool)
    requires
        m.spec_wf(),
    ensures
        spec_observe(m, ok).spec_wf(),
        spec_observe(m, ok).healthy_threshold == m.healthy_threshold,
        spec_observe(m, ok).unhealthy_threshold == m.unhealthy_threshold,
{
}

/// A run keeps the monitor consistent and its thresholds.
proof fn lemma_run_wf(m: HealthMonitor, ev: Seq<bool>)
    requires
        m.spec_wf(),
    ensures
        spec_run(m, ev).spec_wf(),
        spec_run(m, ev).healthy_threshold == m.healthy_threshold,
        spec_run(m, ev).unhealthy_threshold == m.unhealthy_threshold,
    decreases ev.len(),
{
    if ev.len() > 0 {
        lemma_observe_wf(m, ev[0]);
        lemma_run_wf(spec_observe(m, ev[0]), ev.drop_first());
    }
}

/// The down streak counts failures at the end of the stream: the last
/// `down_streak` outcomes were all failures.
proof fn lemma_run_trailing_failures(m: HealthMonitor, ev: Seq<bool>)
    requires
        m.down_streak == 0,
    ensures
        spec_run(m, ev).down_streak <= ev.len(),
        forall|j: int|
            ev.len() - spec_run(m, ev).down_streak <= j < ev.len() ==> !ev[j],
    decreases ev.len(),
{
    if ev.len() > 0 {
        let pre = ev.drop_last();
        lemma_run_trailing_failures(m, pre);
        lemma_run_snoc(m, ev);
        let rp = spec_run(m, pre);
        let r = spec_run(m, ev);
        assert(r == spec_observe(rp, ev.last()));
        assert forall|j: int| ev.len() - r.down_streak <= j < ev.len() implies !ev[j] by {
            if j < ev.len() - 1 {
                assert(!pre[j]);
                assert(pre[j] == ev[j]);
            } else {
                assert(ev.last() == ev[j]);
            }
        }
    }
}

/// The up streak counts successes at the end of the stream: the last
/// `up_streak` outcomes were all successes.
proof fn lemma_run_trailing_successes(m: HealthMonitor, ev: Seq<bool>)
    requires
        m.up_streak == 0,
    ensures
        spec_run(m, ev).up_streak <= ev.len(),
        forall|j: int|
            ev.len() - spec_run(m, ev).up_streak <= j < ev.len() ==> ev[j],
    decreases ev.len(),
{
    if ev.len() > 0 {
        let pre = ev.drop_last();
        lemma_run_trailing_successes(m, pre);
        lemma_run_snoc(m, ev);
        let rp = spec_run(m, pre);
        let r = spec_run(m, ev);
        assert(r == spec_observe(rp, ev.last()));
        assert forall|j: int| ev.len() - r.up_streak <= j < ev.len() implies ev[j] by {
            if j < ev.len() - 1 {
                assert(pre[j]);
                assert(pre[j] == ev[j]);
            } else {
                assert(ev.last() == ev[j]);
            }
        }
    }
}

/// The supervisor turns a backend dead only on the heels of
/// `unhealthy_threshold` consecutive failed probes: if the flag is not
/// `Dead` after `i` outcomes and is `Dead` after one more, the last
/// `unhealthy_threshold` outcomes up to and including `ev[i]` all
/// failed.
pub proof fn lemma_dead_needs_failure_streak(m: HealthMonitor, ev: Seq<bool>, i: int)
    requires
        m.spec_wf(),
        m.down_streak == 0,
        0 <= i < ev.len(),
        spec_run(m, ev.take(i)).status != ServerStatus::Dead,
        spec_run(m, ev.take(i + 1)).status == ServerStatus::Dead,
    ensures
        i + 1 >= m.unhealthy_threshold,
        forall|j: int| i + 1 - m.unhealthy_threshold <= j <= i ==> !ev[j],
{
    let pre = ev.take(i);
    let mp = spec_run(m, pre);
    lemma_run_wf(m, pre);
    lemma_run_trailing_failures(m, pre);
    lemma_run_snoc(m, ev.take(i + 1));
    assert(ev.take(i + 1).drop_last() =~= pre);
    assert(ev.take(i + 1).last() == ev[i]);
    assert(spec_run(m, ev.take(i + 1)) == spec_observe(mp, ev[i]));
    assert(!ev[i]);
    assert(mp.down_streak + 1 >= m.unhealthy_threshold);
    assert(mp.down_streak == m.unhealthy_threshold - 1);
    assert forall|j: int| i + 1 - m.unhealthy_threshold <= j <= i implies !ev[j] by {
        if j < i {
            assert(!pre[j]);
            assert(pre[j] == ev[j]);
        }
    }
}

/// The supervisor turns a backend alive only on the heels of
/// `healthy_threshold` consecutive successful probes.
pub proof fn lemma_alive_needs_success_streak(m: HealthMonitor, ev: Seq<bool>, i: int)
    requires
        m.spec_wf(),
        m.up_streak == 0,
        0 <= i < ev.len(),
        spec_run(m, ev.take(i)).status != ServerStatus::Alive,
        spec_run(m, ev.take(i + 1)).status == ServerStatus::Alive,
    ensures
        i + 1 >= m.healthy_threshold,
        forall|j: int| i + 1 - m.healthy_threshold <= j <= i ==> ev[j],
{
    let pre = ev.take(i);
    let mp = spec_run(m, pre);
    lemma_run_wf(m, pre);
    lemma_run_trailing_successes(m, pre);
    lemma_run_snoc(m, ev.take(i + 1));
    assert(ev.take(i + 1).drop_last() =~= pre);
    assert(ev.take(i + 1).last() == ev[i]);
    assert(spec_run(m, ev.take(i + 1)) == spec_observe(mp, ev[i]));
    assert(ev[i]);
    assert(mp.up_streak + 1 >= m.healthy_threshold);
    assert(mp.up_streak == m.healthy_threshold - 1);
    assert forall|j: int| i + 1 - m.healthy_threshold <= j <= i implies ev[j] by {
        if j < i {
            assert(pre[j]);
            assert(pre[j] == ev[j]);
        }
    }
}

} // verus!
