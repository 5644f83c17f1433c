use crate::constants::{NANOS_PER_SEC, SLEEP_THRESHOLD_NANOS};
use vstd::arithmetic::div_mod::{
    lemma_div_pos_is_pos, lemma_fundamental_div_mod, lemma_fundamental_div_mod_converse_mod,
};
use vstd::prelude::*;

verus! {

/// The pacing throttle: converts a target instruction rate into
/// real-time delays despite a sleep primitive whose granularity
/// exceeds the per-instruction duty cycle. Surplus time is accumulated
/// as a debt and slept off in one batch once it passes a threshold;
/// cycles that ran slow spend the accumulated surplus instead.
///
/// The throttle itself never reads a clock or sleeps: each call to
/// [`Sleeper::sleep`] is handed the measured duration of the cycle
/// that just finished and returns how long the caller should now
/// sleep, so the policy is deterministic and fully specified.
/// All durations are in nanoseconds.
#[derive(Clone, Copy, Debug, PartialEq, Eq, Structural)]
pub struct Sleeper {
    /// Target duration of one instruction cycle.
    pub duty_cycle: u64,
    /// Debt below which sleeping is deferred.
    pub threshold: u64,
    /// Accumulated surplus time owed to sleeping.
    pub debt: u64,
}

/// What one throttle call does: the successor state and the duration
/// to sleep (zero for no sleep). A fast cycle banks the shortfall; a
/// slow cycle spends debt to absorb the overrun, clamping at zero;
/// banked debt above the threshold is slept off whole and reset.
pub open spec fn throttle_step(s: Sleeper, elapsed: u64) -> (Sleeper, u64)
    recommends
        s.wf(),
{
    if elapsed < s.duty_cycle {
        let d = (s.debt + s.duty_cycle - elapsed) as u64;
        if d > s.threshold {
            (Sleeper { debt: 0, ..s }, d)
        } else {
            (Sleeper { debt: d, ..s }, 0u64)
        }
    } else {
        let slowdown = (elapsed - s.duty_cycle) as u64;
        if s.debt >= slowdown {
            (Sleeper { debt: (s.debt - slowdown) as u64, ..s }, 0u64)
        } else {
            (Sleeper { debt: 0, ..s }, 0u64)
        }
    }
}

/// The throttle after `k` calls that each measured zero elapsed time,
/// paired with the sleep duration the `k`-th call returned.
pub open spec fn throttle_iter(s: Sleeper, k: nat) -> (Sleeper, u64)
    decreases k,
{
    if k == 0 {
        (s, 0u64)
    } else {
        throttle_step(throttle_iter(s, (k - 1) as nat).0, 0u64)
    }
}

impl Sleeper {
    /// The throttle's invariant: the debt never exceeds the threshold
    /// between calls, and both bounds fit comfortably in nanoseconds,
    /// which keeps every internal sum far from overflow.
    pub open spec fn wf(self) -> bool {
        &&& self.debt <= self.threshold
        &&& self.threshold <= NANOS_PER_SEC
        &&& self.duty_cycle <= NANOS_PER_SEC
    }

    /// A throttle with no target rate yet: it never asks for a sleep.
    pub fn new() -> (r: Sleeper)
        ensures
            r.wf(),
            r.duty_cycle == 0,
            r.threshold == SLEEP_THRESHOLD_NANOS,
            r.debt == 0,
    {
        Sleeper { duty_cycle: 0, threshold: SLEEP_THRESHOLD_NANOS, debt: 0 }
    }

    /// The same throttle aiming at `hz` instructions per second.
    pub fn with_frequency(self, hz: u32) -> (r: Sleeper)
        requires
            self.wf(),
            hz >= 1,
        ensures
            r.wf(),
            r.duty_cycle == NANOS_PER_SEC / (hz as u64),
            r.threshold == self.threshold,
            r.debt == self.debt,
    {
        Sleeper { duty_cycle: NANOS_PER_SEC / (hz as u64), ..self }
    }

    /// One throttle call, handed the measured duration of the cycle
    /// that just finished; returns how long to sleep now (zero for not
    /// at all), exactly as `throttle_step` prescribes.
    pub fn sleep(&mut self, elapsed: u64) -> (r: u64)
        requires
            old(self).wf(),
        ensures
            final(self).wf(),
            ((*final(self), r) == throttle_step(*old(self), elapsed)),
    {
        if elapsed < self.duty_cycle {
            let d = self.debt + (self.duty_cycle - elapsed);
            if d > self.threshold {
                self.debt = 0;
                d
            } else {
                self.debt = d;
                0
            }
        } else {
            let slowdown = elapsed - self.duty_cycle;
            if self.debt >= slowdown {
                self.debt = self.debt - slowdown;
            } else {
                self.debt = 0;
            }
            0
        }
    }
}

/// Law: under a fixed positive duty cycle `d`, calls that complete
/// near-instantaneously make the debt climb by exactly `d` per call,
/// and writing `m` for the first call count whose accumulated debt
/// `m * d` exceeds the threshold, every `m`-th call returns a sleep of
/// exactly the accumulated `m * d` and resets the debt to zero; no
/// other call sleeps.
pub proof fn lemma_throttle_convergence(s: Sleeper, k: nat)
    requires
        s.wf(),
        s.debt == 0,
        s.duty_cycle > 0,
    ensures
        ({
            let d = s.duty_cycle as int;
            let m = s.threshold as int / d + 1;
            let (sk, rk) = throttle_iter(s, k);
            &&& sk.duty_cycle == s.duty_cycle
            &&& sk.threshold == s.threshold
            &&& sk.debt == (k % (m as nat)) * d
            &&& rk == if k > 0 && k % (m as nat) == 0 {
                m * d
            } else {
                0
            }
        }),
    decreases k,
{
    let d = s.duty_cycle as int;
    let th = s.threshold as int;
    let m = th / d + 1;
    lemma_fundamental_div_mod(th, d);
    lemma_div_pos_is_pos(th, d);
    assert(m >= 1);
    assert((th / d) * d <= th && th < m * d && m * d <= th + d) by (nonlinear_arith)
        requires d > 0, m == th / d + 1, th == d * (th / d) + th % d, 0 <= th % d < d;
    if k == 0 {
        assert(0int % m == 0) by (nonlinear_arith)
            requires m > 0;
    } else {
        lemma_throttle_convergence(s, (k - 1) as nat);
        let sp = throttle_iter(s, (k - 1) as nat).0;
        let (sk, rk) = throttle_iter(s, k);
        assert((sk, rk) == throttle_step(sp, 0u64));
        let r = (k - 1) as int % m;
        assert(sp.debt == r * d);
        lemma_fundamental_div_mod((k - 1) as int, m);
        let q = (k - 1) as int / m;
        assert(0 <= r < m);
        if r + 1 < m {
            assert(k as int == q * m + (r + 1)) by (nonlinear_arith)
                requires (k - 1) as int == m * q + r;
            lemma_fundamental_div_mod_converse_mod(k as int, m, q, r + 1);
            assert(k as int % m == r + 1);
            // The banked debt stays at or below the threshold: no sleep.
            assert((r + 1) * d <= (th / d) * d) by (nonlinear_arith)
                requires d > 0, r + 1 <= th / d;
            assert(sp.debt + d == (r + 1) * d) by (nonlinear_arith)
                requires sp.debt == r * d;
            assert(sk.debt == (k % (m as nat)) * d);
            assert(rk == 0);
        } else {
            assert(k as int == (q + 1) * m + 0) by (nonlinear_arith)
                requires (k - 1) as int == m * q + r, r + 1 == m;
            lemma_fundamental_div_mod_converse_mod(k as int, m, q + 1, 0);
            assert(k as int % m == 0);
            // The banked debt passes the threshold: sleep it all off.
            assert(sp.debt + d == m * d) by (nonlinear_arith)
                requires sp.debt == (m - 1) * d;
            assert(sk.debt == (k % (m as nat)) * d);
            assert(rk == m * d);
        }
    }
}

} // verus!
