//! Automatic snapshots: interval periods, the next boundary, whether a
//! snapshot is due, and the snapshot button's countdown.
use vstd::prelude::*;
use vstd::arithmetic::div_mod::{
    lemma_div_is_ordered, lemma_fundamental_div_mod, lemma_fundamental_div_mod_converse_div,
};
use vstd::arithmetic::mul::lemma_mul_inequality;
use crate::text::{push_decimal, spec_decimal};

verus! {

/// Integer division rounding toward zero, as `/` on `i64` does.
pub open spec fn trunc_div(a: int, b: int) -> int {
    if a >= 0 {
        a / b
    } else {
        -((-a) / b)
    }
}

/// How often snapshots are taken by themselves.
#[derive(PartialEq, Eq, Clone, Copy, Debug, Structural)]
pub enum SnapshotInterval {
    Manual,
    M30,
    H1,
    H2,
    H4,
}

impl SnapshotInterval {
    /// The period in seconds, or `None` for manual snapshots.
    pub open spec fn spec_period_secs(self) -> Option<i64> {
        match self {
            SnapshotInterval::Manual => None,
            SnapshotInterval::M30 => Some(1800i64),
            SnapshotInterval::H1 => Some(3600i64),
            SnapshotInterval::H2 => Some(7200i64),
            SnapshotInterval::H4 => Some(14400i64),
        }
    }

    /// The period in seconds, or `None` for manual snapshots.
    pub fn period_secs(self) -> (r: Option<i64>)
        ensures
            r == self.spec_period_secs(),
    {
        match self {
            SnapshotInterval::Manual => None,
            SnapshotInterval::M30 => Some(1800i64),
            SnapshotInterval::H1 => Some(3600i64),
            SnapshotInterval::H2 => Some(7200i64),
            SnapshotInterval::H4 => Some(14400i64),
        }
    }

    /// The first period boundary after the one at or before `now` (counting
    /// from the epoch, rounding toward zero as `i64` division does).
    pub open spec fn spec_next_snapshot_time(self, now: i64) -> Option<int> {
        match self.spec_period_secs() {
            None => None,
            Some(p) => Some((trunc_div(now as int, p as int) + 1) * p),
        }
    }

    /// The Unix timestamp at which the next interval boundary after `now`
    /// falls: `None` for manual snapshots, and where that boundary does not
    /// fit in an `i64`.
    pub fn next_snapshot_time(self, now: i64) -> (r: Option<i64>)
        ensures
            match self.spec_next_snapshot_time(now) {
                Some(t) => if t <= i64::MAX {
                    r == Some(t as i64)
                } else {
                    r is None
                },
                None => r is None,
            },
    {
        match self.period_secs() {
            None => None,
            Some(period) => {
                let q = now / period;
                proof {
                    assert(q == trunc_div(now as int, period as int));
                    lemma_trunc_div_bounds(now as int, period as int);
                    assert((q + 1) * period == q * period + period) by (nonlinear_arith);
                }
                let boundary = q * period;
                if boundary > i64::MAX - period {
                    None
                } else {
                    Some(boundary + period)
                }
            },
        }
    }

    /// The name of the interval, as the tracker shows it.
    pub open spec fn spec_label(self) -> Seq<char> {
        match self {
            SnapshotInterval::Manual => "Manual"@,
            SnapshotInterval::M30 => "30 minutes"@,
            SnapshotInterval::H1 => "1 hour"@,
            SnapshotInterval::H2 => "2 hours"@,
            SnapshotInterval::H4 => "4 hours"@,
        }
    }

    /// The name of the interval, as the tracker shows it (its `Display`).
    pub fn label(self) -> (r: String)
        ensures
            r@ == self.spec_label(),
    {
        match self {
            SnapshotInterval::Manual => String::from_str("Manual"),
            SnapshotInterval::M30 => String::from_str("30 minutes"),
            SnapshotInterval::H1 => String::from_str("1 hour"),
            SnapshotInterval::H2 => String::from_str("2 hours"),
            SnapshotInterval::H4 => String::from_str("4 hours"),
        }
    }

    /// The boundary at which an automatic snapshot is due at `now`, if one
    /// is: the last boundary at or before `now`, when no snapshot was taken
    /// yet or the last one was taken at an earlier boundary.
    pub open spec fn spec_auto_snapshot_due(self, last_auto_snapshot: Option<i64>, now: i64) -> Option<
        int,
    > {
        match self.spec_period_secs() {
            None => None,
            Some(p) => {
                let boundary = trunc_div(now as int, p as int) * p;
                match last_auto_snapshot {
                    Some(ts) => if ts < boundary {
                        Some(boundary)
                    } else {
                        None
                    },
                    None => Some(boundary),
                }
            },
        }
    }

    /// The boundary at which an automatic snapshot is due at `now`, if one is.
    pub fn auto_snapshot_due(self, last_auto_snapshot: Option<i64>, now: i64) -> (r: Option<i64>)
        ensures
            match self.spec_auto_snapshot_due(last_auto_snapshot, now) {
                Some(b) => r == Some(b as i64),
                None => r is None,
            },
    {
        match self.period_secs() {
            None => None,
            Some(period) => {
                let q = now / period;
                proof {
                    assert(q == trunc_div(now as int, period as int));
                    lemma_trunc_div_bounds(now as int, period as int);
                }
                let boundary = q * period;
                match last_auto_snapshot {
                    Some(ts) => if ts < boundary {
                        Some(boundary)
                    } else {
                        None
                    },
                    None => Some(boundary),
                }
            },
        }
    }
}

/// Rounding toward zero moves a multiple of `p` at most `p - 1` toward zero.
pub proof fn lemma_trunc_div_bounds(now: int, p: int)
    requires
        p > 0,
    ensures
        now >= 0 ==> 0 <= trunc_div(now, p) * p <= now < trunc_div(now, p) * p + p,
        now < 0 ==> trunc_div(now, p) * p - p < now <= trunc_div(now, p) * p <= 0,
{
    if now >= 0 {
        lemma_fundamental_div_mod(now, p);
        assert(0 <= now % p < p);
        assert(now / p >= 0) by (nonlinear_arith)
            requires
                now >= 0,
                p > 0,
                now == p * (now / p) + (now % p),
                0 <= now % p < p,
        ;
        let q = trunc_div(now, p);
        assert(q == now / p);
        assert(q * p == p * (now / p)) by (nonlinear_arith)
            requires
                q == now / p,
        ;
        assert(0 <= trunc_div(now, p) * p) by (nonlinear_arith)
            requires
                now / p >= 0,
                p > 0,
                trunc_div(now, p) * p == p * (now / p),
        ;
    } else {
        lemma_fundamental_div_mod(-now, p);
        assert(0 <= (-now) % p < p);
        assert((-now) / p >= 0) by (nonlinear_arith)
            requires
                -now > 0,
                p > 0,
                -now == p * ((-now) / p) + ((-now) % p),
                0 <= (-now) % p < p,
        ;
        let q = trunc_div(now, p);
        assert(q == -((-now) / p));
        assert(q * p == -(p * ((-now) / p))) by (nonlinear_arith)
            requires
                q == -((-now) / p),
        ;
        assert(0 <= p * ((-now) / p)) by (nonlinear_arith)
            requires
                (-now) / p >= 0,
                p > 0,
        ;
    }
}

/// From a non-negative time on, the next boundary lies strictly after `now`
/// and at most one period later, and is a multiple of the period.
pub proof fn lemma_next_snapshot_time_bounds(interval: SnapshotInterval, now: i64)
    requires
        now >= 0,
        interval.spec_period_secs() is Some,
    ensures
        ({
            let p = interval.spec_period_secs()->0 as int;
            let t = interval.spec_next_snapshot_time(now)->0;
            now < t <= now + p && t % p == 0
        }),
{
    let p = interval.spec_period_secs()->0 as int;
    lemma_fundamental_div_mod(now as int, p);
    let q = now as int / p;
    assert(0 <= now as int % p < p);
    assert((q + 1) * p == q * p + p) by (nonlinear_arith);
    lemma_fundamental_div_mod_converse_div((q + 1) * p, p, q + 1, 0);
    lemma_fundamental_div_mod(((q + 1) * p), p);
}

/// Automatic snapshots are taken once per period: once the snapshot due at
/// `now` is taken, none is due again before the next boundary, and one is due
/// at that boundary.
pub proof fn lemma_auto_snapshot_once_per_period(
    interval: SnapshotInterval,
    last_auto_snapshot: Option<i64>,
    now: i64,
    later: i64,
)
    requires
        now >= 0,
        interval.spec_auto_snapshot_due(last_auto_snapshot, now) is Some,
        now <= later,
        later < interval.spec_auto_snapshot_due(last_auto_snapshot, now)->0
            + interval.spec_period_secs()->0,
    ensures
        ({
            let b = interval.spec_auto_snapshot_due(last_auto_snapshot, now)->0;
            let p = interval.spec_period_secs()->0 as int;
            &&& interval.spec_auto_snapshot_due(Some(b as i64), later) is None
            &&& (b + p <= i64::MAX ==> interval.spec_auto_snapshot_due(Some(b as i64), (b + p) as i64)
                == Some(b + p))
        }),
{
    let p = interval.spec_period_secs()->0 as int;
    let q = now as int / p;
    lemma_fundamental_div_mod(now as int, p);
    assert(0 <= now as int % p < p);
    let b = q * p;
    assert(interval.spec_auto_snapshot_due(last_auto_snapshot, now)->0 == b);
    assert(q >= 0) by (nonlinear_arith)
        requires
            now >= 0,
            p > 0,
            q == now as int / p,
    ;
    assert(b >= 0) by (nonlinear_arith)
        requires
            q >= 0,
            p > 0,
            b == q * p,
    ;
    lemma_fundamental_div_mod_converse_div(later as int, p, q, later - b);
    assert((q + 1) * p == b + p) by (nonlinear_arith)
        requires
            b == q * p,
    ;
    lemma_fundamental_div_mod_converse_div(b + p, p, q + 1, 0);
}

/// The boundary at or before `now` that automatic snapshots are counted by.
pub open spec fn spec_boundary(now: int, p: int) -> int {
    trunc_div(now, p) * p
}

/// At any time, before 1970 too: the boundary never moves back as the clock
/// moves on, and once the snapshot due at `now` is taken, none is due again
/// until the clock reaches a later boundary; so the remembered boundary never
/// decreases and at most one automatic snapshot is taken per boundary.
pub proof fn lemma_auto_snapshot_once_per_boundary(
    interval: SnapshotInterval,
    last_auto_snapshot: Option<i64>,
    now: i64,
    later: i64,
)
    requires
        interval.spec_period_secs() is Some,
        now <= later,
    ensures
        ({
            let p = interval.spec_period_secs()->0 as int;
            &&& spec_boundary(now as int, p) <= spec_boundary(later as int, p)
            &&& interval.spec_auto_snapshot_due(last_auto_snapshot, now) matches Some(b) ==> {
                &&& b == spec_boundary(now as int, p)
                &&& interval.spec_auto_snapshot_due(Some(b as i64), later) is Some
                    <==> spec_boundary(later as int, p) > b
                &&& interval.spec_auto_snapshot_due(Some(b as i64), later) matches Some(b2) ==> b < b2
            }
        }),
{
    let p = interval.spec_period_secs()->0 as int;
    let a = now as int;
    let c = later as int;
    if a >= 0 {
        lemma_div_is_ordered(a, c, p);
    } else if c < 0 {
        lemma_div_is_ordered(-c, -a, p);
    } else {
        assert((-a) / p >= 0) by {
            lemma_div_is_ordered(0, -a, p);
        }
        assert(c / p >= 0) by {
            lemma_div_is_ordered(0, c, p);
        }
    }
    assert(trunc_div(a, p) <= trunc_div(c, p));
    lemma_mul_inequality(trunc_div(a, p), trunc_div(c, p), p);
    lemma_trunc_div_bounds(a, p);
}

/// The snapshot button's countdown to `next`, as the tracker shows it.
pub open spec fn spec_countdown_label(diff: int) -> Seq<char> {
    "Take snapshot ("@ + spec_decimal((diff / 60) as nat) + "m "@ + spec_decimal((diff % 60) as nat)
        + "s)"@
}

/// The countdown to a boundary `t` still ahead of `now` shows whole minutes
/// and the seconds left over: the minutes times sixty plus the seconds are the
/// time left, and the seconds are under a minute.
pub proof fn lemma_countdown_adds_up_to_time_left(t: int, now: int)
    requires
        t > now,
    ensures
        exists|minutes: nat, seconds: nat|
            seconds < 60 && minutes * 60 + seconds == t - now && #[trigger] spec_decimal(minutes)
                + "m "@ + #[trigger] spec_decimal(seconds) + "s)"@ == spec_countdown_label(t - now).skip(
                15,
            ),
        spec_countdown_label(t - now).take(15) == "Take snapshot ("@,
{
    let diff = t - now;
    let minutes = (diff / 60) as nat;
    let seconds = (diff % 60) as nat;
    reveal_strlit("Take snapshot (");
    let label = spec_countdown_label(diff);
    let head = "Take snapshot ("@;
    let tail = spec_decimal(minutes) + "m "@ + spec_decimal(seconds) + "s)"@;
    assert(label =~= head + tail);
    assert(head.len() == 15);
    assert(label.skip(15) =~= tail);
    assert(label.take(15) =~= head);
    assert(minutes * 60 + seconds == diff);
}

/// The snapshot button's text at `now`, and whether it counts down (and so
/// must be redrawn each second): a countdown while the next boundary lies
/// ahead, "Take Snapshot" otherwise.
pub fn snapshot_button_label(next: Option<i64>, now: i64) -> (r: (String, bool))
    requires
        next matches Some(t) ==> i64::MIN <= t - now <= i64::MAX,
    ensures
        match next {
            Some(t) if t - now > 0 => r.1 && r.0@ == spec_countdown_label(t - now),
            _ => !r.1 && r.0@ == "Take Snapshot"@,
        },
{
    if let Some(t) = next {
        let diff = t - now;
        if diff > 0 {
            let mut s = String::from_str("Take snapshot (");
            push_decimal(&mut s, (diff / 60) as u64);
            s.append("m ");
            push_decimal(&mut s, (diff % 60) as u64);
            s.append("s)");
            return (s, true);
        }
    }
    (String::from_str("Take Snapshot"), false)
}

} // verus!
