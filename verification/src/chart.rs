//! The wealth chart: its three-day window, the points in it, the current
//! wealth, and the day labels of its axis.
use vstd::prelude::*;
use crate::models::{HistoryPoint, ZERO_PRICE_BITS};
use vstd::arithmetic::div_mod::{lemma_fundamental_div_mod, lemma_fundamental_div_mod_converse_mod};

verus! {

/// Seconds in a day.
pub const DAY_SECS: i64 = 86400;

/// The start of the UTC day of a Unix timestamp.
pub open spec fn spec_utc_day_start(ts: int) -> int {
    ts - ts % 86400
}

/// The start of the UTC day of a Unix timestamp: midnight of its date, as
/// chrono's `date_naive().and_hms_opt(0, 0, 0)` then `and_utc().timestamp()` gives it
/// (a timestamp counts non-leap seconds, so every day has 86400).
pub fn utc_day_start(ts: i64) -> (r: i64)
    requires
        ts >= i64::MIN + DAY_SECS,
    ensures
        r == spec_utc_day_start(ts as int),
{
    let rem = ts % DAY_SECS;
    proof {
        if ts >= 0 {
            assert(rem == ts as int % 86400);
        } else {
            lemma_fundamental_div_mod(-ts, 86400);
            lemma_fundamental_div_mod(ts as int, 86400);
            assert(0 <= (-ts) % 86400 < 86400);
            assert(0 <= (ts as int) % 86400 < 86400);
            assert(rem == -((-ts) % 86400));
            if rem == 0 {
                lemma_fundamental_div_mod_converse_mod(ts as int, 86400, -((-ts) / 86400), 0);
            } else {
                lemma_fundamental_div_mod_converse_mod(
                    ts as int,
                    86400,
                    -((-ts) / 86400) - 1,
                    86400 + rem,
                );
            }
        }
    }
    if rem < 0 {
        ts - (rem + DAY_SECS)
    } else {
        ts - rem
    }
}

/// The chart window from the start of the UTC day that holds `now`: from
/// midnight two days before to midnight after.
pub open spec fn spec_window_from_day_start(day_start: int) -> (int, int) {
    (day_start - 2 * 86400, day_start - 2 * 86400 + 3 * 86400)
}

/// The chart window of the day that starts at `day_start`.
pub fn window_from_day_start(day_start: i64) -> (r: (i64, i64))
    requires
        i64::MIN + 2 * 86400 <= day_start <= i64::MAX - 86400,
    ensures
        (r.0 as int, r.1 as int) == spec_window_from_day_start(day_start as int),
{
    let start = day_start - 2 * DAY_SECS;
    (start, start + 3 * DAY_SECS)
}

/// The chart window at `now`: midnight UTC two days ago to midnight tonight;
/// `None` only where the window does not fit in an `i64`.
pub fn wealth_window(now: i64) -> (r: Option<(i64, i64)>)
    ensures
        ({
            let w = spec_window_from_day_start(spec_utc_day_start(now as int));
            match r {
                Some(x) => (x.0 as int, x.1 as int) == w,
                None => w.0 < i64::MIN || w.1 > i64::MAX,
            }
        }),
{
    if now < i64::MIN + DAY_SECS {
        proof {
            lemma_fundamental_div_mod(now as int, 86400);
            assert(0 <= (now as int) % 86400 < 86400);
        }
        return None;
    }
    let day_start = utc_day_start(now);
    proof {
        lemma_fundamental_div_mod(now as int, 86400);
        assert(0 <= (now as int) % 86400 < 86400);
    }
    if day_start >= i64::MIN + 2 * DAY_SECS && day_start <= i64::MAX - DAY_SECS {
        Some(window_from_day_start(day_start))
    } else {
        None
    }
}

/// The chart spans three whole UTC days and ends at the midnight after `now`,
/// so `now` lies in its last day.
pub proof fn lemma_window_spans_three_days_to_tonight(now: int)
    ensures
        ({
            let (start, end) = spec_window_from_day_start(spec_utc_day_start(now));
            &&& end - start == 3 * 86400
            &&& end - 86400 <= now < end
            &&& start % 86400 == 0
        }),
{
    lemma_fundamental_div_mod(now, 86400);
    assert(0 <= now % 86400 < 86400);
    let d = spec_utc_day_start(now);
    assert(d == 86400 * (now / 86400));
    lemma_fundamental_div_mod_converse_mod(d - 2 * 86400, 86400, now / 86400 - 2, 0);
}

/// Whether a point lies in the window, bounds included.
pub open spec fn in_window(start: i64, end: i64) -> spec_fn(HistoryPoint) -> bool {
    |p: HistoryPoint| start <= p.timestamp <= end
}

/// The history points within the window, in order.
pub fn points_in_window(history: &Vec<HistoryPoint>, start: i64, end: i64) -> (r: Vec<HistoryPoint>)
    ensures
        r@ == history@.filter(in_window(start, end)),
{
    let mut out: Vec<HistoryPoint> = Vec::new();
    let mut i: usize = 0;
    while i < history.len()
        invariant
            i <= history@.len(),
            out@ == history@.take(i as int).filter(in_window(start, end)),
        decreases history@.len() - i,
    {
        let p = history[i];
        proof {
            reveal_with_fuel(Seq::<_>::filter, 1);
            assert(history@.take(i + 1).drop_last() =~= history@.take(i as int));
        }
        if start <= p.timestamp && p.timestamp <= end {
            out.push(p);
        }
        i = i + 1;
    }
    assert(history@.take(history@.len() as int) =~= history@);
    out
}

/// The wealth shown above the chart: the divine value of the last point, or zero.
pub fn current_divine_bits(points: &Vec<HistoryPoint>) -> (r: u64)
    ensures
        r == (if points@.len() > 0 {
            points@.last().total_divine_bits
        } else {
            ZERO_PRICE_BITS
        }),
{
    if points.len() > 0 {
        points[points.len() - 1].total_divine_bits
    } else {
        ZERO_PRICE_BITS
    }
}

/// The label of a whole day on the chart's axis, counted from the window's start.
pub open spec fn spec_day_axis_label(day: i64) -> Seq<char> {
    if day == 0 {
        "2 Days Ago"@
    } else if day == 1 {
        "Yesterday"@
    } else if day == 2 {
        "Today"@
    } else {
        Seq::empty()
    }
}

/// The label of a whole day on the chart's axis, counted from the window's start.
pub fn day_axis_label(day: i64) -> (r: String)
    ensures
        r@ == spec_day_axis_label(day),
{
    if day == 0 {
        String::from_str("2 Days Ago")
    } else if day == 1 {
        String::from_str("Yesterday")
    } else if day == 2 {
        String::from_str("Today")
    } else {
        String::new()
    }
}

} // verus!
