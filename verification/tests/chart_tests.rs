use greed_of_exile::chart::{
    current_divine_bits, day_axis_label, points_in_window, utc_day_start, wealth_window,
    window_from_day_start,
};
use greed_of_exile::models::HistoryPoint;

fn point(timestamp: i64, divines: f64) -> HistoryPoint {
    HistoryPoint {
        timestamp,
        total_chaos_bits: (divines * 100.0).to_bits(),
        total_divine_bits: divines.to_bits(),
    }
}

#[test]
fn three_day_window_from_utc_midnight() {
    // 2023-11-14 22:13:20 UTC: the window runs from 2023-11-12 00:00 to 2023-11-15 00:00.
    assert_eq!(wealth_window(1_700_000_000), Some((1_699_747_200, 1_700_006_400)));
    assert_eq!(wealth_window(1_699_920_000), Some((1_699_747_200, 1_700_006_400)));
    assert_eq!(wealth_window(-1), Some((-259_200, 0)));
    assert_eq!(wealth_window(i64::MIN), None);
    assert_eq!(window_from_day_start(0), (-172_800, 86_400));
}

#[test]
fn utc_midnights() {
    assert_eq!(utc_day_start(0), 0);
    assert_eq!(utc_day_start(86_399), 0);
    assert_eq!(utc_day_start(86_400), 86_400);
    assert_eq!(utc_day_start(-1), -86_400);
    assert_eq!(utc_day_start(-86_400), -86_400);
    assert_eq!(utc_day_start(-86_401), -172_800);
    assert_eq!(utc_day_start(1_700_000_000), 1_699_920_000);
    for ts in [0i64, 5, 86_399, 1_700_000_000, -1, -86_401, i64::MAX] {
        let expected = chrono::DateTime::from_timestamp(ts, 0)
            .map(|dt| dt.date_naive().and_hms_opt(0, 0, 0).unwrap().and_utc().timestamp());
        if let Some(e) = expected {
            assert_eq!(utc_day_start(ts), e);
        }
    }
}

#[test]
fn window_is_three_days() {
    for now in [0i64, 1_700_000_000, -5, 123_456_789] {
        let (start, end) = wealth_window(now).unwrap();
        assert_eq!(end - start, 3 * 86_400);
        assert!(start <= now && now < end);
        assert_eq!(end, utc_day_start(now) + 86_400);
    }
    assert_eq!(wealth_window(i64::MAX), None);
}

#[test]
fn points_in_window_keep_bounds() {
    let history = vec![point(5, 1.0), point(10, 2.0), point(15, 3.0), point(20, 4.0), point(25, 5.0)];
    let inside = points_in_window(&history, 10, 20);
    assert_eq!(inside, vec![point(10, 2.0), point(15, 3.0), point(20, 4.0)]);
    assert!(points_in_window(&history, 30, 40).is_empty());
}

#[test]
fn current_wealth_is_the_last_point() {
    assert_eq!(f64::from_bits(current_divine_bits(&vec![point(1, 1.5), point(2, 2.5)])), 2.5);
    assert_eq!(f64::from_bits(current_divine_bits(&vec![])), 0.0);
}

#[test]
fn axis_labels() {
    assert_eq!(day_axis_label(0), "2 Days Ago");
    assert_eq!(day_axis_label(1), "Yesterday");
    assert_eq!(day_axis_label(2), "Today");
    assert_eq!(day_axis_label(3), "");
    assert_eq!(day_axis_label(-1), "");
}
