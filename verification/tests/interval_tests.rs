use greed_of_exile::interval::{snapshot_button_label, SnapshotInterval};

const ALL: [SnapshotInterval; 5] = [
    SnapshotInterval::Manual,
    SnapshotInterval::M30,
    SnapshotInterval::H1,
    SnapshotInterval::H2,
    SnapshotInterval::H4,
];

#[test]
fn periods() {
    assert_eq!(SnapshotInterval::Manual.period_secs(), None);
    assert_eq!(SnapshotInterval::M30.period_secs(), Some(1800));
    assert_eq!(SnapshotInterval::H1.period_secs(), Some(3600));
    assert_eq!(SnapshotInterval::H2.period_secs(), Some(7200));
    assert_eq!(SnapshotInterval::H4.period_secs(), Some(14400));
}

#[test]
fn labels() {
    let labels: Vec<String> = ALL.iter().map(|i| i.label()).collect();
    assert_eq!(labels, vec!["Manual", "30 minutes", "1 hour", "2 hours", "4 hours"]);
}

#[test]
fn next_boundary_after_now() {
    assert_eq!(SnapshotInterval::M30.next_snapshot_time(1000), Some(1800));
    assert_eq!(SnapshotInterval::M30.next_snapshot_time(1800), Some(3600));
    assert_eq!(SnapshotInterval::H1.next_snapshot_time(1_700_000_000), Some(1_700_002_800));
    assert_eq!(SnapshotInterval::Manual.next_snapshot_time(1000), None);
    // before the epoch, division rounds toward zero
    assert_eq!(SnapshotInterval::M30.next_snapshot_time(-5), Some(1800));
    assert_eq!(SnapshotInterval::M30.next_snapshot_time(-1800), Some(0));
}

#[test]
fn next_boundary_bounds_law() {
    for interval in ALL.iter().skip(1) {
        let p = interval.period_secs().unwrap();
        for now in [0i64, 1, 1799, 1800, 86_399, 1_700_000_000] {
            let t = interval.next_snapshot_time(now).unwrap();
            assert!(now < t && t <= now + p && t % p == 0);
        }
    }
}

#[test]
fn next_boundary_that_does_not_fit_is_none() {
    assert_eq!(SnapshotInterval::H4.next_snapshot_time(i64::MAX), None);
    let last: i64 = 9_223_372_036_854_775_800;
    assert_eq!(SnapshotInterval::M30.next_snapshot_time(last), None);
    assert_eq!(SnapshotInterval::M30.next_snapshot_time(i64::MAX - 1000), Some(last));
    assert_eq!(SnapshotInterval::M30.next_snapshot_time(last - 1), Some(last));
    assert_eq!(SnapshotInterval::M30.next_snapshot_time(i64::MIN), Some(-9_223_372_036_854_774_000));
}

#[test]
fn boundaries_never_move_back_before_1970_either() {
    let i = SnapshotInterval::H1;
    let mut last = None;
    let mut taken = Vec::new();
    for now in (-10_000i64..10_000).step_by(500) {
        if let Some(b) = i.auto_snapshot_due(last, now) {
            assert!(last.map_or(true, |l| l < b));
            last = Some(b);
            taken.push(b);
        }
    }
    assert_eq!(taken, vec![-7200, -3600, 0, 3600, 7200]);
}

#[test]
fn auto_snapshot_once_per_period() {
    let i = SnapshotInterval::M30;
    assert_eq!(i.auto_snapshot_due(None, 1000), Some(0));
    assert_eq!(i.auto_snapshot_due(Some(0), 1000), None);
    assert_eq!(i.auto_snapshot_due(Some(0), 1799), None);
    assert_eq!(i.auto_snapshot_due(Some(0), 1800), Some(1800));
    assert_eq!(i.auto_snapshot_due(Some(1800), 3599), None);
    assert_eq!(SnapshotInterval::Manual.auto_snapshot_due(None, 1000), None);
}

#[test]
fn snapshot_button_counts_down() {
    assert_eq!(snapshot_button_label(Some(1900), 1000), (String::from("Take snapshot (15m 0s)"), true));
    assert_eq!(snapshot_button_label(Some(1061), 1000), (String::from("Take snapshot (1m 1s)"), true));
    assert_eq!(snapshot_button_label(Some(1001), 1000), (String::from("Take snapshot (0m 1s)"), true));
    assert_eq!(snapshot_button_label(Some(1000), 1000), (String::from("Take Snapshot"), false));
    assert_eq!(snapshot_button_label(None, 1000), (String::from("Take Snapshot"), false));
}
