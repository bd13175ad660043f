use greed_of_exile::api::DIVINE_ORB_FALLBACK_BITS;
use greed_of_exile::models::{AppConfig, PoeItem, PriceCache};
use greed_of_exile::names::NameMap;
use greed_of_exile::snapshot::{divine_price_bits, prices_stale, tab_contributions, unit_price_bits};

fn item(type_line: &str, name: &str, base_type: &str, stack: Option<u32>) -> PoeItem {
    PoeItem {
        type_line: type_line.to_string(),
        name: name.to_string(),
        stack_size: stack,
        base_type: base_type.to_string(),
        icon: String::new(),
    }
}

fn prices(pairs: &[(&str, f64)]) -> NameMap<u64> {
    let mut m = NameMap::new();
    for (k, v) in pairs {
        m.insert(k.to_string(), v.to_bits());
    }
    m
}

#[test]
fn staleness_after_a_day() {
    assert!(prices_stale(&None, 0));
    let cache = Some(PriceCache { last_updated: 1000, prices: NameMap::new() });
    assert!(!prices_stale(&cache, 1000 + 86400));
    assert!(prices_stale(&cache, 1000 + 86401));
    assert!(!prices_stale(&cache, 0));
    let old = Some(PriceCache { last_updated: i64::MIN, prices: NameMap::new() });
    assert!(prices_stale(&old, i64::MAX));
}

#[test]
fn unit_price_lookup_order() {
    let p = prices(&[("Ruby Ring", 2.0), ("Headhunter", 9000.0)]);
    assert_eq!(f64::from_bits(unit_price_bits(&p, &item("Superior Ruby Ring", "", "Ruby Ring", None))), 2.0);
    assert_eq!(f64::from_bits(unit_price_bits(&p, &item("Leather Belt", "Headhunter", "Leather Belt", None))), 9000.0);
    assert_eq!(f64::from_bits(unit_price_bits(&p, &item("Unknown", "", "", None))), 0.0);
}

#[test]
fn contributions_skip_disabled_items() {
    let mut config = AppConfig::new();
    config.disabled_resources.set_tracked(2, String::from("Scarab"), false);
    let items = vec![
        item("Chaos Orb", "", "", Some(12)),
        item("Gilded Scarab", "", "Scarab", Some(3)),
        item("Divine Orb", "", "", None),
    ];
    let p = prices(&[("Chaos Orb", 1.0), ("Divine Orb", 180.0), ("Scarab", 4.0)]);
    let c = tab_contributions(&config, 2, &items, &p);
    assert_eq!(c, vec![(1.0f64.to_bits(), 12), (180.0f64.to_bits(), 1)]);
    let other_tab = tab_contributions(&config, 5, &items, &p);
    assert_eq!(other_tab.len(), 3);
    assert_eq!(other_tab[1], (4.0f64.to_bits(), 3));
}

#[test]
fn divine_price_with_fallback() {
    assert_eq!(divine_price_bits(&None), DIVINE_ORB_FALLBACK_BITS);
    let none = Some(PriceCache { last_updated: 0, prices: prices(&[("Chaos Orb", 1.0)]) });
    assert_eq!(divine_price_bits(&none), DIVINE_ORB_FALLBACK_BITS);
    let some = Some(PriceCache { last_updated: 0, prices: prices(&[("Divine Orb", 175.5)]) });
    assert_eq!(f64::from_bits(divine_price_bits(&some)), 175.5);
}

use greed_of_exile::snapshot::{SnapshotAction, SnapshotPhase, SnapshotRun};

fn status(s: &str) -> SnapshotAction {
    SnapshotAction::Status(s.to_string())
}

#[test]
fn run_with_fresh_prices_fetches_each_tab_then_records() {
    let mut run = SnapshotRun::new(vec![4, 1], false);
    assert_eq!(run.next_action(), status("Checking prices..."));
    run.status_shown();
    assert_eq!(run.next_action(), status("Fetching stash tabs..."));
    run.status_shown();
    assert_eq!(run.next_action(), SnapshotAction::FetchTab(4));
    run.tab_fetched(true);
    assert_eq!(run.next_action(), SnapshotAction::FetchTab(1));
    run.tab_fetched(true);
    assert_eq!(run.next_action(), SnapshotAction::Record);
}

#[test]
fn run_with_stale_prices_fetches_them_first() {
    let mut run = SnapshotRun::new(vec![], true);
    run.status_shown();
    assert_eq!(run.next_action(), SnapshotAction::FetchPrices);
    run.prices_fetched(true);
    assert_eq!(run.next_action(), status("Fetching stash tabs..."));
    run.status_shown();
    assert_eq!(run.next_action(), SnapshotAction::Record);
}

#[test]
fn run_stops_at_the_first_failure() {
    let mut run = SnapshotRun::new(vec![1, 2], true);
    run.status_shown();
    run.prices_fetched(false);
    assert_eq!(run.phase, SnapshotPhase::Failed(true));
    assert_eq!(run.next_action(), SnapshotAction::Abort("Failed to fetch prices".to_string()));

    let mut run = SnapshotRun::new(vec![1, 2], false);
    run.status_shown();
    run.status_shown();
    run.tab_fetched(false);
    assert_eq!(
        run.next_action(),
        SnapshotAction::Abort("Error fetching stash tabs. Check settings.".to_string())
    );
    run.tab_fetched(true);
    assert_eq!(run.phase, SnapshotPhase::Failed(false));
}
