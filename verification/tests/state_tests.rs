use greed_of_exile::interval::SnapshotInterval;
use greed_of_exile::models::{AppConfig, HistoryPoint, PoeItem, PoeStashResponse, PoeStashTabMeta, PriceCache};
use greed_of_exile::names::NameMap;
use greed_of_exile::state::{
    allowed_tabs, icons_cached_status, is_allowed_tab_type, leagues_outcome, prices_outcome,
    tabs_outcome, view_tab_outcome, AppState, EventEffects, FrameActions, UpdateEvent,
};

fn state_with_session(sessid: &str) -> AppState {
    let mut config = AppConfig::new();
    config.poesessid = sessid.to_string();
    AppState::new(config, Vec::new(), None, NameMap::new())
}

fn point(timestamp: i64, divines: f64) -> HistoryPoint {
    HistoryPoint { timestamp, total_chaos_bits: 0, total_divine_bits: divines.to_bits() }
}

fn tab(n: &str, i: u32, tab_type: &str) -> PoeStashTabMeta {
    PoeStashTabMeta { n: n.to_string(), i, tab_type: tab_type.to_string() }
}

fn item(type_line: &str, icon: &str, stack: Option<u32>) -> PoeItem {
    PoeItem {
        type_line: type_line.to_string(),
        name: String::new(),
        stack_size: stack,
        base_type: String::new(),
        icon: icon.to_string(),
    }
}

#[test]
fn start_up_state() {
    let s = state_with_session("");
    assert_eq!(s.status_msg, "Idle");
    assert_eq!(s.interval, SnapshotInterval::Manual);
    assert!(s.first_frame);
    assert_eq!(s.last_snapshot_change, None);
}

#[test]
fn missing_session_is_reported() {
    let mut s = state_with_session("");
    assert!(!s.has_session());
    assert_eq!(s.status_msg, "POESESSID is missing. Configure it.");
    assert!(!s.begin_fetch_tabs());
    assert!(!s.begin_snapshot());
    let mut t = state_with_session("abc");
    assert!(t.has_session());
    assert_eq!(t.status_msg, "Idle");
    assert!(t.begin_fetch_tabs());
    assert_eq!(t.status_msg, "Fetching stash tabs...");
    t.begin_fetch_prices();
    assert_eq!(t.status_msg, "Fetching ninja prices...");
    t.begin_fetch_leagues();
    assert_eq!(t.status_msg, "Fetching leagues...");
    assert!(t.begin_fetch_view_tab(7));
    assert_eq!(t.status_msg, "Fetching tab 7...");
}

#[test]
fn first_frame_starts_fetches_once() {
    let mut s = state_with_session("abc");
    let a = s.on_frame(1000);
    assert_eq!(a, FrameActions { fetch_leagues: true, fetch_tabs_and_prices: true, take_snapshot: false });
    assert_eq!(s.status_msg, "Fetching ninja prices...");
    let b = s.on_frame(1001);
    assert_eq!(b, FrameActions { fetch_leagues: false, fetch_tabs_and_prices: false, take_snapshot: false });
    let mut t = state_with_session("");
    let c = t.on_frame(1000);
    assert_eq!(c, FrameActions { fetch_leagues: true, fetch_tabs_and_prices: false, take_snapshot: false });
    assert_eq!(t.status_msg, "POESESSID is missing. Configure it.");
}

#[test]
fn frames_take_interval_snapshots_once_per_period() {
    let mut s = state_with_session("abc");
    s.interval = SnapshotInterval::M30;
    assert!(s.on_frame(1000).take_snapshot);
    assert_eq!(s.status_msg, "Fetching ninja prices...");
    assert_eq!(s.last_auto_snapshot, Some(0));
    assert!(!s.on_frame(1500).take_snapshot);
    assert!(s.on_frame(1800).take_snapshot);
    assert_eq!(s.last_auto_snapshot, Some(1800));
    let mut t = state_with_session("");
    t.interval = SnapshotInterval::H1;
    t.first_frame = false;
    assert!(!t.on_frame(7200).take_snapshot);
    assert_eq!(t.last_auto_snapshot, Some(7200));
    assert_eq!(t.status_msg, "POESESSID is missing. Configure it.");
}

#[test]
fn new_history_records_the_change() {
    let mut s = state_with_session("abc");
    let e = s.apply_event(UpdateEvent::NewHistory(point(1, 10.0)), 0);
    assert_eq!(e, EventEffects { history_changed: true, image_cache_changed: false });
    assert_eq!(s.last_snapshot_change, None);
    s.apply_event(UpdateEvent::NewHistory(point(2, 12.5)), 0);
    assert_eq!(s.last_snapshot_change, Some((10.0f64.to_bits(), 12.5f64.to_bits())));
    assert_eq!(s.history.len(), 2);
}

#[test]
fn deleting_snapshots() {
    let mut s = state_with_session("abc");
    assert!(!s.delete_last_snapshot());
    assert_eq!(s.status_msg, "Idle");
    for (i, d) in [1.0, 2.0, 4.0].iter().enumerate() {
        s.apply_event(UpdateEvent::NewHistory(point(i as i64, *d)), 0);
    }
    assert!(s.delete_last_snapshot());
    assert_eq!(s.status_msg, "Last snapshot deleted.");
    assert_eq!(s.history, vec![point(0, 1.0), point(1, 2.0)]);
    assert_eq!(s.last_snapshot_change, Some((1.0f64.to_bits(), 2.0f64.to_bits())));
    assert!(s.delete_last_snapshot());
    assert_eq!(s.last_snapshot_change, None);
    s.wipe_history();
    assert!(s.history.is_empty());
    assert_eq!(s.status_msg, "History wiped.");
}

#[test]
fn snapshot_then_delete_restores_history() {
    let mut s = state_with_session("abc");
    s.apply_event(UpdateEvent::NewHistory(point(0, 1.0)), 0);
    let before = s.history.clone();
    s.apply_event(UpdateEvent::NewHistory(point(1, 3.0)), 0);
    s.delete_last_snapshot();
    assert_eq!(s.history, before);
}

#[test]
fn only_supported_tab_types_are_listed() {
    assert!(is_allowed_tab_type("CurrencyStash"));
    assert!(is_allowed_tab_type("DivinationCardStash"));
    assert!(!is_allowed_tab_type("PremiumStash"));
    assert!(!is_allowed_tab_type("MapStash"));
    let tabs = vec![
        tab("Currency", 0, "CurrencyStash"),
        tab("Dump", 1, "PremiumStash"),
        tab("Frags", 2, "FragmentStash"),
        tab("Quad", 3, "QuadStash"),
        tab("Ess", 4, "EssenceStash"),
    ];
    let kept: Vec<u32> = allowed_tabs(&tabs).iter().map(|t| t.i).collect();
    assert_eq!(kept, vec![0, 2, 4]);
    let mut s = state_with_session("abc");
    s.apply_event(UpdateEvent::TabsFetched(tabs), 1234);
    assert_eq!(s.available_tabs.len(), 3);
    assert_eq!(s.last_tabs_fetched, Some(1234));
    assert_eq!(s.available_tabs[1].label(), "Frags (FragmentStash)");
}

#[test]
fn tab_content_only_for_the_selected_tab() {
    let mut s = state_with_session("abc");
    assert!(s.select_view_tab(3));
    assert_eq!(s.status_msg, "Fetching tab 3...");
    s.apply_event(UpdateEvent::StashTabContent(4, vec![item("Chaos Orb", "", None)]), 0);
    assert!(!s.view_tab_loaded);
    assert!(s.view_tab_items.is_empty());
    s.apply_event(UpdateEvent::StashTabContent(3, vec![item("Chaos Orb", "", None)]), 0);
    assert!(s.view_tab_loaded);
    assert_eq!(s.view_tab_items.len(), 1);
    assert!(!state_with_session("").select_view_tab(1));
}

#[test]
fn other_events() {
    let mut s = state_with_session("abc");
    s.apply_event(UpdateEvent::Status(String::from("hello")), 0);
    assert_eq!(s.status_msg, "hello");
    s.apply_event(UpdateEvent::LeaguesFetched(vec![String::from("Standard")]), 0);
    assert_eq!(s.available_leagues, vec![String::from("Standard")]);
    assert_eq!(s.status_msg, "Leagues fetched");
    s.apply_event(UpdateEvent::PricesUpdated(PriceCache { last_updated: 9, prices: NameMap::new() }), 0);
    assert_eq!(s.prices.as_ref().map(|p| p.last_updated), Some(9));
}

#[test]
fn images_loaded_update_the_cache() {
    let mut s = state_with_session("abc");
    s.view_tab_items = vec![
        item("Chaos Orb", "/a.png", None),
        item("Divine Orb", "/b.png", None),
        item("Chaos Orb", "/a.png", None),
        item("Blank", "", None),
    ];
    s.image_cache.insert(String::from("/b.png"), String::from("C:\\cache\\b.png"));
    let pending = s.take_pending_icons();
    assert_eq!(pending, vec![String::from("/a.png")]);
    assert_eq!(s.status_msg, "Fetching all category icons...");
    assert!(s.is_fetching_image("/a.png"));
    assert!(s.take_pending_icons().is_empty());
    let effects = s.process_events(
        vec![
            UpdateEvent::Status(String::from("x")),
            UpdateEvent::ImageLoaded(String::from("/a.png"), String::from("/cache/a.png")),
        ],
        0,
    );
    assert_eq!(effects, EventEffects { history_changed: false, image_cache_changed: true });
    assert!(!s.is_fetching_image("/a.png"));
    assert_eq!(s.image_uri("Chaos Orb", "Chaos Orb", "/a.png").as_deref(), Some("file:///cache/a.png"));
    assert_eq!(s.image_uri("Divine Orb", "Divine Orb", "/b.png").as_deref(), Some("file://C:/cache/b.png"));
    assert_eq!(s.image_uri("Blank", "Blank", ""), None);
    let none = s.process_events(vec![UpdateEvent::Status(String::from("y"))], 0);
    assert_eq!(none, EventEffects { history_changed: false, image_cache_changed: false });
}

#[test]
fn image_uri_prefers_name_then_base_type_then_url() {
    let mut s = state_with_session("abc");
    s.image_cache.insert(String::from("url"), String::from("u.png"));
    assert_eq!(s.image_uri("name", "base", "url").as_deref(), Some("file://u.png"));
    s.image_cache.insert(String::from("base"), String::from("b.png"));
    assert_eq!(s.image_uri("name", "base", "url").as_deref(), Some("file://b.png"));
    s.image_cache.insert(String::from("name"), String::from("n.png"));
    assert_eq!(s.image_uri("name", "base", "url").as_deref(), Some("file://n.png"));
}

#[test]
fn tracking_tabs() {
    let mut s = state_with_session("abc");
    s.set_tab_tracked(3, true);
    s.set_tab_tracked(5, true);
    s.set_tab_tracked(3, true);
    assert_eq!(s.config.tracked_tabs, vec![3, 5]);
    s.set_tab_tracked(3, false);
    assert_eq!(s.config.tracked_tabs, vec![5]);
    s.set_tab_tracked(7, false);
    assert_eq!(s.config.tracked_tabs, vec![5]);
}

#[test]
fn tracking_resources() {
    let mut s = state_with_session("abc");
    assert!(s.is_resource_tracked(1, "Scarab"));
    s.set_resource_tracked(1, String::from("Scarab"), false);
    assert!(!s.is_resource_tracked(1, "Scarab"));
    assert!(s.is_resource_tracked(2, "Scarab"));
    s.set_resource_tracked(1, String::from("Scarab"), true);
    assert!(s.is_resource_tracked(1, "Scarab"));
}

#[test]
fn item_rows_price_items() {
    let mut s = state_with_session("abc");
    s.view_tab_items = vec![
        PoeItem {
            type_line: String::from("Superior Ruby Ring"),
            name: String::from("Storm Loop"),
            stack_size: None,
            base_type: String::from("Ruby Ring"),
            icon: String::from("/ring.png"),
        },
        item("Chaos Orb", "/c.png", Some(40)),
    ];
    let rows = s.item_rows();
    assert_eq!(rows.len(), 2);
    assert_eq!(rows[0].name, "Storm Loop");
    assert_eq!(rows[0].ninja_name, "Storm Loop");
    assert_eq!(rows[0].ninja_base_type, "Ruby Ring");
    assert_eq!(rows[0].icon_url, "/ring.png");
    assert_eq!(rows[0].count, 1);
    assert_eq!(rows[0].unit_price_bits, 0);
    let mut prices = NameMap::new();
    prices.insert(String::from("Chaos Orb"), 1.0f64.to_bits());
    prices.insert(String::from("Storm Loop"), 3.0f64.to_bits());
    s.prices = Some(PriceCache { last_updated: 0, prices });
    let rows = s.item_rows();
    assert_eq!(f64::from_bits(rows[0].unit_price_bits), 3.0);
    assert_eq!(rows[1].count, 40);
    assert_eq!(f64::from_bits(rows[1].unit_price_bits), 1.0);
}

fn status_of(e: &UpdateEvent) -> Option<&str> {
    match e {
        UpdateEvent::Status(s) => Some(s.as_str()),
        _ => None,
    }
}

#[test]
fn outcomes_of_background_work() {
    let l = leagues_outcome(Some(vec![String::from("Standard")]));
    assert!(matches!(&l[..], [UpdateEvent::LeaguesFetched(v)] if v == &vec![String::from("Standard")]));
    let l = leagues_outcome(None);
    assert_eq!(status_of(&l[0]), Some("Failed to fetch leagues"));

    let p = prices_outcome(Some(NameMap::new()), 77);
    assert_eq!(p.len(), 2);
    assert!(matches!(&p[0], UpdateEvent::PricesUpdated(c) if c.last_updated == 77));
    assert_eq!(status_of(&p[1]), Some("Prices fetched successfully"));
    assert_eq!(status_of(&prices_outcome(None, 0)[0]), Some("Failed to fetch prices"));

    let with_tabs = PoeStashResponse { error: None, tabs: Some(vec![tab("A", 0, "CurrencyStash")]), items: vec![] };
    let t = tabs_outcome(Ok(with_tabs));
    assert!(matches!(&t[0], UpdateEvent::TabsFetched(v) if v.len() == 1));
    assert_eq!(status_of(&t[1]), Some("Tabs fetched successfully"));
    let no_tabs = PoeStashResponse { error: None, tabs: None, items: vec![] };
    assert_eq!(status_of(&tabs_outcome(Ok(no_tabs))[0]), Some("No tabs in response"));
    assert_eq!(
        status_of(&tabs_outcome(Err(String::from("API Error (1): x")))[0]),
        Some("Failed to fetch tabs: API Error (1): x")
    );

    let content = PoeStashResponse { error: None, tabs: None, items: vec![item("Chaos Orb", "", None)] };
    let v = view_tab_outcome(4, Some(content));
    assert!(matches!(&v[0], UpdateEvent::StashTabContent(4, items) if items.len() == 1));
    assert_eq!(status_of(&v[1]), Some("Tab content loaded"));
    assert_eq!(status_of(&view_tab_outcome(4, None)[0]), Some("Failed to fetch tab content"));

    assert_eq!(icons_cached_status(0), "Cached 0 icons.");
    assert_eq!(icons_cached_status(312), "Cached 312 icons.");
}
