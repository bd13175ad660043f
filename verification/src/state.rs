//! The tracker's state and how it changes: events from background work,
//! frames, the tab list, the stash viewer and the history of snapshots.
use vstd::prelude::*;
use crate::api::string_views;
use crate::interval::SnapshotInterval;
use crate::models::{
    spec_is_disabled, AppConfig, HistoryPoint, PoeItem, PoeStashResponse, PoeStashTabMeta,
    PriceCache,
};
use crate::names::{NameMap, NameSet};
use crate::snapshot::{spec_unit_price_in, unit_price_bits};
use crate::text::{push_decimal, replace_char, spec_decimal, spec_replace_char};

verus! {

/// Results of background work, handed to the state in the order they arrive.
pub enum UpdateEvent {
    Status(String),
    NewHistory(HistoryPoint),
    PricesUpdated(PriceCache),
    LeaguesFetched(Vec<String>),
    TabsFetched(Vec<PoeStashTabMeta>),
    StashTabContent(u32, Vec<PoeItem>),
    /// An image was cached: the key it is looked up by, and the file's path.
    ImageLoaded(String, String),
}

/// The stash tab types that are listed and tracked.
pub open spec fn spec_tab_allowed(tab_type: Seq<char>) -> bool {
    ||| tab_type == "CurrencyStash"@
    ||| tab_type == "EssenceStash"@
    ||| tab_type == "FragmentStash"@
    ||| tab_type == "DelveStash"@
    ||| tab_type == "BlightStash"@
    ||| tab_type == "DeliriumStash"@
    ||| tab_type == "UltimatumStash"@
    ||| tab_type == "DivinationCardStash"@
}

/// Whether tabs of this type are listed and tracked.
pub fn is_allowed_tab_type(tab_type: &str) -> (r: bool)
    ensures
        r == spec_tab_allowed(tab_type@),
{
    let t = String::from_str(tab_type);
    t == String::from_str("CurrencyStash") || t == String::from_str("EssenceStash") || t
        == String::from_str("FragmentStash") || t == String::from_str("DelveStash") || t
        == String::from_str("BlightStash") || t == String::from_str("DeliriumStash") || t
        == String::from_str("UltimatumStash") || t == String::from_str("DivinationCardStash")
}

impl PoeStashTabMeta {
    /// A copy of the tab's description.
    pub fn duplicate(&self) -> (r: Self)
        ensures
            r == *self,
    {
        PoeStashTabMeta { n: self.n.clone(), i: self.i, tab_type: self.tab_type.clone() }
    }
}

impl PoeStashTabMeta {
    /// The tab's entry in the tab list: its name, then its type in parentheses.
    pub fn label(&self) -> (r: String)
        ensures
            r@ == self.n@ + " ("@ + self.tab_type@ + ")"@,
    {
        let mut s = String::from_str(self.n.as_str());
        s.append(" (");
        s.append(self.tab_type.as_str());
        s.append(")");
        s
    }
}

/// Whether a tab is of a listed type.
pub open spec fn tab_is_listed() -> spec_fn(PoeStashTabMeta) -> bool {
    |t: PoeStashTabMeta| spec_tab_allowed(t.tab_type@)
}

/// The tabs of listed types, in order.
pub fn allowed_tabs(tabs: &Vec<PoeStashTabMeta>) -> (r: Vec<PoeStashTabMeta>)
    ensures
        r@ == tabs@.filter(tab_is_listed()),
{
    let mut out: Vec<PoeStashTabMeta> = Vec::new();
    let mut i: usize = 0;
    while i < tabs.len()
        invariant
            i <= tabs@.len(),
            out@ == tabs@.take(i as int).filter(tab_is_listed()),
        decreases tabs@.len() - i,
    {
        proof {
            reveal_with_fuel(Seq::<_>::filter, 1);
            assert(tabs@.take(i + 1).drop_last() =~= tabs@.take(i as int));
        }
        if is_allowed_tab_type(tabs[i].tab_type.as_str()) {
            out.push(tabs[i].duplicate());
        }
        i = i + 1;
    }
    assert(tabs@.take(tabs@.len() as int) =~= tabs@);
    out
}

/// The divine values of the last two points, oldest first, if there are two.
pub open spec fn spec_last_change(history: Seq<HistoryPoint>) -> Option<(u64, u64)> {
    if history.len() >= 2 {
        Some((history[history.len() - 2].total_divine_bits, history.last().total_divine_bits))
    } else {
        None
    }
}

/// Which background work a frame starts.
#[derive(Clone, Copy, Debug, PartialEq, Eq, Structural)]
pub struct FrameActions {
    pub fetch_leagues: bool,
    pub fetch_tabs_and_prices: bool,
    pub take_snapshot: bool,
}

/// What applying events changed that must be saved.
#[derive(Clone, Copy, Debug, PartialEq, Eq, Structural)]
pub struct EventEffects {
    pub history_changed: bool,
    pub image_cache_changed: bool,
}

/// One row of the stash viewer's table, before its total is computed.
pub struct ItemDisplay {
    /// Raw icon URL from the PoE API (the last image-cache lookup key).
    pub icon_url: String,
    /// Display name (the first image-cache lookup key).
    pub ninja_name: String,
    /// Lookup name (the second image-cache lookup key, and the key by which
    /// the item is left out of snapshots).
    pub ninja_base_type: String,
    /// Human-readable name shown in the table.
    pub name: String,
    pub count: u32,
    /// The unit price in chaos, as an `f64` bit pattern.
    pub unit_price_bits: u64,
}

/// The state of the tracker, apart from its windows and background workers.
pub struct AppState {
    pub config: AppConfig,
    pub history: Vec<HistoryPoint>,
    pub prices: Option<PriceCache>,
    pub status_msg: String,
    pub interval: SnapshotInterval,
    pub available_leagues: Vec<String>,
    pub available_tabs: Vec<PoeStashTabMeta>,
    pub selected_view_tab: Option<u32>,
    pub view_tab_items: Vec<PoeItem>,
    /// Image-cache key to the path of the cached file.
    pub image_cache: NameMap<String>,
    /// Keys whose images are being downloaded.
    pub fetching_images: NameSet,
    pub first_frame: bool,
    pub last_tabs_fetched: Option<i64>,
    pub last_auto_snapshot: Option<i64>,
    /// The divine values (`f64` bit patterns) of the last two snapshots,
    /// older first; the tracker shows their difference.
    pub last_snapshot_change: Option<(u64, u64)>,
    /// Set once the content of the selected tab arrived.
    pub view_tab_loaded: bool,
}

/// `b` differs from `a` at most in the groups of fields whose flag is false.
pub open spec fn keeps(
    a: AppState,
    b: AppState,
    status: bool,
    history: bool,
    prices: bool,
    leagues: bool,
    tabs: bool,
    view: bool,
    images: bool,
) -> bool {
    &&& b.config == a.config
    &&& b.interval == a.interval
    &&& b.first_frame == a.first_frame
    &&& b.last_auto_snapshot == a.last_auto_snapshot
    &&& status ==> b.status_msg == a.status_msg
    &&& history ==> b.history == a.history && b.last_snapshot_change == a.last_snapshot_change
    &&& prices ==> b.prices == a.prices
    &&& leagues ==> b.available_leagues == a.available_leagues
    &&& tabs ==> b.available_tabs == a.available_tabs && b.last_tabs_fetched == a.last_tabs_fetched
    &&& view ==> b.selected_view_tab == a.selected_view_tab && b.view_tab_items == a.view_tab_items
        && b.view_tab_loaded == a.view_tab_loaded
    &&& images ==> b.image_cache == a.image_cache && b.fetching_images == a.fetching_images
}

/// `b` differs from `a` at most in its configuration.
pub open spec fn same_but_config(a: AppState, b: AppState) -> bool {
    &&& b.history == a.history
    &&& b.prices == a.prices
    &&& b.status_msg == a.status_msg
    &&& b.interval == a.interval
    &&& b.available_leagues == a.available_leagues
    &&& b.available_tabs == a.available_tabs
    &&& b.selected_view_tab == a.selected_view_tab
    &&& b.view_tab_items == a.view_tab_items
    &&& b.image_cache == a.image_cache
    &&& b.fetching_images == a.fetching_images
    &&& b.first_frame == a.first_frame
    &&& b.last_tabs_fetched == a.last_tabs_fetched
    &&& b.last_auto_snapshot == a.last_auto_snapshot
    &&& b.last_snapshot_change == a.last_snapshot_change
    &&& b.view_tab_loaded == a.view_tab_loaded
}

/// The icons of the viewed items that are neither cached nor being fetched,
/// each once, in order, and the keys being fetched afterwards.
pub open spec fn spec_pending_icons(
    items: Seq<PoeItem>,
    cache: Map<Seq<char>, String>,
    fetching: Set<Seq<char>>,
) -> (Seq<Seq<char>>, Set<Seq<char>>)
    decreases items.len(),
{
    if items.len() == 0 {
        (Seq::empty(), fetching)
    } else {
        let (pending, set) = spec_pending_icons(items.drop_last(), cache, fetching);
        let icon = items.last().icon@;
        if icon.len() > 0 && !cache.contains_key(icon) && !set.contains(icon) {
            (pending.push(icon), set.insert(icon))
        } else {
            (pending, set)
        }
    }
}

/// The path of a cached image: by display name, else by lookup name, else by
/// icon URL.
pub open spec fn spec_cached_image(
    cache: Map<Seq<char>, String>,
    name: Seq<char>,
    base_type: Seq<char>,
    icon_url: Seq<char>,
) -> Option<Seq<char>> {
    if cache.contains_key(name) {
        Some(cache[name]@)
    } else if cache.contains_key(base_type) {
        Some(cache[base_type]@)
    } else if cache.contains_key(icon_url) {
        Some(cache[icon_url]@)
    } else {
        None
    }
}

/// How applying one event changes the state, and what it reports.
pub open spec fn spec_apply_event(a: AppState, b: AppState, event: UpdateEvent, now: i64, r: EventEffects) -> bool {
    match event {
        UpdateEvent::Status(s) => {
            &&& b.status_msg == s
            &&& keeps(a, b, false, true, true, true, true, true, true)
            &&& !r.history_changed && !r.image_cache_changed
        },
        UpdateEvent::NewHistory(p) => {
            &&& b.history@ == a.history@.push(p)
            &&& b.last_snapshot_change == (if a.history@.len() > 0 {
                Some((a.history@.last().total_divine_bits, p.total_divine_bits))
            } else {
                None
            })
            &&& keeps(a, b, true, false, true, true, true, true, true)
            &&& r.history_changed && !r.image_cache_changed
        },
        UpdateEvent::PricesUpdated(p) => {
            &&& b.prices == Some(p)
            &&& keeps(a, b, true, true, false, true, true, true, true)
            &&& !r.history_changed && !r.image_cache_changed
        },
        UpdateEvent::LeaguesFetched(leagues) => {
            &&& b.available_leagues == leagues
            &&& b.status_msg@ == "Leagues fetched"@
            &&& keeps(a, b, false, true, true, false, true, true, true)
            &&& !r.history_changed && !r.image_cache_changed
        },
        UpdateEvent::TabsFetched(tabs) => {
            &&& b.available_tabs@ == tabs@.filter(tab_is_listed())
            &&& b.last_tabs_fetched == Some(now)
            &&& keeps(a, b, true, true, true, true, false, true, true)
            &&& !r.history_changed && !r.image_cache_changed
        },
        UpdateEvent::StashTabContent(idx, items) => {
            &&& (if a.selected_view_tab == Some(idx) {
                b.view_tab_items == items && b.view_tab_loaded
                    && b.selected_view_tab == a.selected_view_tab
            } else {
                b.view_tab_items == a.view_tab_items
                    && b.view_tab_loaded == a.view_tab_loaded
                    && b.selected_view_tab == a.selected_view_tab
            })
            &&& keeps(a, b, true, true, true, true, true, false, true)
            &&& !r.history_changed && !r.image_cache_changed
        },
        UpdateEvent::ImageLoaded(key, path) => {
            &&& b.image_cache@ == a.image_cache@.insert(key@, path)
            &&& b.fetching_images@ == a.fetching_images@.remove(key@)
            &&& keeps(a, b, true, true, true, true, true, true, false)
            &&& !r.history_changed && r.image_cache_changed
        },
    }
}

/// How applying events in order changes the state: each step as one event does.
pub open spec fn spec_apply_events(a: AppState, b: AppState, events: Seq<UpdateEvent>, now: i64) -> bool
    decreases events.len(),
{
    if events.len() == 0 {
        b == a
    } else {
        exists|mid: AppState, r: EventEffects|
            spec_apply_events(a, mid, events.drop_last(), now) && #[trigger] spec_apply_event(
                mid,
                b,
                events.last(),
                now,
                r,
            )
    }
}

proof fn lemma_apply_events_step(
    a: AppState,
    mid: AppState,
    b: AppState,
    events: Seq<UpdateEvent>,
    event: UpdateEvent,
    now: i64,
    r: EventEffects,
)
    requires
        spec_apply_events(a, mid, events, now),
        spec_apply_event(mid, b, event, now, r),
    ensures
        spec_apply_events(a, b, events.push(event), now),
{
    let es = events.push(event);
    assert(es.drop_last() =~= events);
    assert(es.last() == event);
}

impl AppState {
    /// The state at start-up, from what was saved.
    pub fn new(
        config: AppConfig,
        history: Vec<HistoryPoint>,
        prices: Option<PriceCache>,
        image_cache: NameMap<String>,
    ) -> (r: Self)
        ensures
            r.config == config,
            r.history == history,
            r.prices == prices,
            r.image_cache == image_cache,
            r.status_msg@ == "Idle"@,
            r.interval == SnapshotInterval::Manual,
            r.available_leagues@.len() == 0,
            r.available_tabs@.len() == 0,
            r.selected_view_tab is None,
            r.view_tab_items@.len() == 0,
            r.fetching_images@ == Set::<Seq<char>>::empty(),
            r.first_frame,
            r.last_tabs_fetched is None,
            r.last_auto_snapshot is None,
            r.last_snapshot_change is None,
            !r.view_tab_loaded,
    {
        AppState {
            config,
            history,
            prices,
            status_msg: String::from_str("Idle"),
            interval: SnapshotInterval::Manual,
            available_leagues: Vec::new(),
            available_tabs: Vec::new(),
            selected_view_tab: None,
            view_tab_items: Vec::new(),
            image_cache,
            fetching_images: NameSet::new(),
            first_frame: true,
            last_tabs_fetched: None,
            last_auto_snapshot: None,
            last_snapshot_change: None,
            view_tab_loaded: false,
        }
    }

    /// Whether a session id is configured; says so in the status when not.
    pub fn has_session(&mut self) -> (r: bool)
        ensures
            r == (old(self).config.poesessid@.len() > 0),
            keeps(*old(self), *final(self), r, true, true, true, true, true, true),
            !r ==> final(self).status_msg@ == "POESESSID is missing. Configure it."@,
    {
        if self.config.poesessid.as_str().is_empty() {
            self.status_msg = String::from_str("POESESSID is missing. Configure it.");
            false
        } else {
            true
        }
    }

    /// Starts fetching prices.
    pub fn begin_fetch_prices(&mut self)
        ensures
            keeps(*old(self), *final(self), false, true, true, true, true, true, true),
            final(self).status_msg@ == "Fetching ninja prices..."@,
    {
        self.status_msg = String::from_str("Fetching ninja prices...");
    }

    /// Starts fetching the league list.
    pub fn begin_fetch_leagues(&mut self)
        ensures
            keeps(*old(self), *final(self), false, true, true, true, true, true, true),
            final(self).status_msg@ == "Fetching leagues..."@,
    {
        self.status_msg = String::from_str("Fetching leagues...");
    }

    /// Starts fetching the tab list, if a session is configured; says whether.
    pub fn begin_fetch_tabs(&mut self) -> (r: bool)
        ensures
            r == (old(self).config.poesessid@.len() > 0),
            keeps(*old(self), *final(self), false, true, true, true, true, true, true),
            r ==> final(self).status_msg@ == "Fetching stash tabs..."@,
            !r ==> final(self).status_msg@ == "POESESSID is missing. Configure it."@,
    {
        if !self.has_session() {
            return false;
        }
        self.status_msg = String::from_str("Fetching stash tabs...");
        true
    }

    /// Starts fetching the content of a tab, if a session is configured; says whether.
    pub fn begin_fetch_view_tab(&mut self, tab_index: u32) -> (r: bool)
        ensures
            r == (old(self).config.poesessid@.len() > 0),
            keeps(*old(self), *final(self), false, true, true, true, true, true, true),
            r ==> final(self).status_msg@ == "Fetching tab "@ + spec_decimal(tab_index as nat)
                + "..."@,
            !r ==> final(self).status_msg@ == "POESESSID is missing. Configure it."@,
    {
        if !self.has_session() {
            return false;
        }
        let mut s = String::from_str("Fetching tab ");
        push_decimal(&mut s, tab_index as u64);
        s.append("...");
        self.status_msg = s;
        true
    }

    /// Starts a snapshot, if a session is configured; says whether.
    pub fn begin_snapshot(&mut self) -> (r: bool)
        ensures
            r == (old(self).config.poesessid@.len() > 0),
            keeps(*old(self), *final(self), r, true, true, true, true, true, true),
            !r ==> final(self).status_msg@ == "POESESSID is missing. Configure it."@,
    {
        self.has_session()
    }

    /// What a frame starts at `now`, with the status each start sets, in order:
    /// on the first frame the league list, then the tab list and prices when a
    /// session is configured; and a snapshot when one is due by the interval
    /// (its boundary is remembered even when no session lets it start).
    pub fn on_frame(&mut self, now: i64) -> (r: FrameActions)
        ensures
            ({
                let session = old(self).config.poesessid@.len() > 0;
                let due = old(self).interval.spec_auto_snapshot_due(
                    old(self).last_auto_snapshot,
                    now,
                );
                let first_status = if !old(self).first_frame {
                    old(self).status_msg@
                } else if session {
                    "Fetching ninja prices..."@
                } else {
                    "POESESSID is missing. Configure it."@
                };
                &&& r.fetch_leagues == old(self).first_frame
                &&& r.fetch_tabs_and_prices == (old(self).first_frame && session)
                &&& r.take_snapshot == (due is Some && session)
                &&& !final(self).first_frame
                &&& final(self).last_auto_snapshot == (match due {
                    Some(b) => Some(b as i64),
                    None => old(self).last_auto_snapshot,
                })
                &&& final(self).status_msg@ == (if due is Some && !session {
                    "POESESSID is missing. Configure it."@
                } else {
                    first_status
                })
                &&& !old(self).first_frame && due is None ==> final(self).status_msg
                    == old(self).status_msg
            }),
            final(self).config == old(self).config,
            final(self).interval == old(self).interval,
            final(self).history == old(self).history,
            final(self).last_snapshot_change == old(self).last_snapshot_change,
            final(self).prices == old(self).prices,
            final(self).available_leagues == old(self).available_leagues,
            final(self).available_tabs == old(self).available_tabs,
            final(self).view_tab_items == old(self).view_tab_items,
            final(self).image_cache == old(self).image_cache,
            final(self).selected_view_tab == old(self).selected_view_tab,
            final(self).view_tab_loaded == old(self).view_tab_loaded,
            final(self).fetching_images == old(self).fetching_images,
            final(self).last_tabs_fetched == old(self).last_tabs_fetched,
    {
        let mut actions = FrameActions {
            fetch_leagues: false,
            fetch_tabs_and_prices: false,
            take_snapshot: false,
        };
        if self.first_frame {
            self.first_frame = false;
            actions.fetch_leagues = true;
            self.begin_fetch_leagues();
            if self.has_session() {
                actions.fetch_tabs_and_prices = true;
                self.begin_fetch_tabs();
                self.begin_fetch_prices();
            }
        }
        if let Some(boundary) = self.interval.auto_snapshot_due(self.last_auto_snapshot, now) {
            self.last_auto_snapshot = Some(boundary);
            actions.take_snapshot = self.begin_snapshot();
        }
        actions
    }

    /// Applies one event; `now` is when tab lists count as fetched.
    pub fn apply_event(&mut self, event: UpdateEvent, now: i64) -> (r: EventEffects)
        ensures
            spec_apply_event(*old(self), *final(self), event, now, r),
    {
        match event {
            UpdateEvent::Status(s) => {
                self.status_msg = s;
                EventEffects { history_changed: false, image_cache_changed: false }
            },
            UpdateEvent::NewHistory(p) => {
                let n = self.history.len();
                self.last_snapshot_change = if n > 0 {
                    Some((self.history[n - 1].total_divine_bits, p.total_divine_bits))
                } else {
                    None
                };
                self.history.push(p);
                EventEffects { history_changed: true, image_cache_changed: false }
            },
            UpdateEvent::PricesUpdated(p) => {
                self.prices = Some(p);
                EventEffects { history_changed: false, image_cache_changed: false }
            },
            UpdateEvent::LeaguesFetched(leagues) => {
                self.available_leagues = leagues;
                self.status_msg = String::from_str("Leagues fetched");
                EventEffects { history_changed: false, image_cache_changed: false }
            },
            UpdateEvent::TabsFetched(tabs) => {
                self.available_tabs = allowed_tabs(&tabs);
                self.last_tabs_fetched = Some(now);
                EventEffects { history_changed: false, image_cache_changed: false }
            },
            UpdateEvent::StashTabContent(idx, items) => {
                if self.selected_view_tab == Some(idx) {
                    self.view_tab_items = items;
                    self.view_tab_loaded = true;
                }
                EventEffects { history_changed: false, image_cache_changed: false }
            },
            UpdateEvent::ImageLoaded(key, path) => {
                self.fetching_images.remove(key.as_str());
                self.image_cache.insert(key, path);
                EventEffects { history_changed: false, image_cache_changed: true }
            },
        }
    }

    /// Applies the events in order; says whether the history or the image
    /// cache changed (and so must be saved): exactly when a snapshot or an
    /// image arrived.
    pub fn process_events(&mut self, events: Vec<UpdateEvent>, now: i64) -> (r: EventEffects)
        ensures
            r.history_changed == (exists|i: int|
                0 <= i < events@.len() && #[trigger] events@[i] is NewHistory),
            r.image_cache_changed == (exists|i: int|
                0 <= i < events@.len() && #[trigger] events@[i] is ImageLoaded),
            spec_apply_events(*old(self), *final(self), events@, now),
            final(self).config == old(self).config,
            final(self).interval == old(self).interval,
            final(self).last_auto_snapshot == old(self).last_auto_snapshot,
            !r.history_changed ==> final(self).history == old(self).history,
            !r.image_cache_changed ==> final(self).image_cache == old(self).image_cache,
    {
        let mut effects = EventEffects { history_changed: false, image_cache_changed: false };
        let ghost all = events@;
        let mut events = events;
        let ghost start = *self;
        let ghost mut done: int = 0;
        assert(all.take(0) =~= Seq::<UpdateEvent>::empty());
        while events.len() > 0
            invariant
                0 <= done <= all.len(),
                events@ == all.skip(done),
                spec_apply_events(start, *self, all.take(done), now),
                effects.history_changed == (exists|i: int|
                    0 <= i < done && #[trigger] all[i] is NewHistory),
                effects.image_cache_changed == (exists|i: int|
                    0 <= i < done && #[trigger] all[i] is ImageLoaded),
                self.config == start.config,
                self.interval == start.interval,
                self.last_auto_snapshot == start.last_auto_snapshot,
                !effects.history_changed ==> self.history == start.history,
                !effects.image_cache_changed ==> self.image_cache == start.image_cache,
            decreases events@.len(),
        {
            let event = events.remove(0);
            assert(event == all[done]);
            let ghost prev = *self;
            let e = self.apply_event(event, now);
            proof {
                lemma_apply_events_step(start, prev, *self, all.take(done), all[done], now, e);
                assert(all.take(done + 1) =~= all.take(done).push(all[done]));
            }
            effects.history_changed = effects.history_changed || e.history_changed;
            effects.image_cache_changed = effects.image_cache_changed || e.image_cache_changed;
            proof {
                assert(events@ =~= all.skip(done + 1));
                done = done + 1;
            }
        }
        assert(done == all.len());
        assert(all.take(done) =~= all);
        effects
    }

    /// Removes the last snapshot, if there is one; says whether it did.
    pub fn delete_last_snapshot(&mut self) -> (r: bool)
        ensures
            r == (old(self).history@.len() > 0),
            r ==> final(self).history@ == old(self).history@.drop_last()
                && final(self).last_snapshot_change == spec_last_change(final(self).history@)
                && final(self).status_msg@ == "Last snapshot deleted."@,
            keeps(*old(self), *final(self), !r, !r, true, true, true, true, true),
    {
        let n = self.history.len();
        if n == 0 {
            return false;
        }
        self.history.pop();
        self.last_snapshot_change = if n >= 3 {
            Some((self.history[n - 3].total_divine_bits, self.history[n - 2].total_divine_bits))
        } else {
            None
        };
        self.status_msg = String::from_str("Last snapshot deleted.");
        true
    }

    /// Removes every snapshot.
    pub fn wipe_history(&mut self)
        ensures
            final(self).history@.len() == 0,
            final(self).last_snapshot_change is None,
            final(self).status_msg@ == "History wiped."@,
            keeps(*old(self), *final(self), false, false, true, true, true, true, true),
    {
        self.history = Vec::new();
        self.last_snapshot_change = None;
        self.status_msg = String::from_str("History wiped.");
    }

    /// Counts a tab towards wealth snapshots, or stops counting it.
    pub fn set_tab_tracked(&mut self, tab: u32, counted: bool)
        ensures
            counted ==> final(self).config.tracked_tabs@ == (if old(
                self,
            ).config.tracked_tabs@.contains(tab) {
                old(self).config.tracked_tabs@
            } else {
                old(self).config.tracked_tabs@.push(tab)
            }),
            !counted ==> final(self).config.tracked_tabs@ == old(self).config.tracked_tabs@.filter(
                |x: u32| x != tab,
            ),
            final(self).config.tracked_tabs@.contains(tab) == counted,
            final(self).config.disabled_resources == old(self).config.disabled_resources,
            final(self).config.account_name == old(self).config.account_name,
            final(self).config.poesessid == old(self).config.poesessid,
            final(self).config.league == old(self).config.league,
            same_but_config(*old(self), *final(self)),
    {
        let mut tabs: Vec<u32> = Vec::new();
        std::mem::swap(&mut tabs, &mut self.config.tracked_tabs);
        let ghost before = tabs@;
        if counted {
            let mut found = false;
            let mut i: usize = 0;
            while i < tabs.len()
                invariant
                    tabs@ == before,
                    i <= tabs@.len(),
                    found == (exists|j: int| 0 <= j < i && tabs@[j] == tab),
                decreases tabs@.len() - i,
            {
                if tabs[i] == tab {
                    found = true;
                }
                i = i + 1;
            }
            if !found {
                tabs.push(tab);
                assert(tabs@[tabs@.len() - 1] == tab);
            }
        } else {
            let mut kept: Vec<u32> = Vec::new();
            let mut i: usize = 0;
            while i < tabs.len()
                invariant
                    tabs@ == before,
                    i <= tabs@.len(),
                    kept@ == tabs@.take(i as int).filter(|x: u32| x != tab),
                decreases tabs@.len() - i,
            {
                proof {
                    reveal_with_fuel(Seq::<_>::filter, 1);
                    assert(tabs@.take(i + 1).drop_last() =~= tabs@.take(i as int));
                }
                if tabs[i] != tab {
                    kept.push(tabs[i]);
                }
                i = i + 1;
            }
            assert(tabs@.take(tabs@.len() as int) =~= tabs@);
            proof {
                if kept@.contains(tab) {
                    let j = choose|j: int| 0 <= j < kept@.len() && kept@[j] == tab;
                    broadcast use vstd::seq_lib::group_filter_ensures;
                }
            }
            tabs = kept;
        }
        self.config.tracked_tabs = tabs;
    }

    /// Selects a tab for the viewer, empties the viewer, and starts fetching
    /// the tab's content if a session is configured; says whether.
    pub fn select_view_tab(&mut self, tab_index: u32) -> (r: bool)
        ensures
            final(self).selected_view_tab == Some(tab_index),
            final(self).view_tab_items@.len() == 0,
            !final(self).view_tab_loaded,
            r == (old(self).config.poesessid@.len() > 0),
            r ==> final(self).status_msg@ == "Fetching tab "@ + spec_decimal(tab_index as nat)
                + "..."@,
            !r ==> final(self).status_msg@ == "POESESSID is missing. Configure it."@,
            keeps(*old(self), *final(self), false, true, true, true, true, false, true),
    {
        self.selected_view_tab = Some(tab_index);
        self.view_tab_items = Vec::new();
        self.view_tab_loaded = false;
        self.begin_fetch_view_tab(tab_index)
    }

    /// Includes an item of a tab in snapshots, or leaves it out.
    pub fn set_resource_tracked(&mut self, tab: u32, key: String, counted: bool)
        ensures
            spec_is_disabled(final(self).config.disabled_resources@, tab, key@) == !counted,
            final(self).config.disabled_resources@ == old(
                self,
            ).config.disabled_resources@.insert(
                tab,
                if counted {
                    (if old(self).config.disabled_resources@.contains_key(tab) {
                        old(self).config.disabled_resources@[tab]
                    } else {
                        Set::empty()
                    }).remove(key@)
                } else {
                    (if old(self).config.disabled_resources@.contains_key(tab) {
                        old(self).config.disabled_resources@[tab]
                    } else {
                        Set::empty()
                    }).insert(key@)
                },
            ),
            final(self).config.tracked_tabs == old(self).config.tracked_tabs,
            final(self).config.account_name == old(self).config.account_name,
            final(self).config.poesessid == old(self).config.poesessid,
            final(self).config.league == old(self).config.league,
            same_but_config(*old(self), *final(self)),
    {
        self.config.disabled_resources.set_tracked(tab, key, counted);
    }

    /// Whether an item of a tab counts towards snapshots.
    pub fn is_resource_tracked(&self, tab: u32, key: &str) -> (r: bool)
        ensures
            r == !spec_is_disabled(self.config.disabled_resources@, tab, key@),
    {
        !self.config.disabled_resources.is_disabled(tab, key)
    }

    /// The icons of the viewed items to download besides the category icons:
    /// those neither cached nor being fetched, each once; they are marked as
    /// being fetched.
    pub fn take_pending_icons(&mut self) -> (r: Vec<String>)
        ensures
            string_views(r@) == spec_pending_icons(
                old(self).view_tab_items@,
                old(self).image_cache@,
                old(self).fetching_images@,
            ).0,
            final(self).fetching_images@ == spec_pending_icons(
                old(self).view_tab_items@,
                old(self).image_cache@,
                old(self).fetching_images@,
            ).1,
            final(self).status_msg@ == "Fetching all category icons..."@,
            keeps(*old(self), *final(self), false, true, true, true, true, true, false),
            final(self).image_cache == old(self).image_cache,
    {
        let mut pending: Vec<String> = Vec::new();
        let ghost f0 = self.fetching_images@;
        let mut i: usize = 0;
        while i < self.view_tab_items.len()
            invariant
                i <= self.view_tab_items@.len(),
                self.view_tab_items == old(self).view_tab_items,
                self.image_cache == old(self).image_cache,
                f0 == old(self).fetching_images@,
                (string_views(pending@), self.fetching_images@) == spec_pending_icons(
                    self.view_tab_items@.take(i as int),
                    self.image_cache@,
                    f0,
                ),
                keeps(*old(self), *self, true, true, true, true, true, true, false),
            decreases self.view_tab_items@.len() - i,
        {
            let icon = &self.view_tab_items[i].icon;
            proof {
                assert(self.view_tab_items@.take(i + 1).drop_last() =~= self.view_tab_items@.take(
                    i as int,
                ));
            }
            if !icon.as_str().is_empty() && !self.image_cache.contains_key(icon.as_str()) {
                if self.fetching_images.insert(icon.clone()) {
                    pending.push(icon.clone());
                    assert(string_views(pending@) =~= string_views(
                        pending@.drop_last(),
                    ).push(icon@));
                }
            }
            i = i + 1;
        }
        assert(self.view_tab_items@.take(self.view_tab_items@.len() as int)
            =~= self.view_tab_items@);
        self.status_msg = String::from_str("Fetching all category icons...");
        pending
    }

    /// The file URI under which the viewer shows a cached image: looked up by
    /// display name, then lookup name, then icon URL; backslashes become slashes.
    pub fn image_uri(&self, name: &str, base_type: &str, icon_url: &str) -> (r: Option<String>)
        ensures
            match spec_cached_image(self.image_cache@, name@, base_type@, icon_url@) {
                Some(path) => r matches Some(u) && u@ == spec_replace_char(
                    "file://"@ + path,
                    '\\',
                    '/',
                ),
                None => r is None,
            },
    {
        let path = match self.image_cache.get(name) {
            Some(p) => p,
            None => match self.image_cache.get(base_type) {
                Some(p) => p,
                None => match self.image_cache.get(icon_url) {
                    Some(p) => p,
                    None => {
                        return None;
                    },
                },
            },
        };
        let mut uri = String::from_str("file://");
        uri.append(path.as_str());
        Some(replace_char(uri.as_str(), '\\', '/'))
    }

    /// Whether the image of this icon URL is being downloaded.
    pub fn is_fetching_image(&self, icon_url: &str) -> (r: bool)
        ensures
            r == self.fetching_images@.contains(icon_url@),
    {
        self.fetching_images.contains(icon_url)
    }

    /// The rows of the stash viewer, one per viewed item in order.
    pub fn item_rows(&self) -> (r: Vec<ItemDisplay>)
        ensures
            r@.len() == self.view_tab_items@.len(),
            forall|i: int|
                0 <= i < r@.len() ==> {
                    let item = #[trigger] self.view_tab_items@[i];
                    let row = r@[i];
                    &&& row.name@ == item.spec_display_name()
                    &&& row.ninja_name@ == item.spec_display_name()
                    &&& row.ninja_base_type@ == item.spec_lookup_name()
                    &&& row.icon_url@ == item.icon@
                    &&& row.count == item.spec_count()
                    &&& row.unit_price_bits == spec_unit_price_in(self.prices, item)
                },
    {
        let mut rows: Vec<ItemDisplay> = Vec::new();
        let mut i: usize = 0;
        while i < self.view_tab_items.len()
            invariant
                i <= self.view_tab_items@.len(),
                rows@.len() == i,
                forall|j: int|
                    0 <= j < i ==> {
                        let item = #[trigger] self.view_tab_items@[j];
                        let row = rows@[j];
                        &&& row.name@ == item.spec_display_name()
                        &&& row.ninja_name@ == item.spec_display_name()
                        &&& row.ninja_base_type@ == item.spec_lookup_name()
                        &&& row.icon_url@ == item.icon@
                        &&& row.count == item.spec_count()
                        &&& row.unit_price_bits == spec_unit_price_in(self.prices, item)
                    },
            decreases self.view_tab_items@.len() - i,
        {
            let item = &self.view_tab_items[i];
            let count: u32 = match item.stack_size {
                Some(n) => n,
                None => 1,
            };
            let unit = match &self.prices {
                Some(p) => unit_price_bits(&p.prices, item),
                None => 0,
            };
            rows.push(
                ItemDisplay {
                    icon_url: item.icon.clone(),
                    ninja_name: String::from_str(item.display_name()),
                    ninja_base_type: String::from_str(item.lookup_name()),
                    name: String::from_str(item.display_name()),
                    count,
                    unit_price_bits: unit,
                },
            );
            i = i + 1;
        }
        rows
    }
}

/// A snapshot followed by deleting the last snapshot leaves the history as it was.
pub proof fn lemma_snapshot_then_delete_restores(history: Seq<HistoryPoint>, p: HistoryPoint)
    ensures
        history.push(p).drop_last() == history,
        spec_last_change(history.push(p)) == (if history.len() > 0 {
            Some((history.last().total_divine_bits, p.total_divine_bits))
        } else {
            None::<(u64, u64)>
        }),
{
    assert(history.push(p).drop_last() =~= history);
}

/// After a new snapshot arrives, the change the tracker shows is the change
/// between the last two snapshots of the new history: from the snapshot that
/// was last before (when there was one) to the new one.
pub proof fn lemma_new_snapshot_shows_change_since_previous(
    a: AppState,
    b: AppState,
    p: HistoryPoint,
    now: i64,
    r: EventEffects,
)
    requires
        spec_apply_event(a, b, UpdateEvent::NewHistory(p), now, r),
    ensures
        b.history@.last() == p,
        b.history@.len() == a.history@.len() + 1,
        b.history@.drop_last() == a.history@,
        b.last_snapshot_change == spec_last_change(b.history@),
{
    assert(b.history@.drop_last() =~= a.history@);
}

/// When a tab list arrives, the tabs listed are exactly its tabs of the eight
/// supported types (currency, essence, fragment, delve, blight, delirium,
/// ultimatum and divination card stashes), in the order they came, and no
/// other.
pub proof fn lemma_tabs_fetched_lists_supported_types(
    a: AppState,
    b: AppState,
    tabs: Vec<PoeStashTabMeta>,
    now: i64,
    r: EventEffects,
)
    requires
        spec_apply_event(a, b, UpdateEvent::TabsFetched(tabs), now, r),
    ensures
        forall|t: PoeStashTabMeta| #[trigger] b.available_tabs@.contains(t) <==> tabs@.contains(t) && {
            ||| t.tab_type@ == "CurrencyStash"@
            ||| t.tab_type@ == "EssenceStash"@
            ||| t.tab_type@ == "FragmentStash"@
            ||| t.tab_type@ == "DelveStash"@
            ||| t.tab_type@ == "BlightStash"@
            ||| t.tab_type@ == "DeliriumStash"@
            ||| t.tab_type@ == "UltimatumStash"@
            ||| t.tab_type@ == "DivinationCardStash"@
        },
        b.available_tabs@ == tabs@.filter(
            |t: PoeStashTabMeta|
                {
                    ||| t.tab_type@ == "CurrencyStash"@
                    ||| t.tab_type@ == "EssenceStash"@
                    ||| t.tab_type@ == "FragmentStash"@
                    ||| t.tab_type@ == "DelveStash"@
                    ||| t.tab_type@ == "BlightStash"@
                    ||| t.tab_type@ == "DeliriumStash"@
                    ||| t.tab_type@ == "UltimatumStash"@
                    ||| t.tab_type@ == "DivinationCardStash"@
                },
        ),
        b.available_tabs@.len() <= tabs@.len(),
{
    broadcast use vstd::seq_lib::group_filter_ensures;
    let f = tab_is_listed();
    let g = |t: PoeStashTabMeta|
        {
            ||| t.tab_type@ == "CurrencyStash"@
            ||| t.tab_type@ == "EssenceStash"@
            ||| t.tab_type@ == "FragmentStash"@
            ||| t.tab_type@ == "DelveStash"@
            ||| t.tab_type@ == "BlightStash"@
            ||| t.tab_type@ == "DeliriumStash"@
            ||| t.tab_type@ == "UltimatumStash"@
            ||| t.tab_type@ == "DivinationCardStash"@
        };
    assert(f =~= g);
    assert forall|t: PoeStashTabMeta| #[trigger] b.available_tabs@.contains(t) implies tabs@.contains(t)
        && f(t) by {
        tabs@.lemma_filter_contains_rev(f, t);
        let i = choose|i: int| 0 <= i < tabs@.filter(f).len() && tabs@.filter(f)[i] == t;
        assert(f(tabs@.filter(f)[i]));
    }
    assert forall|t: PoeStashTabMeta| tabs@.contains(t) && f(t) implies #[trigger] b.available_tabs@.contains(t) by {
        let i = choose|i: int| 0 <= i < tabs@.len() && tabs@[i] == t;
        assert(tabs@.filter(f).contains(tabs@[i]));
    }
}

// ---------------------------------------------------------------------------
// Outcomes of background work
// ---------------------------------------------------------------------------

/// Whether an event sets the status to `text`.
pub open spec fn is_status(e: UpdateEvent, text: Seq<char>) -> bool {
    match e {
        UpdateEvent::Status(s) => s@ == text,
        _ => false,
    }
}

/// The events of a league-list fetch.
pub fn leagues_outcome(result: Option<Vec<String>>) -> (r: Vec<UpdateEvent>)
    ensures
        match result {
            Some(leagues) => r@.len() == 1 && r@[0] == UpdateEvent::LeaguesFetched(leagues),
            None => r@.len() == 1 && is_status(r@[0], "Failed to fetch leagues"@),
        },
{
    let mut events: Vec<UpdateEvent> = Vec::new();
    match result {
        Some(leagues) => events.push(UpdateEvent::LeaguesFetched(leagues)),
        None => events.push(UpdateEvent::Status(String::from_str("Failed to fetch leagues"))),
    }
    events
}

/// The events of a price fetch that finished at `now`.
pub fn prices_outcome(result: Option<NameMap<u64>>, now: i64) -> (r: Vec<UpdateEvent>)
    ensures
        match result {
            Some(prices) => r@.len() == 2 && r@[0] == UpdateEvent::PricesUpdated(
                PriceCache { last_updated: now, prices },
            ) && is_status(r@[1], "Prices fetched successfully"@),
            None => r@.len() == 1 && is_status(r@[0], "Failed to fetch prices"@),
        },
{
    let mut events: Vec<UpdateEvent> = Vec::new();
    match result {
        Some(prices) => {
            events.push(UpdateEvent::PricesUpdated(PriceCache { last_updated: now, prices }));
            events.push(UpdateEvent::Status(String::from_str("Prices fetched successfully")));
        },
        None => events.push(UpdateEvent::Status(String::from_str("Failed to fetch prices"))),
    }
    events
}

/// The events of a tab-list fetch; an error comes with its text.
pub fn tabs_outcome(result: Result<PoeStashResponse, String>) -> (r: Vec<UpdateEvent>)
    ensures
        match result {
            Ok(stash) => match stash.tabs {
                Some(tabs) => r@.len() == 2 && r@[0] == UpdateEvent::TabsFetched(tabs)
                    && is_status(r@[1], "Tabs fetched successfully"@),
                None => r@.len() == 1 && is_status(r@[0], "No tabs in response"@),
            },
            Err(e) => r@.len() == 1 && is_status(r@[0], "Failed to fetch tabs: "@ + e@),
        },
{
    let mut events: Vec<UpdateEvent> = Vec::new();
    match result {
        Ok(stash) => match stash.tabs {
            Some(tabs) => {
                events.push(UpdateEvent::TabsFetched(tabs));
                events.push(UpdateEvent::Status(String::from_str("Tabs fetched successfully")));
            },
            None => events.push(UpdateEvent::Status(String::from_str("No tabs in response"))),
        },
        Err(e) => {
            let mut s = String::from_str("Failed to fetch tabs: ");
            s.append(e.as_str());
            events.push(UpdateEvent::Status(s));
        },
    }
    events
}

/// The events of a fetch of one tab's content for the viewer.
pub fn view_tab_outcome(tab_index: u32, result: Option<PoeStashResponse>) -> (r: Vec<UpdateEvent>)
    ensures
        match result {
            Some(stash) => r@.len() == 2 && r@[0] == UpdateEvent::StashTabContent(
                tab_index,
                stash.items,
            ) && is_status(r@[1], "Tab content loaded"@),
            None => r@.len() == 1 && is_status(r@[0], "Failed to fetch tab content"@),
        },
{
    let mut events: Vec<UpdateEvent> = Vec::new();
    match result {
        Some(stash) => {
            events.push(UpdateEvent::StashTabContent(tab_index, stash.items));
            events.push(UpdateEvent::Status(String::from_str("Tab content loaded")));
        },
        None => events.push(UpdateEvent::Status(String::from_str("Failed to fetch tab content"))),
    }
    events
}

/// The status after caching icons.
pub fn icons_cached_status(count: usize) -> (r: String)
    ensures
        r@ == "Cached "@ + spec_decimal(count as nat) + " icons."@,
{
    let mut s = String::from_str("Cached ");
    push_decimal(&mut s, count as u64);
    s.append(" icons.");
    s
}

} // verus!
