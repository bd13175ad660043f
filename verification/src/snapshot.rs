//! What a wealth snapshot counts: price freshness, the price of each item,
//! and the items of a tab that count with their stack sizes.
use vstd::prelude::*;
use crate::api::DIVINE_ORB_FALLBACK_BITS;
use crate::models::{spec_is_disabled, AppConfig, PoeItem, PriceCache, ZERO_PRICE_BITS};
use crate::names::NameMap;

verus! {

/// How long fetched prices stay fresh, in seconds.
pub const PRICE_MAX_AGE_SECS: i64 = 86400;

/// Prices are stale when there are none or they are more than a day old.
pub open spec fn spec_prices_stale(prices: Option<PriceCache>, now: i64) -> bool {
    match prices {
        None => true,
        Some(p) => now - p.last_updated > PRICE_MAX_AGE_SECS,
    }
}

/// Whether the prices must be fetched again before a snapshot.
pub fn prices_stale(prices: &Option<PriceCache>, now: i64) -> (r: bool)
    ensures
        r == spec_prices_stale(*prices, now),
{
    match prices {
        None => true,
        Some(p) => (now as i128) - (p.last_updated as i128) > PRICE_MAX_AGE_SECS as i128,
    }
}

/// The unit price of an item: by its lookup name, else by its display name,
/// else zero.
pub open spec fn spec_unit_price(prices: Map<Seq<char>, u64>, item: PoeItem) -> u64 {
    if prices.contains_key(item.spec_lookup_name()) {
        prices[item.spec_lookup_name()]
    } else if prices.contains_key(item.spec_display_name()) {
        prices[item.spec_display_name()]
    } else {
        ZERO_PRICE_BITS
    }
}

/// The unit price of an item in chaos, as an `f64` bit pattern.
pub fn unit_price_bits(prices: &NameMap<u64>, item: &PoeItem) -> (r: u64)
    ensures
        r == spec_unit_price(prices@, *item),
{
    match prices.get(item.lookup_name()) {
        Some(p) => *p,
        None => match prices.get(item.display_name()) {
            Some(p) => *p,
            None => ZERO_PRICE_BITS,
        },
    }
}

/// The unit price of an item under prices that may be missing (then zero).
pub open spec fn spec_unit_price_in(prices: Option<PriceCache>, item: PoeItem) -> u64 {
    match prices {
        Some(p) => spec_unit_price(p.prices@, item),
        None => ZERO_PRICE_BITS,
    }
}

/// For each item of a tab that counts towards wealth, in order, its unit
/// price and how many there are; items left out for the tab are skipped.
pub open spec fn spec_tab_contributions(
    disabled: Map<u32, Set<Seq<char>>>,
    tab: u32,
    items: Seq<PoeItem>,
    prices: Map<Seq<char>, u64>,
) -> Seq<(u64, u32)>
    decreases items.len(),
{
    if items.len() == 0 {
        Seq::empty()
    } else {
        let rest = spec_tab_contributions(disabled, tab, items.drop_last(), prices);
        let item = items.last();
        if spec_is_disabled(disabled, tab, item.spec_lookup_name()) {
            rest
        } else {
            rest.push((spec_unit_price(prices, item), item.spec_count()))
        }
    }
}

/// For each item of a tab that counts towards wealth, its unit price and how
/// many there are; the snapshot total is the sum of their products.
pub fn tab_contributions(
    config: &AppConfig,
    tab: u32,
    items: &Vec<PoeItem>,
    prices: &NameMap<u64>,
) -> (r: Vec<(u64, u32)>)
    ensures
        r@ == spec_tab_contributions(config.disabled_resources@, tab, items@, prices@),
{
    let mut out: Vec<(u64, u32)> = Vec::new();
    let mut i: usize = 0;
    while i < items.len()
        invariant
            i <= items@.len(),
            out@ == spec_tab_contributions(
                config.disabled_resources@,
                tab,
                items@.take(i as int),
                prices@,
            ),
        decreases items@.len() - i,
    {
        let item = &items[i];
        assert(items@.take(i + 1).drop_last() =~= items@.take(i as int));
        assert(items@.take(i + 1).last() == *item);
        if !config.disabled_resources.is_disabled(tab, item.lookup_name()) {
            let count: u32 = match item.stack_size {
                Some(n) => n,
                None => 1,
            };
            out.push((unit_price_bits(prices, item), count));
        }
        i = i + 1;
    }
    assert(items@.take(items@.len() as int) =~= items@);
    out
}

/// The Divine Orb price that converts the chaos total into divines.
pub open spec fn spec_divine_price(prices: Option<PriceCache>) -> u64 {
    match prices {
        Some(p) => if p.prices@.contains_key("Divine Orb"@) {
            p.prices@["Divine Orb"@]
        } else {
            DIVINE_ORB_FALLBACK_BITS
        },
        None => DIVINE_ORB_FALLBACK_BITS,
    }
}

/// The Divine Orb price in chaos, as an `f64` bit pattern, with a fallback.
pub fn divine_price_bits(prices: &Option<PriceCache>) -> (r: u64)
    ensures
        r == spec_divine_price(*prices),
{
    match prices {
        Some(p) => match p.prices.get("Divine Orb") {
            Some(d) => *d,
            None => DIVINE_ORB_FALLBACK_BITS,
        },
        None => DIVINE_ORB_FALLBACK_BITS,
    }
}

} // verus!

verus! {

/// Where a snapshot run stands.
#[derive(Clone, Copy, Debug, PartialEq, Eq, Structural)]
pub enum SnapshotPhase {
    /// About to say that prices are checked.
    Start,
    /// Prices are stale and being fetched.
    FetchingPrices,
    /// About to say that stash tabs are fetched.
    AnnounceTabs,
    /// Fetching the tracked tab at this position.
    Tabs(usize),
    /// A fetch failed: prices (`true`) or a tab (`false`).
    Failed(bool),
}

/// What a snapshot run does next.
#[derive(Clone, Debug, PartialEq, Eq)]
pub enum SnapshotAction {
    /// Show this status and go on.
    Status(String),
    /// Fetch the prices of the league.
    FetchPrices,
    /// Fetch this stash tab and count it.
    FetchTab(u32),
    /// Every tracked tab was counted: record the snapshot.
    Record,
    /// Stop, showing this status.
    Abort(String),
}

/// The steps of one wealth snapshot: check prices, fetch them when stale,
/// then fetch each tracked tab in order, stopping at the first failure.
pub struct SnapshotRun {
    pub tabs: Vec<u32>,
    pub prices_stale: bool,
    pub phase: SnapshotPhase,
}

/// Whether `a` is what a run over `tabs` does next in `phase`.
pub open spec fn is_next_action(tabs: Seq<u32>, phase: SnapshotPhase, a: SnapshotAction) -> bool {
    match (phase, a) {
        (SnapshotPhase::Start, SnapshotAction::Status(s)) => s@ == "Checking prices..."@,
        (SnapshotPhase::FetchingPrices, SnapshotAction::FetchPrices) => true,
        (SnapshotPhase::AnnounceTabs, SnapshotAction::Status(s)) => s@ == "Fetching stash tabs..."@,
        (SnapshotPhase::Tabs(i), SnapshotAction::FetchTab(t)) => i < tabs.len() && t == tabs[i as int],
        (SnapshotPhase::Tabs(i), SnapshotAction::Record) => i >= tabs.len(),
        (SnapshotPhase::Failed(prices), SnapshotAction::Abort(s)) => if prices {
            s@ == "Failed to fetch prices"@
        } else {
            s@ == "Error fetching stash tabs. Check settings."@
        },
        _ => false,
    }
}

impl SnapshotRun {
    /// A run over the tracked tabs; prices are fetched first when stale.
    pub fn new(tracked_tabs: Vec<u32>, prices_stale: bool) -> (r: Self)
        ensures
            r.tabs == tracked_tabs,
            r.prices_stale == prices_stale,
            r.phase == SnapshotPhase::Start,
    {
        SnapshotRun { tabs: tracked_tabs, prices_stale, phase: SnapshotPhase::Start }
    }

    /// What the run does next.
    pub fn next_action(&self) -> (r: SnapshotAction)
        ensures
            is_next_action(self.tabs@, self.phase, r),
    {
        match self.phase {
            SnapshotPhase::Start => SnapshotAction::Status(String::from_str("Checking prices...")),
            SnapshotPhase::FetchingPrices => SnapshotAction::FetchPrices,
            SnapshotPhase::AnnounceTabs => SnapshotAction::Status(
                String::from_str("Fetching stash tabs..."),
            ),
            SnapshotPhase::Tabs(i) => if i < self.tabs.len() {
                SnapshotAction::FetchTab(self.tabs[i])
            } else {
                SnapshotAction::Record
            },
            SnapshotPhase::Failed(prices) => if prices {
                SnapshotAction::Abort(String::from_str("Failed to fetch prices"))
            } else {
                SnapshotAction::Abort(String::from_str("Error fetching stash tabs. Check settings."))
            },
        }
    }

    /// The status was shown: go on to fetching prices when stale, else to the
    /// tabs; after the tab announcement, to the first tab.
    pub fn status_shown(&mut self)
        ensures
            final(self).tabs == old(self).tabs,
            final(self).prices_stale == old(self).prices_stale,
            final(self).phase == (match old(self).phase {
                SnapshotPhase::Start => if old(self).prices_stale {
                    SnapshotPhase::FetchingPrices
                } else {
                    SnapshotPhase::AnnounceTabs
                },
                SnapshotPhase::AnnounceTabs => SnapshotPhase::Tabs(0),
                p => p,
            }),
    {
        match self.phase {
            SnapshotPhase::Start => {
                self.phase = if self.prices_stale {
                    SnapshotPhase::FetchingPrices
                } else {
                    SnapshotPhase::AnnounceTabs
                };
            },
            SnapshotPhase::AnnounceTabs => {
                self.phase = SnapshotPhase::Tabs(0);
            },
            _ => {},
        }
    }

    /// The price fetch ended, well or not.
    pub fn prices_fetched(&mut self, ok: bool)
        ensures
            final(self).tabs == old(self).tabs,
            final(self).prices_stale == old(self).prices_stale,
            final(self).phase == (if old(self).phase == SnapshotPhase::FetchingPrices {
                if ok {
                    SnapshotPhase::AnnounceTabs
                } else {
                    SnapshotPhase::Failed(true)
                }
            } else {
                old(self).phase
            }),
    {
        if self.phase == SnapshotPhase::FetchingPrices {
            self.phase = if ok {
                SnapshotPhase::AnnounceTabs
            } else {
                SnapshotPhase::Failed(true)
            };
        }
    }

    /// The fetch of the current tab ended, well or not.
    pub fn tab_fetched(&mut self, ok: bool)
        ensures
            final(self).tabs == old(self).tabs,
            final(self).prices_stale == old(self).prices_stale,
            final(self).phase == (match old(self).phase {
                SnapshotPhase::Tabs(i) => if i < old(self).tabs@.len() {
                    if ok {
                        SnapshotPhase::Tabs((i + 1) as usize)
                    } else {
                        SnapshotPhase::Failed(false)
                    }
                } else {
                    old(self).phase
                },
                p => p,
            }),
    {
        if let SnapshotPhase::Tabs(i) = self.phase {
            if i < self.tabs.len() {
                self.phase = if ok {
                    SnapshotPhase::Tabs(i + 1)
                } else {
                    SnapshotPhase::Failed(false)
                };
            }
        }
    }
}

/// When every fetch succeeds, a run fetches each tracked tab once, in order,
/// and then records: at tab position `i` the next action fetches `tabs[i]`
/// and success moves to `i + 1`; past the last tab it records.
pub proof fn lemma_run_visits_tabs_in_order(tabs: Seq<u32>, i: usize, a: SnapshotAction)
    requires
        i <= tabs.len(),
        is_next_action(tabs, SnapshotPhase::Tabs(i), a),
    ensures
        i < tabs.len() ==> a == SnapshotAction::FetchTab(tabs[i as int]),
        i == tabs.len() ==> a == SnapshotAction::Record,
{
}

} // verus!
