//! The tracker's data: configuration, stash responses, poe.ninja overviews,
//! price caches and history points.
//!
//! Prices and wealth totals are `f64` values; here each is held as the bit
//! pattern of its `f64` (`f64::to_bits`), which the tracker moves and looks up
//! but never computes with.
use vstd::prelude::*;
use crate::names::{lists_set, NameMap, NameSet};

verus! {

/// Bit pattern of the `f64` value 0.0.
pub const ZERO_PRICE_BITS: u64 = 0;

/// The name sets of each tab, with no tab twice.
pub open spec fn unique_tabs(s: Seq<(u32, NameSet)>) -> bool {
    forall|i: int, j: int| 0 <= i < j < s.len() ==> s[i].0 != s[j].0
}

/// The map from tabs to name sets that the entries spell out.
pub open spec fn tab_map_of(s: Seq<(u32, NameSet)>) -> Map<u32, Set<Seq<char>>>
    decreases s.len(),
{
    if s.len() == 0 {
        Map::empty()
    } else {
        tab_map_of(s.drop_last()).insert(s.last().0, s.last().1@)
    }
}

proof fn lemma_tab_map_index(s: Seq<(u32, NameSet)>, i: int)
    requires
        unique_tabs(s),
        0 <= i < s.len(),
    ensures
        tab_map_of(s).contains_key(s[i].0),
        tab_map_of(s)[s[i].0] == s[i].1@,
    decreases s.len(),
{
    if i < s.len() - 1 {
        assert(unique_tabs(s.drop_last()));
        lemma_tab_map_index(s.drop_last(), i);
    }
}

proof fn lemma_tab_map_absent(s: Seq<(u32, NameSet)>, t: u32)
    requires
        forall|i: int| 0 <= i < s.len() ==> s[i].0 != t,
    ensures
        !tab_map_of(s).contains_key(t),
    decreases s.len(),
{
    if s.len() > 0 {
        lemma_tab_map_absent(s.drop_last(), t);
    }
}

proof fn lemma_tab_map_update(s: Seq<(u32, NameSet)>, i: int, e: (u32, NameSet))
    requires
        unique_tabs(s),
        0 <= i < s.len(),
        e.0 == s[i].0,
    ensures
        tab_map_of(s.update(i, e)) =~= tab_map_of(s).insert(e.0, e.1@),
    decreases s.len(),
{
    let t = s.update(i, e);
    if i == s.len() - 1 {
        assert(t.drop_last() =~= s.drop_last());
    } else {
        assert(unique_tabs(s.drop_last()));
        lemma_tab_map_update(s.drop_last(), i, e);
        assert(t.drop_last() =~= s.drop_last().update(i, e));
    }
}

/// Per stash tab, the names of the items left out of wealth snapshots.
/// A tab may hold an empty set once something in it was toggled back on.
#[derive(Debug)]
pub struct DisabledResources {
    tabs: Vec<(u32, NameSet)>,
}

impl View for DisabledResources {
    type V = Map<u32, Set<Seq<char>>>;

    closed spec fn view(&self) -> Map<u32, Set<Seq<char>>> {
        tab_map_of(self.tabs@)
    }
}

/// Whether `name` is left out of snapshots for `tab`.
pub open spec fn spec_is_disabled(d: Map<u32, Set<Seq<char>>>, tab: u32, name: Seq<char>) -> bool {
    d.contains_key(tab) && d[tab].contains(name)
}

impl DisabledResources {
    #[verifier::type_invariant]
    closed spec fn inv(self) -> bool {
        unique_tabs(self.tabs@)
    }

    /// Nothing is left out.
    pub fn new() -> (r: Self)
        ensures
            r@ == Map::<u32, Set<Seq<char>>>::empty(),
    {
        DisabledResources { tabs: Vec::new() }
    }

    fn position(&self, tab: u32) -> (r: Option<usize>)
        ensures
            match r {
                Some(i) => i < self.tabs@.len() && self.tabs@[i as int].0 == tab,
                None => forall|j: int| 0 <= j < self.tabs@.len() ==> self.tabs@[j].0 != tab,
            },
    {
        let mut i: usize = 0;
        while i < self.tabs.len()
            invariant
                i <= self.tabs@.len(),
                forall|j: int| 0 <= j < i ==> self.tabs@[j].0 != tab,
            decreases self.tabs@.len() - i,
        {
            if self.tabs[i].0 == tab {
                return Some(i);
            }
            i = i + 1;
        }
        None
    }

    /// Whether `name` is left out of snapshots for `tab`.
    pub fn is_disabled(&self, tab: u32, name: &str) -> (r: bool)
        ensures
            r == spec_is_disabled(self@, tab, name@),
    {
        proof {
            use_type_invariant(self);
        }
        match self.position(tab) {
            Some(i) => {
                proof {
                    lemma_tab_map_index(self.tabs@, i as int);
                }
                self.tabs[i].1.contains(name)
            },
            None => {
                proof {
                    lemma_tab_map_absent(self.tabs@, tab);
                }
                false
            },
        }
    }

    /// The tabs that hold a set, each once, with the names of its set, each
    /// once; in the order in which the tabs were first touched.
    pub fn tab_names(&self) -> (r: Vec<(u32, Vec<String>)>)
        ensures
            r@.len() == self@.dom().len(),
            forall|i: int, j: int| 0 <= i < j < r@.len() ==> r@[i].0 != r@[j].0,
            forall|i: int|
                0 <= i < r@.len() ==> #[trigger] self@.contains_key(r@[i].0) && lists_set(
                    r@[i].1@,
                    self@[r@[i].0],
                ),
            forall|t: u32| #[trigger] self@.contains_key(t) ==> exists|i: int|
                0 <= i < r@.len() && r@[i].0 == t,
    {
        proof {
            use_type_invariant(self);
            lemma_tab_map_len(self.tabs@);
        }
        let mut out: Vec<(u32, Vec<String>)> = Vec::new();
        let mut i: usize = 0;
        while i < self.tabs.len()
            invariant
                unique_tabs(self.tabs@),
                i <= self.tabs@.len(),
                out@.len() == i,
                forall|j: int|
                    0 <= j < i ==> (#[trigger] out@[j]).0 == self.tabs@[j].0 && lists_set(
                        out@[j].1@,
                        self.tabs@[j].1@,
                    ),
            decreases self.tabs@.len() - i,
        {
            let names = self.tabs[i].1.names();
            out.push((self.tabs[i].0, names));
            i = i + 1;
        }
        assert forall|j: int|
            0 <= j < out@.len() implies #[trigger] self@.contains_key(out@[j].0) && lists_set(
            out@[j].1@,
            self@[out@[j].0],
        ) by {
            lemma_tab_map_index(self.tabs@, j);
        }
        assert forall|a: int, b: int| 0 <= a < b < out@.len() implies out@[a].0 != out@[b].0 by {
            assert(out@[a].0 == self.tabs@[a].0);
            assert(out@[b].0 == self.tabs@[b].0);
        }
        assert forall|t: u32| #[trigger] self@.contains_key(t) implies exists|j: int|
            0 <= j < out@.len() && out@[j].0 == t by {
            if forall|j: int| 0 <= j < self.tabs@.len() ==> self.tabs@[j].0 != t {
                lemma_tab_map_absent(self.tabs@, t);
            }
            let j = choose|j: int| 0 <= j < self.tabs@.len() && self.tabs@[j].0 == t;
            assert(out@[j].0 == t);
        }
        out
    }

    /// Includes `name` in snapshots of `tab` again, or leaves it out; the tab
    /// holds a set afterwards either way (std `entry(tab).or_default()`).
    pub fn set_tracked(&mut self, tab: u32, name: String, included: bool)
        ensures
            final(self)@ == old(self)@.insert(
                tab,
                if included {
                    (if old(self)@.contains_key(tab) {
                        old(self)@[tab]
                    } else {
                        Set::empty()
                    }).remove(name@)
                } else {
                    (if old(self)@.contains_key(tab) {
                        old(self)@[tab]
                    } else {
                        Set::empty()
                    }).insert(name@)
                },
            ),
    {
        proof {
            use_type_invariant(&*self);
        }
        let mut tabs = Vec::new();
        std::mem::swap(&mut tabs, &mut self.tabs);
        let ghost before = tabs@;
        match self.position_in(&tabs, tab) {
            Some(i) => {
                proof {
                    lemma_tab_map_index(before, i as int);
                }
                let (t, mut names) = tabs.remove(i);
                if included {
                    names.remove(name.as_str());
                } else {
                    names.insert(name);
                }
                let ghost entry = (t, names);
                tabs.insert(i, (t, names));
                assert(tabs@ =~= before.update(i as int, entry));
                proof {
                    lemma_tab_map_update(before, i as int, entry);
                }
                assert(unique_tabs(tabs@));
                self.tabs = tabs;
            },
            None => {
                proof {
                    lemma_tab_map_absent(before, tab);
                }
                let mut names = NameSet::new();
                if included {
                    names.remove(name.as_str());
                } else {
                    names.insert(name);
                }
                tabs.push((tab, names));
                assert(tabs@.drop_last() =~= before);
                assert(unique_tabs(tabs@));
                self.tabs = tabs;
            },
        }
    }

    fn position_in(&self, tabs: &Vec<(u32, NameSet)>, tab: u32) -> (r: Option<usize>)
        ensures
            match r {
                Some(i) => i < tabs@.len() && tabs@[i as int].0 == tab,
                None => forall|j: int| 0 <= j < tabs@.len() ==> tabs@[j].0 != tab,
            },
    {
        let mut i: usize = 0;
        while i < tabs.len()
            invariant
                i <= tabs@.len(),
                forall|j: int| 0 <= j < i ==> tabs@[j].0 != tab,
            decreases tabs@.len() - i,
        {
            if tabs[i].0 == tab {
                return Some(i);
            }
            i = i + 1;
        }
        None
    }
}

/// After an item of a tab is set to count, it is not left out, and after it
/// is set not to count, it is; other tabs and other items keep their setting.
pub proof fn lemma_set_tracked_decides(
    d: Map<u32, Set<Seq<char>>>,
    tab: u32,
    name: Seq<char>,
    included: bool,
    other_tab: u32,
    other_name: Seq<char>,
)
    ensures
        ({
            let base = if d.contains_key(tab) { d[tab] } else { Set::empty() };
            let after = d.insert(tab, if included { base.remove(name) } else { base.insert(name) });
            &&& spec_is_disabled(after, tab, name) == !included
            &&& (other_tab != tab || other_name != name) ==> spec_is_disabled(
                after,
                other_tab,
                other_name,
            ) == spec_is_disabled(d, other_tab, other_name)
        }),
{
}

impl Clone for DisabledResources {
    /// A copy of the settings.
    fn clone(&self) -> (r: Self)
        ensures
            r@ == self@,
    {
        proof {
            use_type_invariant(self);
        }
        let mut tabs: Vec<(u32, NameSet)> = Vec::new();
        let mut i: usize = 0;
        while i < self.tabs.len()
            invariant
                unique_tabs(self.tabs@),
                i <= self.tabs@.len(),
                tabs@.len() == i,
                forall|j: int| 0 <= j < i ==> (#[trigger] tabs@[j]).0 == self.tabs@[j].0 && tabs@[j].1@
                    == self.tabs@[j].1@,
                tab_map_of(tabs@) == tab_map_of(self.tabs@.take(i as int)),
            decreases self.tabs@.len() - i,
        {
            let names = self.tabs[i].1.clone();
            let ghost before = tabs@;
            tabs.push((self.tabs[i].0, names));
            i = i + 1;
            assert(tabs@.drop_last() =~= before);
            assert(self.tabs@.take(i as int).drop_last() =~= self.tabs@.take(i - 1));
        }
        assert(self.tabs@.take(i as int) =~= self.tabs@);
        assert forall|a: int, b: int| 0 <= a < b < tabs@.len() implies tabs@[a].0 != tabs@[b].0 by {
            assert(self.tabs@[a].0 != self.tabs@[b].0);
        }
        DisabledResources { tabs }
    }
}

proof fn lemma_tab_map_len(s: Seq<(u32, NameSet)>)
    requires
        unique_tabs(s),
    ensures
        tab_map_of(s).dom().finite(),
        tab_map_of(s).dom().len() == s.len(),
    decreases s.len(),
{
    if s.len() > 0 {
        assert(unique_tabs(s.drop_last()));
        lemma_tab_map_len(s.drop_last());
        lemma_tab_map_absent(s.drop_last(), s.last().0);
    }
}

/// What the user configured: account, session, league, the tabs that count
/// towards wealth, and the items left out per tab.
#[derive(Clone, Debug)]
pub struct AppConfig {
    pub account_name: String,
    pub poesessid: String,
    pub league: String,
    pub tracked_tabs: Vec<u32>,
    pub disabled_resources: DisabledResources,
}

impl AppConfig {
    /// The configuration of a first start: everything empty.
    pub fn new() -> (r: Self)
        ensures
            r.account_name@.len() == 0,
            r.poesessid@.len() == 0,
            r.league@.len() == 0,
            r.tracked_tabs@.len() == 0,
            r.disabled_resources@ == Map::<u32, Set<Seq<char>>>::empty(),
    {
        AppConfig {
            account_name: String::new(),
            poesessid: String::new(),
            league: String::new(),
            tracked_tabs: Vec::new(),
            disabled_resources: DisabledResources::new(),
        }
    }
}

/// One wealth snapshot. The totals are `f64` bit patterns.
#[derive(Clone, Copy, Debug, PartialEq, Eq)]
pub struct HistoryPoint {
    pub timestamp: i64,
    pub total_chaos_bits: u64,
    pub total_divine_bits: u64,
}

/// One stash tab as the tab list of the stash API describes it.
#[derive(Clone, Debug)]
pub struct PoeStashTabMeta {
    pub n: String,
    pub i: u32,
    pub tab_type: String,
}

/// An error that the stash API reports in its response body.
#[derive(Clone, Debug)]
pub struct PoeApiError {
    pub code: i32,
    pub message: String,
}

/// A response of the stash API.
#[derive(Clone, Debug)]
pub struct PoeStashResponse {
    pub error: Option<PoeApiError>,
    pub tabs: Option<Vec<PoeStashTabMeta>>,
    pub items: Vec<PoeItem>,
}

/// One item of a stash tab.
#[derive(Clone, Debug)]
pub struct PoeItem {
    pub type_line: String,
    pub name: String,
    pub stack_size: Option<u32>,
    pub base_type: String,
    pub icon: String,
}

impl PoeItem {
    /// The explicit name if present, otherwise the type line.
    pub open spec fn spec_display_name(&self) -> Seq<char> {
        if self.name@.len() > 0 {
            self.name@
        } else {
            self.type_line@
        }
    }

    /// The base type if present, otherwise the type line.
    pub open spec fn spec_lookup_name(&self) -> Seq<char> {
        if self.base_type@.len() > 0 {
            self.base_type@
        } else {
            self.type_line@
        }
    }

    /// The human-readable display name: explicit name if present, otherwise the type line.
    pub fn display_name(&self) -> (r: &str)
        ensures
            r@ == self.spec_display_name(),
    {
        if !self.name.as_str().is_empty() {
            self.name.as_str()
        } else {
            self.type_line.as_str()
        }
    }

    /// The name used to look up prices / icons: base type if present, otherwise the type line.
    pub fn lookup_name(&self) -> (r: &str)
        ensures
            r@ == self.spec_lookup_name(),
    {
        if !self.base_type.as_str().is_empty() {
            self.base_type.as_str()
        } else {
            self.type_line.as_str()
        }
    }

    /// How many of the item the stack holds: the stack size, or one.
    pub open spec fn spec_count(&self) -> u32 {
        match self.stack_size {
            Some(n) => n,
            None => 1,
        }
    }
}

/// The league list of the trade API.
#[derive(Clone, Debug)]
pub struct PoeTradeLeaguesResponse {
    pub result: Vec<PoeTradeLeague>,
}

/// One league of the trade API.
#[derive(Clone, Debug)]
pub struct PoeTradeLeague {
    pub id: String,
}

/// What the tracker reads of one JSON object of a poe.ninja overview: a field
/// is `Some` when the object holds it as a string (or, for the two values, as
/// a number, given as its `f64` bit pattern).
#[derive(Clone, Debug)]
pub struct NinjaEntry {
    pub id: Option<String>,
    pub name: Option<String>,
    pub primary_value: Option<u64>,
    pub chaos_value: Option<u64>,
    pub image: Option<String>,
    pub icon: Option<String>,
}

/// A poe.ninja overview: price lines, and for exchange overviews the item
/// metadata that maps ids to names.
#[derive(Clone, Debug)]
pub struct NinjaOverviewResponse {
    pub lines: Vec<NinjaEntry>,
    pub items: Vec<NinjaEntry>,
}

/// Item prices in chaos (as `f64` bit patterns) with the time they were fetched.
#[derive(Clone, Debug)]
pub struct PriceCache {
    pub last_updated: i64,
    pub prices: NameMap<u64>,
}

} // verus!
