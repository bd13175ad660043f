//! What the tracker sends to and makes of the Path of Exile and poe.ninja APIs:
//! overview URLs, league lists, price and icon tables, stash requests and
//! responses, and image cache names.
use vstd::prelude::*;
use crate::models::{NinjaEntry, NinjaOverviewResponse, PoeTradeLeague, PoeTradeLeaguesResponse};
use crate::names::NameMap;
use crate::text::{chars_of, lemma_lex_irreflexive, lemma_lex_transitive, lemma_lex_trichotomy, lex_less, lex_lt, str_eq};

verus! {

/// The poe.ninja overview categories that are priced, in the order they are fetched.
pub open spec fn spec_item_types() -> Seq<Seq<char>> {
    seq![
        "Currency"@,
        "Fragment"@,
        "DivinationCard"@,
        "Artifact"@,
        "Oil"@,
        "Incubator"@,
        "SkillGem"@,
        "DeliriumOrb"@,
        "Invitation"@,
        "Scarab"@,
        "Astrolabe"@,
        "Fossil"@,
        "Resonator"@,
        "Essence"@,
        "Vial"@,
    ]
}

/// The number of poe.ninja overview categories.
pub const ITEM_TYPE_COUNT: usize = 15;

/// The poe.ninja overview categories that are priced, in the order they are fetched.
pub fn item_types() -> (r: Vec<&'static str>)
    ensures
        r@.len() == ITEM_TYPE_COUNT,
        forall|i: int| 0 <= i < r@.len() ==> #[trigger] r@[i]@ == spec_item_types()[i],
{
    let mut v: Vec<&'static str> = Vec::new();
    v.push("Currency");
    v.push("Fragment");
    v.push("DivinationCard");
    v.push("Artifact");
    v.push("Oil");
    v.push("Incubator");
    v.push("SkillGem");
    v.push("DeliriumOrb");
    v.push("Invitation");
    v.push("Scarab");
    v.push("Astrolabe");
    v.push("Fossil");
    v.push("Resonator");
    v.push("Essence");
    v.push("Vial");
    assert(v@.len() == 15);
    assert forall|i: int| 0 <= i < v@.len() implies #[trigger] v@[i]@ == spec_item_types()[i] by {
        if i == 0 {} else if i == 1 {} else if i == 2 {} else if i == 3 {} else if i == 4 {}
        else if i == 5 {} else if i == 6 {} else if i == 7 {} else if i == 8 {} else if i == 9 {}
        else if i == 10 {} else if i == 11 {} else if i == 12 {} else if i == 13 {} else {}
    }
    v
}

/// Every category but skill gems is priced on the currency exchange.
pub open spec fn spec_is_exchange_type(item_type: Seq<char>) -> bool {
    item_type != "SkillGem"@
}

/// Whether a category is priced on the currency exchange rather than by stash listings.
pub fn is_exchange_type(item_type: &str) -> (r: bool)
    ensures
        r == spec_is_exchange_type(item_type@),
{
    !str_eq(item_type, "SkillGem")
}

/// The poe.ninja overview URL of a category in a league.
pub open spec fn spec_ninja_api_url(league: Seq<char>, item_type: Seq<char>) -> Seq<char> {
    if spec_is_exchange_type(item_type) {
        "https://poe.ninja/poe1/api/economy/exchange/current/overview?league="@ + league
            + "&type="@ + item_type
    } else {
        "https://poe.ninja/poe1/api/economy/stash/current/item/overview?league="@ + league
            + "&type="@ + item_type
    }
}

/// The poe.ninja overview URL of a category in a league.
pub fn ninja_api_url(league: &str, item_type: &str) -> (r: String)
    ensures
        r@ == spec_ninja_api_url(league@, item_type@),
{
    let mut url = if is_exchange_type(item_type) {
        String::from_str("https://poe.ninja/poe1/api/economy/exchange/current/overview?league=")
    } else {
        String::from_str("https://poe.ninja/poe1/api/economy/stash/current/item/overview?league=")
    };
    url.append(league);
    url.append("&type=");
    url.append(item_type);
    url
}

// ---------------------------------------------------------------------------
// League lists
// ---------------------------------------------------------------------------

/// The characters of each string.
pub open spec fn string_views(s: Seq<String>) -> Seq<Seq<char>> {
    s.map_values(|x: String| x@)
}

/// Each element comes strictly before the next (so none occurs twice).
pub open spec fn strictly_sorted(s: Seq<Seq<char>>) -> bool {
    forall|i: int, j: int| 0 <= i < j < s.len() ==> lex_lt(s[i], s[j])
}

/// The league ids of a trade API response.
pub open spec fn league_ids(data: PoeTradeLeaguesResponse) -> Seq<Seq<char>> {
    data.result@.map_values(|l: PoeTradeLeague| l.id@)
}

/// Inserts `id` into a strictly sorted list unless it is there already;
/// `keys` holds the characters of each element of `out`.
fn insert_sorted(out: &mut Vec<String>, keys: &mut Vec<Vec<char>>, id: &String)
    requires
        old(keys)@.len() == old(out)@.len(),
        forall|i: int| 0 <= i < old(out)@.len() ==> #[trigger] old(keys)@[i]@ == old(out)@[i]@,
        strictly_sorted(string_views(old(out)@)),
    ensures
        final(keys)@.len() == final(out)@.len(),
        forall|i: int| 0 <= i < final(out)@.len() ==> #[trigger] final(keys)@[i]@ == final(out)@[i]@,
        strictly_sorted(string_views(final(out)@)),
        string_views(final(out)@).to_set() == string_views(old(out)@).to_set().insert(id@),
{
    let c = chars_of(id.as_str());
    let ghost old_out = out@;
    let ghost old_keys = keys@;
    let ghost v = string_views(old_out);
    let mut p: usize = 0;
    while p < keys.len() && lex_less(&keys[p], &c)
        invariant
            keys@ == old_keys,
            out@ == old_out,
            v == string_views(old_out),
            p <= keys@.len(),
            keys@.len() == out@.len(),
            forall|i: int| 0 <= i < out@.len() ==> #[trigger] keys@[i]@ == out@[i]@,
            forall|q: int| 0 <= q < p ==> lex_lt(#[trigger] v[q], c@),
        decreases keys@.len() - p,
    {
        assert(v[p as int] == out@[p as int]@);
        p = p + 1;
    }
    if p < keys.len() && !lex_less(&c, &keys[p]) {
        proof {
            lemma_lex_trichotomy(c@, keys@[p as int]@);
            assert(v[p as int] == id@);
            assert(v.to_set().insert(id@) =~= v.to_set());
        }
    } else {
        proof {
            if p < old_out.len() {
                assert(v[p as int] == keys@[p as int]@);
                lemma_lex_trichotomy(c@, keys@[p as int]@);
                lemma_above_first_above_rest(v, p as int, c@);
            }
            lemma_insert_keeps_sorted(v, p as int, c@);
        }
        out.insert(p, id.clone());
        keys.insert(p, c);
        proof {
            assert(string_views(out@) =~= v.insert(p as int, id@));
            assert forall|i: int| 0 <= i < out@.len() implies #[trigger] keys@[i]@ == out@[i]@ by {
                if i < p {
                    assert(keys@[i] == old_keys[i]);
                } else if i == p {
                } else {
                    assert(keys@[i] == old_keys[i - 1]);
                }
            }
            assert forall|x: Seq<char>| #[trigger] v.insert(p as int, id@).to_set().contains(x)
                <==> v.to_set().insert(id@).contains(x) by {
                let w = v.insert(p as int, id@);
                if w.to_set().contains(x) {
                    let i = choose|i: int| 0 <= i < w.len() && w[i] == x;
                    if i < p {
                        assert(v[i] == x);
                    } else if i > p {
                        assert(v[i - 1] == x);
                    }
                }
                if v.to_set().contains(x) {
                    let i = choose|i: int| 0 <= i < v.len() && v[i] == x;
                    if i < p {
                        assert(w[i] == x);
                    } else {
                        assert(w[i + 1] == x);
                    }
                }
                if x == id@ {
                    assert(w[p as int] == x);
                }
            }
            assert(v.insert(p as int, id@).to_set() =~= v.to_set().insert(id@));
        }
    }
}

/// The league ids of a trade API response, sorted, each once (std `sort` then `dedup`).
pub fn sorted_league_ids(data: &PoeTradeLeaguesResponse) -> (r: Vec<String>)
    ensures
        strictly_sorted(string_views(r@)),
        string_views(r@).to_set() == league_ids(*data).to_set(),
{
    let mut out: Vec<String> = Vec::new();
    let mut keys: Vec<Vec<char>> = Vec::new();
    let ghost ids = league_ids(*data);
    let mut k: usize = 0;
    assert(string_views(out@).to_set() =~= ids.take(0).to_set());
    while k < data.result.len()
        invariant
            ids == league_ids(*data),
            k <= data.result@.len(),
            keys@.len() == out@.len(),
            forall|i: int| 0 <= i < out@.len() ==> #[trigger] keys@[i]@ == out@[i]@,
            strictly_sorted(string_views(out@)),
            string_views(out@).to_set() == ids.take(k as int).to_set(),
        decreases data.result@.len() - k,
    {
        let id = &data.result[k].id;
        assert(ids[k as int] == id@);
        insert_sorted(&mut out, &mut keys, id);
        proof {
            assert(ids.take(k + 1) =~= ids.take(k as int).push(id@));
            lemma_push_to_set(ids.take(k as int), id@);
        }
        k = k + 1;
    }
    assert(ids.take(k as int) =~= ids);
    out
}

proof fn lemma_push_to_set(s: Seq<Seq<char>>, x: Seq<char>)
    ensures
        s.push(x).to_set() == s.to_set().insert(x),
{
    assert forall|y: Seq<char>| #[trigger] s.push(x).to_set().contains(y) <==> s.to_set().insert(x).contains(y) by {
        if s.push(x).to_set().contains(y) {
            let i = choose|i: int| 0 <= i < s.push(x).len() && s.push(x)[i] == y;
            if i < s.len() {
                assert(s[i] == y);
            }
        }
        if s.to_set().contains(y) {
            let i = choose|i: int| 0 <= i < s.len() && s[i] == y;
            assert(s.push(x)[i] == y);
        }
        if y == x {
            assert(s.push(x)[s.len() as int] == y);
        }
    }
    assert(s.push(x).to_set() =~= s.to_set().insert(x));
}

proof fn lemma_above_first_above_rest(v: Seq<Seq<char>>, p: int, x: Seq<char>)
    requires
        strictly_sorted(v),
        0 <= p < v.len(),
        lex_lt(x, v[p]),
    ensures
        forall|q: int| p <= q < v.len() ==> lex_lt(x, #[trigger] v[q]),
{
    assert forall|q: int| p <= q < v.len() implies lex_lt(x, #[trigger] v[q]) by {
        if q > p {
            assert(lex_lt(v[p], v[q]));
            lemma_lex_transitive(x, v[p], v[q], 0);
        }
    }
}

proof fn lemma_insert_keeps_sorted(v: Seq<Seq<char>>, p: int, x: Seq<char>)
    requires
        strictly_sorted(v),
        0 <= p <= v.len(),
        forall|q: int| 0 <= q < p ==> lex_lt(#[trigger] v[q], x),
        forall|q: int| p <= q < v.len() ==> lex_lt(x, #[trigger] v[q]),
    ensures
        strictly_sorted(v.insert(p, x)),
{
    let w = v.insert(p, x);
    assert forall|a: int, b: int| 0 <= a < b < w.len() implies lex_lt(w[a], w[b]) by {
        if b < p {
            assert(w[a] == v[a] && w[b] == v[b]);
        } else if b == p {
            assert(w[a] == v[a] && w[b] == x);
        } else if a == p {
            assert(w[a] == x && w[b] == v[b - 1]);
        } else if a < p {
            assert(w[a] == v[a] && w[b] == v[b - 1]);
        } else {
            assert(w[a] == v[a - 1] && w[b] == v[b - 1]);
        }
    }
}

/// Two strictly sorted sequences with the same elements are the same sequence:
/// the sorted, de-duplicated league list is determined by the set of ids.
pub proof fn lemma_strictly_sorted_unique(a: Seq<Seq<char>>, b: Seq<Seq<char>>)
    requires
        strictly_sorted(a),
        strictly_sorted(b),
        a.to_set() == b.to_set(),
    ensures
        a == b,
    decreases a.len(),
{
    if a.len() == 0 {
        if b.len() > 0 {
            assert(b.to_set().contains(b[0]));
        }
        assert(a =~= b);
    } else {
        assert(a.to_set().contains(a[0]));
        let k = choose|k: int| 0 <= k < b.len() && b[k] == a[0];
        assert(b.to_set().contains(b[0]));
        let m = choose|m: int| 0 <= m < a.len() && a[m] == b[0];
        if k > 0 && m > 0 {
            assert(lex_lt(b[0], b[k]));
            assert(lex_lt(a[0], a[m]));
            lemma_lex_transitive(a[0], b[0], a[0], 0);
            lemma_lex_irreflexive(a[0], 0);
        } else if k > 0 {
            assert(lex_lt(b[0], b[k]));
            lemma_lex_irreflexive(a[0], 0);
        } else if m > 0 {
            assert(lex_lt(a[0], a[m]));
            lemma_lex_irreflexive(b[0], 0);
        }
        assert(a[0] == b[0]);
        let ra = a.drop_first();
        let rb = b.drop_first();
        assert forall|x: Seq<char>| ra.to_set().contains(x) <==> rb.to_set().contains(x) by {
            if ra.to_set().contains(x) {
                let i = choose|i: int| 0 <= i < ra.len() && ra[i] == x;
                assert(a[i + 1] == x);
                assert(a.to_set().contains(x));
                let j = choose|j: int| 0 <= j < b.len() && b[j] == x;
                if j == 0 {
                    assert(lex_lt(a[0], a[i + 1]));
                    lemma_lex_irreflexive(x, 0);
                }
                assert(rb[j - 1] == x);
            }
            if rb.to_set().contains(x) {
                let j = choose|j: int| 0 <= j < rb.len() && rb[j] == x;
                assert(b[j + 1] == x);
                assert(b.to_set().contains(x));
                let i = choose|i: int| 0 <= i < a.len() && a[i] == x;
                if i == 0 {
                    assert(lex_lt(b[0], b[j + 1]));
                    lemma_lex_irreflexive(x, 0);
                }
                assert(ra[i - 1] == x);
            }
        }
        assert(ra.to_set() =~= rb.to_set());
        lemma_strictly_sorted_unique(ra, rb);
        assert(a =~= seq![a[0]] + ra);
        assert(b =~= seq![b[0]] + rb);
    }
}

} // verus!

verus! {

// ---------------------------------------------------------------------------
// Prices
// ---------------------------------------------------------------------------

/// Bit pattern of the `f64` value 1.0: a Chaos Orb is worth one chaos.
pub const CHAOS_ORB_PRICE_BITS: u64 = 0x3FF0_0000_0000_0000;

/// Bit pattern of the `f64` value 100.0: the Divine Orb price used when
/// poe.ninja gives none.
pub const DIVINE_ORB_FALLBACK_BITS: u64 = 0x4059_0000_0000_0000;

/// The id-to-name table of an exchange overview's items (later ids override).
pub open spec fn spec_id_names(items: Seq<NinjaEntry>) -> Map<Seq<char>, String>
    decreases items.len(),
{
    if items.len() == 0 {
        Map::empty()
    } else {
        let m = spec_id_names(items.drop_last());
        let e = items.last();
        match (e.id, e.name) {
            (Some(id), Some(name)) => m.insert(id@, name),
            _ => m,
        }
    }
}

/// What one price line adds to the price table.
pub open spec fn spec_add_price_line(
    m: Map<Seq<char>, u64>,
    exchange: bool,
    names: Map<Seq<char>, String>,
    line: NinjaEntry,
) -> Map<Seq<char>, u64> {
    if exchange {
        match (line.id, line.primary_value) {
            (Some(id), Some(price)) => if names.contains_key(id@) {
                m.insert(names[id@]@, price)
            } else {
                m
            },
            _ => m,
        }
    } else {
        match (line.name, line.chaos_value) {
            (Some(name), Some(price)) => m.insert(name@, price),
            _ => m,
        }
    }
}

/// What the price lines add to the price table, in order.
pub open spec fn spec_add_price_lines(
    m: Map<Seq<char>, u64>,
    exchange: bool,
    names: Map<Seq<char>, String>,
    lines: Seq<NinjaEntry>,
) -> Map<Seq<char>, u64>
    decreases lines.len(),
{
    if lines.len() == 0 {
        m
    } else {
        spec_add_price_line(
            spec_add_price_lines(m, exchange, names, lines.drop_last()),
            exchange,
            names,
            lines.last(),
        )
    }
}

/// What one overview of a category adds to the price table: exchange
/// overviews price lines by id through their item list, the others by name.
pub open spec fn spec_add_overview_prices(
    m: Map<Seq<char>, u64>,
    item_type: Seq<char>,
    data: NinjaOverviewResponse,
) -> Map<Seq<char>, u64> {
    let exchange = spec_is_exchange_type(item_type);
    spec_add_price_lines(
        m,
        exchange,
        if exchange {
            spec_id_names(data.items@)
        } else {
            Map::empty()
        },
        data.lines@,
    )
}

/// The price table after the overviews of the first `n` categories; a
/// category whose overview could not be had adds nothing.
pub open spec fn spec_prices_through(responses: Seq<Option<NinjaOverviewResponse>>, n: int) -> Map<
    Seq<char>,
    u64,
>
    decreases n,
{
    if n <= 0 {
        Map::empty()
    } else {
        let m = spec_prices_through(responses, n - 1);
        match responses[n - 1] {
            Some(data) => spec_add_overview_prices(m, spec_item_types()[n - 1], data),
            None => m,
        }
    }
}

/// A Chaos Orb is worth one chaos; a Divine Orb gets a fallback price if none came.
pub open spec fn spec_finish_prices(m: Map<Seq<char>, u64>) -> Map<Seq<char>, u64> {
    let m2 = m.insert("Chaos Orb"@, CHAOS_ORB_PRICE_BITS);
    if m2.contains_key("Divine Orb"@) {
        m2
    } else {
        m2.insert("Divine Orb"@, DIVINE_ORB_FALLBACK_BITS)
    }
}

/// The id-to-name table of an exchange overview's items.
fn exchange_names(items: &Vec<NinjaEntry>) -> (r: NameMap<String>)
    ensures
        r@ == spec_id_names(items@),
{
    let mut m: NameMap<String> = NameMap::new();
    let mut i: usize = 0;
    while i < items.len()
        invariant
            i <= items@.len(),
            m@ == spec_id_names(items@.take(i as int)),
        decreases items@.len() - i,
    {
        let e = &items[i];
        assert(items@.take(i + 1).drop_last() =~= items@.take(i as int));
        if let Some(id) = &e.id {
            if let Some(name) = &e.name {
                m.insert(id.clone(), name.clone());
            }
        }
        i = i + 1;
    }
    assert(items@.take(items@.len() as int) =~= items@);
    m
}

/// Adds the prices of one category's overview to the price table.
pub fn add_overview_prices(
    prices: &mut NameMap<u64>,
    item_type: &str,
    data: &NinjaOverviewResponse,
)
    ensures
        final(prices)@ == spec_add_overview_prices(old(prices)@, item_type@, *data),
{
    let exchange = is_exchange_type(item_type);
    let names = if exchange {
        exchange_names(&data.items)
    } else {
        NameMap::new()
    };
    let ghost m0 = prices@;
    let ghost spec_names = if exchange {
        spec_id_names(data.items@)
    } else {
        Map::empty()
    };
    assert(names@ == spec_names);
    let mut i: usize = 0;
    while i < data.lines.len()
        invariant
            i <= data.lines@.len(),
            names@ == spec_names,
            exchange == spec_is_exchange_type(item_type@),
            prices@ == spec_add_price_lines(m0, exchange, spec_names, data.lines@.take(i as int)),
        decreases data.lines@.len() - i,
    {
        let line = &data.lines[i];
        assert(data.lines@.take(i + 1).drop_last() =~= data.lines@.take(i as int));
        if exchange {
            if let Some(id) = &line.id {
                if let Some(price) = line.primary_value {
                    if let Some(name) = names.get(id.as_str()) {
                        prices.insert(name.clone(), price);
                    }
                }
            }
        } else {
            if let Some(name) = &line.name {
                if let Some(price) = line.chaos_value {
                    prices.insert(name.clone(), price);
                }
            }
        }
        i = i + 1;
    }
    assert(data.lines@.take(data.lines@.len() as int) =~= data.lines@);
}

/// The price table of a league from the overviews of all categories, one per
/// entry of `item_types()` in that order (`None` where the overview could not
/// be fetched or read), with the Chaos Orb at one chaos and a Divine Orb
/// fallback price.
pub fn collect_ninja_prices(responses: &Vec<Option<NinjaOverviewResponse>>) -> (r: NameMap<u64>)
    requires
        responses@.len() == ITEM_TYPE_COUNT,
    ensures
        r@ == spec_finish_prices(spec_prices_through(responses@, ITEM_TYPE_COUNT as int)),
        r@.contains_key("Chaos Orb"@) && r@["Chaos Orb"@] == CHAOS_ORB_PRICE_BITS,
        r@.contains_key("Divine Orb"@),
{
    let types = item_types();
    let mut prices: NameMap<u64> = NameMap::new();
    let mut i: usize = 0;
    while i < responses.len()
        invariant
            responses@.len() == ITEM_TYPE_COUNT,
            types@.len() == ITEM_TYPE_COUNT,
            forall|j: int| 0 <= j < types@.len() ==> #[trigger] types@[j]@ == spec_item_types()[j],
            i <= responses@.len(),
            prices@ == spec_prices_through(responses@, i as int),
        decreases responses@.len() - i,
    {
        if let Some(data) = &responses[i] {
            assert(types@[i as int]@ == spec_item_types()[i as int]);
            add_overview_prices(&mut prices, types[i], data);
        }
        i = i + 1;
    }
    prices.insert(String::from_str("Chaos Orb"), CHAOS_ORB_PRICE_BITS);
    prices.insert_if_absent(String::from_str("Divine Orb"), DIVINE_ORB_FALLBACK_BITS);
    prices
}

// ---------------------------------------------------------------------------
// Icons
// ---------------------------------------------------------------------------

/// What one entry adds to the icon table: exchange overviews give the icon of
/// an item as `image` in their item list, the others as `icon` in their lines.
pub open spec fn spec_add_icon(m: Map<Seq<char>, String>, exchange: bool, e: NinjaEntry) -> Map<
    Seq<char>,
    String,
> {
    match (e.name, if exchange { e.image } else { e.icon }) {
        (Some(name), Some(icon)) => m.insert(name@, icon),
        _ => m,
    }
}

/// What the entries add to the icon table, in order.
pub open spec fn spec_add_icons(m: Map<Seq<char>, String>, exchange: bool, es: Seq<NinjaEntry>) -> Map<
    Seq<char>,
    String,
>
    decreases es.len(),
{
    if es.len() == 0 {
        m
    } else {
        spec_add_icon(spec_add_icons(m, exchange, es.drop_last()), exchange, es.last())
    }
}

/// What one overview of a category adds to the icon table.
pub open spec fn spec_add_overview_icons(
    m: Map<Seq<char>, String>,
    item_type: Seq<char>,
    data: NinjaOverviewResponse,
) -> Map<Seq<char>, String> {
    let exchange = spec_is_exchange_type(item_type);
    spec_add_icons(
        m,
        exchange,
        if exchange {
            data.items@
        } else {
            data.lines@
        },
    )
}

/// The icon table after the overviews of the first `n` categories.
pub open spec fn spec_icons_through(responses: Seq<Option<NinjaOverviewResponse>>, n: int) -> Map<
    Seq<char>,
    String,
>
    decreases n,
{
    if n <= 0 {
        Map::empty()
    } else {
        let m = spec_icons_through(responses, n - 1);
        match responses[n - 1] {
            Some(data) => spec_add_overview_icons(m, spec_item_types()[n - 1], data),
            None => m,
        }
    }
}

/// Adds the icons of one category's overview to the icon table.
pub fn add_overview_icons(icons: &mut NameMap<String>, item_type: &str, data: &NinjaOverviewResponse)
    ensures
        final(icons)@ == spec_add_overview_icons(old(icons)@, item_type@, *data),
{
    let exchange = is_exchange_type(item_type);
    let es = if exchange {
        &data.items
    } else {
        &data.lines
    };
    let ghost m0 = icons@;
    let mut i: usize = 0;
    while i < es.len()
        invariant
            i <= es@.len(),
            es@ == (if exchange { data.items@ } else { data.lines@ }),
            exchange == spec_is_exchange_type(item_type@),
            icons@ == spec_add_icons(m0, exchange, es@.take(i as int)),
        decreases es@.len() - i,
    {
        let e = &es[i];
        assert(es@.take(i + 1).drop_last() =~= es@.take(i as int));
        let icon = if exchange {
            &e.image
        } else {
            &e.icon
        };
        if let Some(name) = &e.name {
            if let Some(url) = icon {
                icons.insert(name.clone(), url.clone());
            }
        }
        i = i + 1;
    }
    assert(es@.take(es@.len() as int) =~= es@);
}

/// The icon table of a league from the overviews of all categories, one per
/// entry of `item_types()` in that order (`None` where the overview could not
/// be fetched or read).
pub fn collect_ninja_icons(responses: &Vec<Option<NinjaOverviewResponse>>) -> (r: NameMap<String>)
    requires
        responses@.len() == ITEM_TYPE_COUNT,
    ensures
        r@ == spec_icons_through(responses@, ITEM_TYPE_COUNT as int),
{
    let types = item_types();
    let mut icons: NameMap<String> = NameMap::new();
    let mut i: usize = 0;
    while i < responses.len()
        invariant
            responses@.len() == ITEM_TYPE_COUNT,
            types@.len() == ITEM_TYPE_COUNT,
            forall|j: int| 0 <= j < types@.len() ==> #[trigger] types@[j]@ == spec_item_types()[j],
            i <= responses@.len(),
            icons@ == spec_icons_through(responses@, i as int),
        decreases responses@.len() - i,
    {
        if let Some(data) = &responses[i] {
            assert(types@[i as int]@ == spec_item_types()[i as int]);
            add_overview_icons(&mut icons, types[i], data);
        }
        i = i + 1;
    }
    icons
}

// ---------------------------------------------------------------------------
// Laws of the overview URLs and the price and icon tables
// ---------------------------------------------------------------------------

/// Of the categories fetched, skill gems (the seventh) alone are priced by
/// stash listings and fetched from the stash item overview; every other
/// category is priced on the currency exchange and fetched from its overview.
pub proof fn lemma_fetched_categories_overviews(league: Seq<char>, i: int)
    requires
        0 <= i < ITEM_TYPE_COUNT,
    ensures
        spec_is_exchange_type(spec_item_types()[i]) <==> i != 6,
        i != 6 ==> spec_ninja_api_url(league, spec_item_types()[i])
            == "https://poe.ninja/poe1/api/economy/exchange/current/overview?league="@ + league
            + "&type="@ + spec_item_types()[i],
        i == 6 ==> spec_ninja_api_url(league, spec_item_types()[i])
            == "https://poe.ninja/poe1/api/economy/stash/current/item/overview?league="@ + league
            + "&type="@ + "SkillGem"@,
{
    reveal_strlit("SkillGem");
    reveal_strlit("Currency");
    reveal_strlit("Fragment");
    reveal_strlit("DivinationCard");
    reveal_strlit("Artifact");
    reveal_strlit("Oil");
    reveal_strlit("Incubator");
    reveal_strlit("DeliriumOrb");
    reveal_strlit("Invitation");
    reveal_strlit("Scarab");
    reveal_strlit("Astrolabe");
    reveal_strlit("Fossil");
    reveal_strlit("Resonator");
    reveal_strlit("Essence");
    reveal_strlit("Vial");
    let t = spec_item_types()[i];
    if i == 6 {
        assert(t == "SkillGem"@);
    } else {
        assert(t != "SkillGem"@) by {
            if i == 0 {
                assert(t[0] != "SkillGem"@[0]);
            } else if i == 1 {
                assert(t[0] != "SkillGem"@[0]);
            } else if i == 2 {
                assert(t[0] != "SkillGem"@[0]);
            } else if i == 3 {
                assert(t[0] != "SkillGem"@[0]);
            } else if i == 4 {
                assert(t[0] != "SkillGem"@[0]);
            } else if i == 5 {
                assert(t[0] != "SkillGem"@[0]);
            } else if i == 7 {
                assert(t[0] != "SkillGem"@[0]);
            } else if i == 8 {
                assert(t[0] != "SkillGem"@[0]);
            } else if i == 9 {
                assert(t[1] != "SkillGem"@[1]);
            } else if i == 10 {
                assert(t[0] != "SkillGem"@[0]);
            } else if i == 11 {
                assert(t[0] != "SkillGem"@[0]);
            } else if i == 12 {
                assert(t[0] != "SkillGem"@[0]);
            } else if i == 13 {
                assert(t[0] != "SkillGem"@[0]);
            } else {
                assert(t[0] != "SkillGem"@[0]);
            }
        }
    }
}

/// The name a price line prices, if it prices one: for an exchange line, the
/// name its id has in `names`; for a stash line, its own name.
spec fn priced_name(exchange: bool, names: Map<Seq<char>, String>, line: NinjaEntry) -> Option<
    Seq<char>,
> {
    if exchange {
        match (line.id, line.primary_value) {
            (Some(id), Some(_)) => if names.contains_key(id@) {
                Some(names[id@]@)
            } else {
                None
            },
            _ => None,
        }
    } else {
        match (line.name, line.chaos_value) {
            (Some(n), Some(_)) => Some(n@),
            _ => None,
        }
    }
}

/// The price a line gives, where it prices a name.
spec fn line_price(exchange: bool, line: NinjaEntry) -> u64 {
    if exchange {
        line.primary_value.unwrap()
    } else {
        line.chaos_value.unwrap()
    }
}

/// A line's price stands unless a later line prices the same name.
proof fn lemma_price_line_stands(
    m: Map<Seq<char>, u64>,
    exchange: bool,
    names: Map<Seq<char>, String>,
    lines: Seq<NinjaEntry>,
    k: int,
    key: Seq<char>,
)
    requires
        0 <= k < lines.len(),
        priced_name(exchange, names, lines[k]) == Some(key),
        forall|j: int| k < j < lines.len() ==> priced_name(exchange, names, #[trigger] lines[j]) != Some(key),
    ensures
        spec_add_price_lines(m, exchange, names, lines).contains_key(key),
        spec_add_price_lines(m, exchange, names, lines)[key] == line_price(exchange, lines[k]),
    decreases lines.len(),
{
    let prev = lines.drop_last();
    if k < lines.len() - 1 {
        assert forall|j: int| k < j < prev.len() implies priced_name(exchange, names, #[trigger] prev[j])
            != Some(key) by {
            assert(prev[j] == lines[j]);
        }
        lemma_price_line_stands(m, exchange, names, prev, k, key);
        assert(prev[k] == lines[k]);
        assert(priced_name(exchange, names, lines[lines.len() - 1]) != Some(key));
    }
}

/// In an exchange overview an id names the last item listed with it that has a name.
proof fn lemma_id_names_last_item(items: Seq<NinjaEntry>, j: int, id: Seq<char>)
    requires
        0 <= j < items.len(),
        items[j].id is Some,
        items[j].id.unwrap()@ == id,
        items[j].name is Some,
        forall|i: int|
            j < i < items.len() ==> (#[trigger] items[i]).id is None || items[i].name is None
                || items[i].id.unwrap()@ != id,
    ensures
        spec_id_names(items).contains_key(id),
        spec_id_names(items)[id] == items[j].name.unwrap(),
    decreases items.len(),
{
    let prev = items.drop_last();
    if j < items.len() - 1 {
        assert forall|i: int| j < i < prev.len() implies (#[trigger] prev[i]).id is None
            || prev[i].name is None || prev[i].id.unwrap()@ != id by {
            assert(prev[i] == items[i]);
        }
        assert(prev[j] == items[j]);
        lemma_id_names_last_item(prev, j, id);
        let last = items[items.len() - 1];
        assert(last.id is None || last.name is None || last.id.unwrap()@ != id);
    }
}

/// Every name in an exchange overview's id table is the name of an item listed with that id.
proof fn lemma_id_names_from_items(items: Seq<NinjaEntry>, x: Seq<char>)
    requires
        spec_id_names(items).contains_key(x),
    ensures
        exists|j: int|
            0 <= j < items.len() && (#[trigger] items[j]).id is Some && items[j].id.unwrap()@ == x
                && items[j].name == Some(spec_id_names(items)[x]),
    decreases items.len(),
{
    let prev = items.drop_last();
    let last = items[items.len() - 1];
    if last.id is Some && last.name is Some && last.id.unwrap()@ == x {
        assert(items[items.len() - 1] == last);
    } else {
        lemma_id_names_from_items(prev, x);
        let j = choose|j: int|
            0 <= j < prev.len() && (#[trigger] prev[j]).id is Some && prev[j].id.unwrap()@ == x
                && prev[j].name == Some(spec_id_names(prev)[x]);
        assert(items[j] == prev[j]);
    }
}

/// Every category but skill gems is priced on the currency exchange: a line
/// of its overview that has an id and a `primary_value` prices the item
/// listed last with that id, under that item's name, unless a later line
/// prices an item of the same name.
pub proof fn lemma_exchange_lines_price_items_by_id(
    m: Map<Seq<char>, u64>,
    item_type: Seq<char>,
    data: NinjaOverviewResponse,
    k: int,
    j: int,
)
    requires
        item_type != "SkillGem"@,
        0 <= k < data.lines@.len(),
        data.lines@[k].id is Some,
        data.lines@[k].primary_value is Some,
        0 <= j < data.items@.len(),
        data.items@[j].id is Some,
        data.items@[j].name is Some,
        data.items@[j].id.unwrap()@ == data.lines@[k].id.unwrap()@,
        forall|i: int|
            j < i < data.items@.len() ==> (#[trigger] data.items@[i]).id is None
                || data.items@[i].name is None || data.items@[i].id.unwrap()@
                != data.lines@[k].id.unwrap()@,
        forall|l: int, i: int|
            k < l < data.lines@.len() && 0 <= i < data.items@.len() && (#[trigger] data.lines@[l]).id is Some
                && data.lines@[l].primary_value is Some && (#[trigger] data.items@[i]).id is Some
                && data.items@[i].id.unwrap()@ == data.lines@[l].id.unwrap()@
                && data.items@[i].name is Some ==> data.items@[i].name.unwrap()@
                != data.items@[j].name.unwrap()@,
    ensures
        spec_add_overview_prices(m, item_type, data).contains_key(data.items@[j].name.unwrap()@),
        spec_add_overview_prices(m, item_type, data)[data.items@[j].name.unwrap()@]
            == data.lines@[k].primary_value.unwrap(),
{
    let names = spec_id_names(data.items@);
    let name = data.items@[j].name.unwrap()@;
    let id = data.lines@[k].id.unwrap()@;
    lemma_id_names_last_item(data.items@, j, id);
    assert(priced_name(true, names, data.lines@[k]) == Some(name));
    assert forall|l: int| k < l < data.lines@.len() implies priced_name(
        true,
        names,
        #[trigger] data.lines@[l],
    ) != Some(name) by {
        let line = data.lines@[l];
        if line.id is Some && line.primary_value is Some && names.contains_key(line.id.unwrap()@) {
            lemma_id_names_from_items(data.items@, line.id.unwrap()@);
            let i = choose|i: int|
                0 <= i < data.items@.len() && (#[trigger] data.items@[i]).id is Some
                    && data.items@[i].id.unwrap()@ == line.id.unwrap()@ && data.items@[i].name
                    == Some(names[line.id.unwrap()@]);
            assert(data.items@[i].name.unwrap()@ != name);
        }
    }
    lemma_price_line_stands(m, true, names, data.lines@, k, name);
}

/// Skill gems are priced by stash listings: a line of their overview with a
/// name and a `chaosValue` prices that name, unless a later line prices it too.
pub proof fn lemma_skill_gem_lines_price_by_name(
    m: Map<Seq<char>, u64>,
    data: NinjaOverviewResponse,
    k: int,
)
    requires
        0 <= k < data.lines@.len(),
        data.lines@[k].name is Some,
        data.lines@[k].chaos_value is Some,
        forall|l: int|
            k < l < data.lines@.len() ==> (#[trigger] data.lines@[l]).name is None
                || data.lines@[l].chaos_value is None || data.lines@[l].name.unwrap()@
                != data.lines@[k].name.unwrap()@,
    ensures
        spec_add_overview_prices(m, "SkillGem"@, data).contains_key(data.lines@[k].name.unwrap()@),
        spec_add_overview_prices(m, "SkillGem"@, data)[data.lines@[k].name.unwrap()@]
            == data.lines@[k].chaos_value.unwrap(),
{
    let name = data.lines@[k].name.unwrap()@;
    let names = Map::<Seq<char>, String>::empty();
    assert forall|l: int| k < l < data.lines@.len() implies priced_name(
        false,
        names,
        #[trigger] data.lines@[l],
    ) != Some(name) by {}
    lemma_price_line_stands(m, false, names, data.lines@, k, name);
}

/// Categories whose overview could not be had change nothing: the price table
/// is what it was after the last category that had one.
pub proof fn lemma_prices_after_last_overview(responses: Seq<Option<NinjaOverviewResponse>>, i: int, n: int)
    requires
        0 <= i < n <= responses.len(),
        responses[i] is Some,
        forall|j: int| i < j < n ==> (#[trigger] responses[j]) is None,
    ensures
        spec_prices_through(responses, n) == spec_add_overview_prices(
            spec_prices_through(responses, i),
            spec_item_types()[i],
            responses[i].unwrap(),
        ),
    decreases n,
{
    if n > i + 1 {
        assert(responses[n - 1] is None);
        lemma_prices_after_last_overview(responses, i, n - 1);
    }
}

/// The finished table keeps every price but the Chaos Orb's, which is one
/// chaos (the bits of 1.0), adds no other name, and gives a Divine Orb the
/// fallback price of 100 chaos (the bits of 100.0) only where none came.
pub proof fn lemma_finish_keeps_prices(m: Map<Seq<char>, u64>, name: Seq<char>)
    ensures
        name != "Chaos Orb"@ && m.contains_key(name) ==> spec_finish_prices(m).contains_key(name)
            && spec_finish_prices(m)[name] == m[name],
        name != "Chaos Orb"@ && name != "Divine Orb"@ && !m.contains_key(name)
            ==> !spec_finish_prices(m).contains_key(name),
        spec_finish_prices(m)["Chaos Orb"@] == 0x3FF0_0000_0000_0000u64,
        spec_finish_prices(m).contains_key("Divine Orb"@),
        !m.contains_key("Divine Orb"@) ==> spec_finish_prices(m)["Divine Orb"@]
            == 0x4059_0000_0000_0000u64,
{
    reveal_strlit("Chaos Orb");
    reveal_strlit("Divine Orb");
    assert("Chaos Orb"@[0] != "Divine Orb"@[0]);
}

/// An icon entry's icon stands unless a later entry gives the same name an icon.
proof fn lemma_icon_entry_stands(m: Map<Seq<char>, String>, exchange: bool, es: Seq<NinjaEntry>, k: int)
    requires
        0 <= k < es.len(),
        es[k].name is Some,
        (if exchange { es[k].image } else { es[k].icon }) is Some,
        forall|l: int|
            k < l < es.len() ==> (#[trigger] es[l]).name is None || (if exchange {
                es[l].image
            } else {
                es[l].icon
            }) is None || es[l].name.unwrap()@ != es[k].name.unwrap()@,
    ensures
        spec_add_icons(m, exchange, es).contains_key(es[k].name.unwrap()@),
        spec_add_icons(m, exchange, es)[es[k].name.unwrap()@] == (if exchange {
            es[k].image
        } else {
            es[k].icon
        }).unwrap(),
    decreases es.len(),
{
    let prev = es.drop_last();
    if k < es.len() - 1 {
        assert forall|l: int| k < l < prev.len() implies (#[trigger] prev[l]).name is None || (if exchange {
            prev[l].image
        } else {
            prev[l].icon
        }) is None || prev[l].name.unwrap()@ != prev[k].name.unwrap()@ by {
            assert(prev[l] == es[l]);
        }
        assert(prev[k] == es[k]);
        lemma_icon_entry_stands(m, exchange, prev, k);
        let last = es[es.len() - 1];
        assert(last.name is None || (if exchange { last.image } else { last.icon }) is None
            || last.name.unwrap()@ != es[k].name.unwrap()@);
    }
}

/// The icon table after all categories has, for the last category whose
/// overview came, every entry with a name and an icon (its items' `image`
/// for exchange categories, its lines' `icon` for skill gems) unless a later
/// entry of that overview gives the same name an icon.
pub proof fn lemma_icons_from_last_overview(
    responses: Seq<Option<NinjaOverviewResponse>>,
    i: int,
    exchange: bool,
    es: Seq<NinjaEntry>,
    k: int,
)
    requires
        responses.len() == ITEM_TYPE_COUNT,
        0 <= i < ITEM_TYPE_COUNT,
        responses[i] is Some,
        forall|j: int| i < j < ITEM_TYPE_COUNT ==> (#[trigger] responses[j]) is None,
        exchange == (spec_item_types()[i] != "SkillGem"@),
        es == (if exchange { responses[i].unwrap().items@ } else { responses[i].unwrap().lines@ }),
        0 <= k < es.len(),
        es[k].name is Some,
        (if exchange { es[k].image } else { es[k].icon }) is Some,
        forall|l: int|
            k < l < es.len() ==> (#[trigger] es[l]).name is None || (if exchange {
                es[l].image
            } else {
                es[l].icon
            }) is None || es[l].name.unwrap()@ != es[k].name.unwrap()@,
    ensures
        spec_icons_through(responses, ITEM_TYPE_COUNT as int).contains_key(es[k].name.unwrap()@),
        spec_icons_through(responses, ITEM_TYPE_COUNT as int)[es[k].name.unwrap()@] == (if exchange {
            es[k].image
        } else {
            es[k].icon
        }).unwrap(),
{
    lemma_icons_after_last_overview(responses, i, ITEM_TYPE_COUNT as int);
    lemma_icon_entry_stands(spec_icons_through(responses, i), exchange, es, k);
}

/// Categories whose overview could not be had change nothing in the icon table.
proof fn lemma_icons_after_last_overview(responses: Seq<Option<NinjaOverviewResponse>>, i: int, n: int)
    requires
        0 <= i < n <= responses.len(),
        responses[i] is Some,
        forall|j: int| i < j < n ==> (#[trigger] responses[j]) is None,
    ensures
        spec_icons_through(responses, n) == spec_add_overview_icons(
            spec_icons_through(responses, i),
            spec_item_types()[i],
            responses[i].unwrap(),
        ),
    decreases n,
{
    if n > i + 1 {
        assert(responses[n - 1] is None);
        lemma_icons_after_last_overview(responses, i, n - 1);
    }
}

} // verus!
