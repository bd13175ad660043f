use greed_of_exile::api::{
    collect_ninja_icons, collect_ninja_prices, is_exchange_type, item_types, ninja_api_url,
    sorted_league_ids, CHAOS_ORB_PRICE_BITS, DIVINE_ORB_FALLBACK_BITS, ITEM_TYPE_COUNT,
};
use greed_of_exile::models::{
    NinjaEntry, NinjaOverviewResponse, PoeTradeLeague, PoeTradeLeaguesResponse,
};

fn entry() -> NinjaEntry {
    NinjaEntry { id: None, name: None, primary_value: None, chaos_value: None, image: None, icon: None }
}

fn s(x: &str) -> Option<String> {
    Some(x.to_string())
}

fn no_responses() -> Vec<Option<NinjaOverviewResponse>> {
    (0..ITEM_TYPE_COUNT).map(|_| None).collect()
}

fn index_of(t: &str) -> usize {
    item_types().iter().position(|x| *x == t).unwrap()
}

#[test]
fn the_fifteen_categories_in_order() {
    assert_eq!(
        item_types(),
        vec![
            "Currency", "Fragment", "DivinationCard", "Artifact", "Oil", "Incubator", "SkillGem",
            "DeliriumOrb", "Invitation", "Scarab", "Astrolabe", "Fossil", "Resonator", "Essence",
            "Vial",
        ]
    );
}

#[test]
fn only_skill_gems_are_priced_by_stash_listings() {
    assert!(!is_exchange_type("SkillGem"));
    assert!(is_exchange_type("Currency"));
    assert!(is_exchange_type("Scarab"));
    assert!(is_exchange_type("skillgem"));
}

#[test]
fn overview_urls() {
    assert_eq!(
        ninja_api_url("Settlers", "Currency"),
        "https://poe.ninja/poe1/api/economy/exchange/current/overview?league=Settlers&type=Currency"
    );
    assert_eq!(
        ninja_api_url("Hardcore Settlers", "SkillGem"),
        "https://poe.ninja/poe1/api/economy/stash/current/item/overview?league=Hardcore Settlers&type=SkillGem"
    );
}

#[test]
fn leagues_are_sorted_and_deduplicated() {
    let data = PoeTradeLeaguesResponse {
        result: ["Standard", "Hardcore", "Standard", "Affliction", "Hardcore Affliction", "Hardcore"]
            .iter()
            .map(|id| PoeTradeLeague { id: id.to_string() })
            .collect(),
    };
    assert_eq!(
        sorted_league_ids(&data),
        vec!["Affliction", "Hardcore", "Hardcore Affliction", "Standard"]
    );
}

#[test]
fn league_order_is_std_string_order() {
    let ids = ["zeta", "Zeta", "éte", "ete", "e", "", "Ete2", "ete"];
    let data = PoeTradeLeaguesResponse {
        result: ids.iter().map(|id| PoeTradeLeague { id: id.to_string() }).collect(),
    };
    let mut expected: Vec<String> = ids.iter().map(|x| x.to_string()).collect();
    expected.sort();
    expected.dedup();
    assert_eq!(sorted_league_ids(&data), expected);
    assert!(sorted_league_ids(&PoeTradeLeaguesResponse { result: vec![] }).is_empty());
}

#[test]
fn no_overview_still_prices_chaos_and_divine() {
    let prices = collect_ninja_prices(&no_responses());
    assert_eq!(prices.get("Chaos Orb"), Some(&CHAOS_ORB_PRICE_BITS));
    assert_eq!(prices.get("Divine Orb"), Some(&DIVINE_ORB_FALLBACK_BITS));
    assert_eq!(f64::from_bits(CHAOS_ORB_PRICE_BITS), 1.0);
    assert_eq!(f64::from_bits(DIVINE_ORB_FALLBACK_BITS), 100.0);
    assert_eq!(prices.len(), 2);
}

#[test]
fn exchange_lines_are_priced_through_item_ids() {
    let mut responses = no_responses();
    responses[index_of("Currency")] = Some(NinjaOverviewResponse {
        items: vec![
            NinjaEntry { id: s("divine"), name: s("Divine Orb"), ..entry() },
            NinjaEntry { id: s("chaos"), name: s("Chaos Orb"), ..entry() },
            NinjaEntry { id: s("exalted"), name: s("Exalted Orb"), ..entry() },
            NinjaEntry { id: s("nameless"), ..entry() },
        ],
        lines: vec![
            NinjaEntry { id: s("divine"), primary_value: Some(180.5f64.to_bits()), ..entry() },
            NinjaEntry { id: s("chaos"), primary_value: Some(0.5f64.to_bits()), ..entry() },
            NinjaEntry { id: s("unknown"), primary_value: Some(3.0f64.to_bits()), ..entry() },
            NinjaEntry { id: s("exalted"), chaos_value: Some(9.0f64.to_bits()), ..entry() },
            NinjaEntry { id: s("nameless"), primary_value: Some(2.0f64.to_bits()), ..entry() },
        ],
    });
    let prices = collect_ninja_prices(&responses);
    assert_eq!(prices.get("Divine Orb").map(|b| f64::from_bits(*b)), Some(180.5));
    // Chaos Orb is always 1:1, whatever poe.ninja says.
    assert_eq!(prices.get("Chaos Orb").map(|b| f64::from_bits(*b)), Some(1.0));
    assert_eq!(prices.get("Exalted Orb"), None);
    assert_eq!(prices.get("unknown"), None);
    assert_eq!(prices.len(), 2);
}

#[test]
fn stash_lines_are_priced_by_name_and_chaos_value() {
    let mut responses = no_responses();
    responses[index_of("SkillGem")] = Some(NinjaOverviewResponse {
        items: vec![NinjaEntry { id: s("x"), name: s("Ignored"), ..entry() }],
        lines: vec![
            NinjaEntry { name: s("Empower Support"), chaos_value: Some(20.0f64.to_bits()), ..entry() },
            NinjaEntry { name: s("Enlighten Support"), primary_value: Some(5.0f64.to_bits()), ..entry() },
            NinjaEntry { name: s("Empower Support"), chaos_value: Some(25.0f64.to_bits()), ..entry() },
        ],
    });
    let prices = collect_ninja_prices(&responses);
    assert_eq!(prices.get("Empower Support").map(|b| f64::from_bits(*b)), Some(25.0));
    assert_eq!(prices.get("Enlighten Support"), None);
    assert_eq!(prices.get("Ignored"), None);
}

#[test]
fn later_categories_override_earlier_prices() {
    let mut responses = no_responses();
    responses[index_of("Currency")] = Some(NinjaOverviewResponse {
        items: vec![NinjaEntry { id: s("a"), name: s("Thing"), ..entry() }],
        lines: vec![NinjaEntry { id: s("a"), primary_value: Some(1.5f64.to_bits()), ..entry() }],
    });
    responses[index_of("SkillGem")] = Some(NinjaOverviewResponse {
        items: vec![],
        lines: vec![NinjaEntry { name: s("Thing"), chaos_value: Some(7.0f64.to_bits()), ..entry() }],
    });
    let prices = collect_ninja_prices(&responses);
    assert_eq!(prices.get("Thing").map(|b| f64::from_bits(*b)), Some(7.0));
}

#[test]
fn icons_come_from_items_or_lines() {
    let mut responses = no_responses();
    responses[index_of("Scarab")] = Some(NinjaOverviewResponse {
        items: vec![
            NinjaEntry { name: s("Gilded Scarab"), image: s("/gen/image/scarab.png"), ..entry() },
            NinjaEntry { name: s("No Image"), icon: s("/wrong.png"), ..entry() },
        ],
        lines: vec![NinjaEntry { name: s("Line Scarab"), image: s("/line.png"), ..entry() }],
    });
    responses[index_of("SkillGem")] = Some(NinjaOverviewResponse {
        items: vec![NinjaEntry { name: s("Item Gem"), image: s("/item.png"), ..entry() }],
        lines: vec![NinjaEntry {
            name: s("Empower Support"),
            icon: s("https://web.poecdn.com/gem.png"),
            ..entry()
        }],
    });
    let icons = collect_ninja_icons(&responses);
    assert_eq!(icons.get("Gilded Scarab").map(|x| x.as_str()), Some("/gen/image/scarab.png"));
    assert_eq!(icons.get("Empower Support").map(|x| x.as_str()), Some("https://web.poecdn.com/gem.png"));
    assert_eq!(icons.get("No Image"), None);
    assert_eq!(icons.get("Line Scarab"), None);
    assert_eq!(icons.get("Item Gem"), None);
    assert_eq!(icons.len(), 2);
}

#[test]
fn sorted_league_list_is_determined_by_its_ids() {
    let ids = ["b", "a", "c", "a"];
    let data = PoeTradeLeaguesResponse {
        result: ids.iter().map(|id| PoeTradeLeague { id: id.to_string() }).collect(),
    };
    let once = sorted_league_ids(&data);
    let again = sorted_league_ids(&PoeTradeLeaguesResponse {
        result: once.iter().rev().map(|id| PoeTradeLeague { id: id.clone() }).collect(),
    });
    assert_eq!(once, again);
    assert_eq!(once, vec!["a", "b", "c"]);
}
