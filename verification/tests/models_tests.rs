use greed_of_exile::models::{AppConfig, DisabledResources, PoeItem};

fn item(type_line: &str, name: &str, base_type: &str) -> PoeItem {
    PoeItem {
        type_line: type_line.to_string(),
        name: name.to_string(),
        stack_size: None,
        base_type: base_type.to_string(),
        icon: String::new(),
    }
}

#[test]
fn display_name_prefers_explicit_name() {
    assert_eq!(item("Leather Belt", "Headhunter", "Leather Belt").display_name(), "Headhunter");
    assert_eq!(item("Chaos Orb", "", "").display_name(), "Chaos Orb");
}

#[test]
fn lookup_name_prefers_base_type() {
    assert_eq!(item("Superior Ruby Ring", "", "Ruby Ring").lookup_name(), "Ruby Ring");
    assert_eq!(item("Chaos Orb", "", "").lookup_name(), "Chaos Orb");
}

#[test]
fn disabled_resources_toggle() {
    let mut d = DisabledResources::new();
    assert!(!d.is_disabled(3, "Chaos Orb"));
    d.set_tracked(3, String::from("Chaos Orb"), false);
    assert!(d.is_disabled(3, "Chaos Orb"));
    assert!(!d.is_disabled(4, "Chaos Orb"));
    assert!(!d.is_disabled(3, "Divine Orb"));
    d.set_tracked(3, String::from("Chaos Orb"), true);
    assert!(!d.is_disabled(3, "Chaos Orb"));
    // the tab keeps an (empty) set once touched
    let tabs = d.tab_names();
    assert_eq!(tabs.len(), 1);
    assert_eq!(tabs[0].0, 3);
    assert!(tabs[0].1.is_empty());
}

#[test]
fn tab_names_list_each_disabled_item_once() {
    let mut d = DisabledResources::new();
    d.set_tracked(1, String::from("a"), false);
    d.set_tracked(2, String::from("x"), false);
    d.set_tracked(1, String::from("b"), false);
    d.set_tracked(1, String::from("a"), false);
    let mut tabs = d.tab_names();
    tabs.sort();
    for t in tabs.iter_mut() {
        t.1.sort();
    }
    assert_eq!(
        tabs,
        vec![
            (1, vec![String::from("a"), String::from("b")]),
            (2, vec![String::from("x")])
        ]
    );
}

#[test]
fn enabling_in_an_untouched_tab_creates_an_empty_set() {
    let mut d = DisabledResources::new();
    d.set_tracked(9, String::from("Scarab"), true);
    let tabs = d.tab_names();
    assert_eq!(tabs, vec![(9, Vec::<String>::new())]);
}

#[test]
fn fresh_config_is_empty() {
    let c = AppConfig::new();
    assert!(c.account_name.is_empty());
    assert!(c.poesessid.is_empty());
    assert!(c.league.is_empty());
    assert!(c.tracked_tabs.is_empty());
    assert!(c.disabled_resources.tab_names().is_empty());
}
