use ducats_buyer::{ConfigError, Order, Settings, SettingsManager, User, PROFITABLE_ITEM_NAMES};

#[test]
fn default_settings() {
    let s = Settings::default();
    assert_eq!(s.max_price_to_search(), "4");
    assert_eq!(s.min_quantity_to_search(), "2");
    assert_eq!(s.price_to_offer(), "3");
    assert_eq!(s.item_names(), PROFITABLE_ITEM_NAMES.join("\n"));
    assert!(s.item_names().starts_with("Harrow Prime Blueprint\nAstilla Prime Stock\n"));
    assert!(s.item_names().ends_with("\nDual Keres Prime Blueprint"));
    assert!(s.ignored_user_nicknames().is_empty());
}

#[test]
fn setters_change_one_field() {
    let mut s = Settings::default();
    s.set_max_price_to_search("9".to_string());
    s.set_min_quantity_to_search("5".to_string());
    s.set_price_to_offer("1".to_string());
    s.set_item_names("A\nB".to_string());
    s.set_ignored_user_nicknames(vec!["x".to_string()]);
    assert_eq!(s.max_price_to_search(), "9");
    assert_eq!(s.min_quantity_to_search(), "5");
    assert_eq!(s.price_to_offer(), "1");
    assert_eq!(s.item_names(), "A\nB");
    assert_eq!(s.ignored_user_nicknames(), &vec!["x".to_string()]);
}

#[test]
fn ignored_nicknames_have_no_duplicates() {
    let mut s = Settings::default();
    s.add_ignored_user_nickname("Bob".to_string());
    s.add_ignored_user_nickname("Ann".to_string());
    s.add_ignored_user_nickname("Bob".to_string());
    assert_eq!(s.ignored_user_nicknames(), &vec!["Bob".to_string(), "Ann".to_string()]);
    s.remove_ignored_user_nickname("Bob");
    assert_eq!(s.ignored_user_nicknames(), &vec!["Ann".to_string()]);
    s.remove_ignored_user_nickname("Nobody");
    assert_eq!(s.ignored_user_nicknames(), &vec!["Ann".to_string()]);
}

#[test]
fn removing_a_nickname_removes_every_copy() {
    let mut s = Settings::default();
    s.set_ignored_user_nicknames(vec!["a".to_string(), "b".to_string(), "a".to_string()]);
    s.remove_ignored_user_nickname("a");
    assert_eq!(s.ignored_user_nicknames(), &vec!["b".to_string()]);
}

#[test]
fn presets_save_and_load() {
    let mut m = SettingsManager::default();
    assert!(m.get_presets().is_empty());
    assert_eq!(m.get_current_preset_name(), None);
    m.get_current_settings_mut().set_max_price_to_search("7".to_string());
    m.save_as_preset("cheap".to_string());
    assert_eq!(m.get_current_preset_name(), Some("cheap"));
    assert_eq!(m.get_presets().len(), 1);
    assert_eq!(m.get_presets()[0].name, "cheap");
    assert_eq!(m.get_presets()[0].settings.max_price_to_search(), "7");

    m.reset_settings();
    assert_eq!(m.get_current_settings().max_price_to_search(), "4");
    assert_eq!(m.get_current_preset_name(), Some("cheap"));
    assert_eq!(m.get_presets().len(), 1);

    assert!(m.load_preset("cheap"));
    assert_eq!(m.get_current_settings().max_price_to_search(), "7");
    assert!(!m.load_preset("missing"));
    assert_eq!(m.get_current_preset_name(), Some("cheap"));
}

#[test]
fn saving_under_an_existing_name_replaces_it() {
    let mut m = SettingsManager::default();
    m.save_as_preset("one".to_string());
    m.save_as_preset("two".to_string());
    m.get_current_settings_mut().set_price_to_offer("2".to_string());
    m.save_as_preset("one".to_string());
    let names: Vec<&str> = m.get_presets().iter().map(|p| p.name.as_str()).collect();
    assert_eq!(names, vec!["two", "one"]);
    assert_eq!(m.get_presets()[1].settings.price_to_offer(), "2");
    assert_eq!(m.get_presets()[0].settings.price_to_offer(), "3");
}

#[test]
fn update_current_preset() {
    let mut m = SettingsManager::default();
    assert!(!m.update_current_preset());
    m.save_as_preset("p".to_string());
    m.get_current_settings_mut().set_min_quantity_to_search("8".to_string());
    assert!(m.update_current_preset());
    assert_eq!(m.get_presets()[0].settings.min_quantity_to_search(), "8");
    m.delete_preset("p");
    assert!(!m.update_current_preset());
}

#[test]
fn deleting_presets() {
    let mut m = SettingsManager::default();
    m.save_as_preset("a".to_string());
    m.save_as_preset("b".to_string());
    m.delete_preset("a");
    assert_eq!(m.get_current_preset_name(), Some("b"));
    assert_eq!(m.get_presets().len(), 1);
    m.delete_preset("b");
    assert_eq!(m.get_current_preset_name(), None);
    assert!(m.get_presets().is_empty());
    m.save_as_preset("c".to_string());
    m.save_as_preset("d".to_string());
    m.delete_all_presets();
    assert!(m.get_presets().is_empty());
    assert_eq!(m.get_current_preset_name(), None);
}

#[test]
fn filter_from_settings() {
    let mut s = Settings::default();
    s.add_ignored_user_nickname("Ignored".to_string());
    let f = s.order_filter(vec!["seen".to_string()]).unwrap();
    assert_eq!(f.max_price, 4);
    assert_eq!(f.min_quantity, 2);
    assert_eq!(f.excluded_order_ids, vec!["seen".to_string()]);
    assert_eq!(f.excluded_user_names, vec!["Ignored".to_string()]);
    let o = Order {
        id: "new".to_string(),
        platinum: 4,
        quantity: 2,
        order_type: "sell".to_string(),
        visible: true,
        user: User { ingame_name: "Trader".to_string(), status: "ingame".to_string() },
        item_url: None,
        item_name: None,
        price_to_offer: None,
        sum_to_offer: None,
        is_with_group: None,
    };
    assert!(f.qualifies(&o));
    assert_eq!(s.desired_price(), Ok(3));

    s.set_max_price_to_search("four".to_string());
    assert_eq!(s.order_filter(Vec::new()).unwrap_err(), ConfigError::MaxPriceToSearch);
    s.set_max_price_to_search("4".to_string());
    s.set_min_quantity_to_search("".to_string());
    assert_eq!(s.order_filter(Vec::new()).unwrap_err(), ConfigError::MinQuantityToSearch);
    s.set_price_to_offer("-3".to_string());
    assert_eq!(s.desired_price(), Err(ConfigError::PriceToOffer));
}

#[test]
fn item_list_from_settings() {
    let mut s = Settings::default();
    let all = s.item_name_list();
    assert_eq!(all.len(), PROFITABLE_ITEM_NAMES.len());
    assert_eq!(all[0], "Harrow Prime Blueprint");
    s.set_item_names("  A \n\nB\r\n".to_string());
    assert_eq!(s.item_name_list(), vec!["A", "B"]);
}
