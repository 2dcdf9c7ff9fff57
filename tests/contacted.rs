use ducats_buyer::{contacted_record, record_id, ContactLog, Order, User};

fn offer(id: &str, item: Option<&str>) -> Order {
    Order {
        id: id.to_string(),
        platinum: 3,
        quantity: 12,
        order_type: "sell".to_string(),
        visible: true,
        user: User { ingame_name: "Trader".to_string(), status: "ingame".to_string() },
        item_url: None,
        item_name: item.map(|s| s.to_string()),
        price_to_offer: None,
        sum_to_offer: None,
        is_with_group: None,
    }
}

#[test]
fn log_line_of_an_offer() {
    assert_eq!(contacted_record(&offer("abc", Some("Tatsu Prime Blade"))), "abc,Trader,Tatsu Prime Blade,3,12");
    assert_eq!(contacted_record(&offer("abc", None)), "abc,Trader,,3,12");
}

#[test]
fn id_is_the_first_field() {
    assert_eq!(record_id("abc,Trader,Item,3,12"), "abc");
    assert_eq!(record_id("lonely"), "lonely");
    assert_eq!(record_id(",x"), "");
    assert_eq!(record_id(&contacted_record(&offer("id9", Some("I")))), "id9");
}

#[test]
fn contact_log_records_once() {
    let mut log = ContactLog::from_lines(&vec!["a,Trader,Item,1,1".to_string(), "b".to_string()]);
    assert!(log.contains(&"a".to_string()));
    assert!(log.contains(&"b".to_string()));
    assert!(!log.contains(&"c".to_string()));
    assert!(log.record("c".to_string()));
    assert!(!log.record("c".to_string()));
    assert!(log.contains(&"c".to_string()));
    let mut ids = log.ids();
    ids.sort();
    assert_eq!(ids, vec!["a", "b", "c"]);
    log.clear();
    assert!(!log.contains(&"a".to_string()));
    assert!(ContactLog::new().ids().is_empty());
}
