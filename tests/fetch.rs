use ducats_buyer::{Order, OrderFetcher, User, BASE_URL};

fn raw_offer(id: &str) -> Order {
    Order {
        id: id.to_string(),
        platinum: 1,
        quantity: 1,
        order_type: "sell".to_string(),
        visible: true,
        user: User { ingame_name: "S".to_string(), status: "ingame".to_string() },
        item_url: None,
        item_name: None,
        price_to_offer: None,
        sum_to_offer: None,
        is_with_group: None,
    }
}

fn names(list: &[&str]) -> Vec<String> {
    list.iter().map(|s| s.to_string()).collect()
}

#[test]
fn requests_carry_canonical_key_and_url() {
    let mut f = OrderFetcher::new(names(&["Harrow Prime Blueprint"]), 1);
    let r = f.next_request().unwrap();
    assert_eq!(r.index, 0);
    assert_eq!(r.item_name, "Harrow Prime Blueprint");
    assert_eq!(r.item_url, "harrow_prime_blueprint");
    assert_eq!(r.url, format!("{}/items/harrow_prime_blueprint/orders", BASE_URL));
}

#[test]
fn at_most_limit_in_flight() {
    let mut f = OrderFetcher::new(names(&["A", "B", "C", "D"]), 2);
    let a = f.next_request().unwrap();
    let b = f.next_request().unwrap();
    assert!(f.next_request().is_none());
    assert!(f.is_in_flight(a.index) && f.is_in_flight(b.index));
    f.record(b.index, Ok(Vec::new()));
    let c = f.next_request().unwrap();
    assert_eq!(c.index, 2);
    assert!(f.next_request().is_none());
    f.record(a.index, Ok(Vec::new()));
    f.record(c.index, Ok(Vec::new()));
    let d = f.next_request().unwrap();
    assert_eq!(d.index, 3);
    assert!(!f.is_finished());
    f.record(d.index, Ok(Vec::new()));
    assert!(f.next_request().is_none());
    assert!(f.is_finished());
}

#[test]
fn one_failure_is_isolated() {
    let mut f = OrderFetcher::new(names(&["Item One", "Item Two", "Item Three"]), 3);
    let r0 = f.next_request().unwrap();
    let r1 = f.next_request().unwrap();
    let r2 = f.next_request().unwrap();
    f.record(r2.index, Ok(vec![raw_offer("c1")]));
    f.record(r1.index, Err("connection reset".to_string()));
    f.record(r0.index, Ok(vec![raw_offer("a1"), raw_offer("a2")]));
    assert!(f.is_finished());
    let report = f.finish();
    assert_eq!(report.errors.len(), 1);
    assert_eq!(report.errors[0].item_name, "Item Two");
    assert_eq!(report.errors[0].message, "connection reset");
    let got: Vec<(String, Option<String>, Option<String>)> = report
        .orders
        .iter()
        .map(|o| (o.id.clone(), o.item_name.clone(), o.item_url.clone()))
        .collect();
    assert_eq!(
        got,
        vec![
            ("a1".to_string(), Some("Item One".to_string()), Some("item_one".to_string())),
            ("a2".to_string(), Some("Item One".to_string()), Some("item_one".to_string())),
            ("c1".to_string(), Some("Item Three".to_string()), Some("item_three".to_string())),
        ]
    );
}

#[test]
fn duplicate_items_are_fetched_independently() {
    let mut f = OrderFetcher::new(names(&["Same", "Same"]), 1);
    let r0 = f.next_request().unwrap();
    assert!(f.next_request().is_none());
    f.record(r0.index, Ok(vec![raw_offer("x")]));
    let r1 = f.next_request().unwrap();
    assert_eq!(r1.index, 1);
    f.record(r1.index, Ok(vec![raw_offer("y")]));
    let report = f.finish();
    assert_eq!(report.orders.len(), 2);
    assert!(report.errors.is_empty());
}

#[test]
fn nothing_to_fetch_is_finished_at_once() {
    let mut f = OrderFetcher::new(Vec::new(), 3);
    assert!(f.next_request().is_none());
    assert!(f.is_finished());
    let report = f.finish();
    assert!(report.orders.is_empty() && report.errors.is_empty());
}

#[test]
fn url_of_an_item_listing() {
    assert_eq!(
        ducats_buyer::fetch::item_orders_url("tatsu_prime_blade"),
        "https://api.warframe.market/v1/items/tatsu_prime_blade/orders"
    );
}
