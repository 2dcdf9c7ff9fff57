use ducats_buyer::{default_order_filter, Order, OrderFilter, User};
use ducats_buyer::{MAX_PRICE_TO_SEARCH, MIN_QUANTITY_TO_SEARCH};

fn good_offer() -> Order {
    Order {
        id: "id-1".to_string(),
        platinum: 4,
        quantity: 2,
        order_type: "sell".to_string(),
        visible: true,
        user: User { ingame_name: "Trader".to_string(), status: "ingame".to_string() },
        item_url: None,
        item_name: None,
        price_to_offer: None,
        sum_to_offer: None,
        is_with_group: None,
    }
}

fn config() -> OrderFilter {
    OrderFilter {
        max_price: 4,
        min_quantity: 2,
        excluded_order_ids: vec!["contacted".to_string()],
        excluded_user_names: vec!["Ignored".to_string()],
    }
}

#[test]
fn default_filter_limits() {
    assert_eq!(MAX_PRICE_TO_SEARCH, 4);
    assert_eq!(MIN_QUANTITY_TO_SEARCH, 2);
    assert!(default_order_filter(&good_offer()));
    let mut o = good_offer();
    o.platinum = 5;
    assert!(!default_order_filter(&o));
    let mut o = good_offer();
    o.quantity = 1;
    assert!(!default_order_filter(&o));
}

#[test]
fn every_condition_is_needed() {
    let f = config();
    assert!(f.qualifies(&good_offer()));
    let mut o = good_offer();
    o.user.status = "online".to_string();
    assert!(!f.qualifies(&o));
    let mut o = good_offer();
    o.order_type = "buy".to_string();
    assert!(!f.qualifies(&o));
    let mut o = good_offer();
    o.visible = false;
    assert!(!f.qualifies(&o));
    let mut o = good_offer();
    o.platinum = 5;
    assert!(!f.qualifies(&o));
    let mut o = good_offer();
    o.quantity = 1;
    assert!(!f.qualifies(&o));
    let mut o = good_offer();
    o.id = "contacted".to_string();
    assert!(!f.qualifies(&o));
    let mut o = good_offer();
    o.user.ingame_name = "Ignored".to_string();
    assert!(!f.qualifies(&o));
}

#[test]
fn seller_names_match_exactly() {
    let f = config();
    let mut o = good_offer();
    o.user.ingame_name = "ignored".to_string();
    assert!(f.qualifies(&o));
}

#[test]
fn boundaries_are_inclusive() {
    let f = OrderFilter {
        max_price: 0,
        min_quantity: 0,
        excluded_order_ids: Vec::new(),
        excluded_user_names: Vec::new(),
    };
    let mut o = good_offer();
    o.platinum = 0;
    o.quantity = 0;
    assert!(f.qualifies(&o));
}
