use ducats_buyer::{default_order_filter, filter_orders, process_orders, rank_orders};
use ducats_buyer::{Order, OrderFilter, User};

fn offer(id: &str, seller: &str, platinum: u32, quantity: u32) -> Order {
    Order {
        id: id.to_string(),
        platinum,
        quantity,
        order_type: "sell".to_string(),
        visible: true,
        user: User { ingame_name: seller.to_string(), status: "ingame".to_string() },
        item_url: Some("harrow_prime_blueprint".to_string()),
        item_name: Some("Harrow Prime Blueprint".to_string()),
        price_to_offer: None,
        sum_to_offer: None,
        is_with_group: None,
    }
}

fn open_filter() -> OrderFilter {
    OrderFilter {
        max_price: 1000,
        min_quantity: 1,
        excluded_order_ids: Vec::new(),
        excluded_user_names: Vec::new(),
    }
}

fn ids(orders: &[Order]) -> Vec<String> {
    orders.iter().map(|o| o.id.clone()).collect()
}

#[test]
fn two_sellers_end_to_end() {
    let orders = vec![
        offer("a1", "SellerA", 4, 2),
        offer("b1", "SellerB", 2, 3),
        offer("b2", "SellerB", 2, 1),
    ];
    let ranked = process_orders(orders, &open_filter(), 3);
    assert_eq!(ids(&ranked), vec!["b1", "b2", "a1"]);
    assert_eq!(ranked[0].sum_to_offer, Some(6));
    assert_eq!(ranked[1].sum_to_offer, Some(2));
    assert_eq!(ranked[2].price_to_offer, Some(3));
    assert_eq!(ranked[2].sum_to_offer, Some(6));
    assert_eq!(ranked[0].is_with_group, Some(true));
    assert_eq!(ranked[1].is_with_group, Some(true));
    assert_eq!(ranked[2].is_with_group, Some(false));
}

#[test]
fn offer_price_is_capped_by_listed_price() {
    let ranked = rank_orders(vec![offer("x", "S", 5, 4), offer("y", "T", 2, 7)], 3);
    let x = ranked.iter().find(|o| o.id == "x").unwrap();
    let y = ranked.iter().find(|o| o.id == "y").unwrap();
    assert_eq!(x.price_to_offer, Some(3));
    assert_eq!(x.sum_to_offer, Some(12));
    assert_eq!(y.price_to_offer, Some(2));
    assert_eq!(y.sum_to_offer, Some(14));
}

#[test]
fn offer_sum_does_not_overflow() {
    let ranked = rank_orders(vec![offer("big", "S", u32::MAX, u32::MAX)], u32::MAX);
    assert_eq!(ranked[0].sum_to_offer, Some(u32::MAX as u64 * u32::MAX as u64));
}

#[test]
fn single_offer_sellers_are_not_grouped() {
    let ranked = rank_orders(
        vec![offer("a", "A", 1, 1), offer("b", "B", 1, 1), offer("c", "A", 1, 1)],
        3,
    );
    for o in &ranked {
        let expected = o.user.ingame_name == "A";
        assert_eq!(o.is_with_group, Some(expected));
    }
}

#[test]
fn ranking_is_deterministic() {
    let input = vec![
        offer("1", "A", 1, 2),
        offer("2", "B", 1, 2),
        offer("3", "C", 2, 1),
        offer("4", "A", 1, 2),
        offer("5", "B", 1, 2),
    ];
    let first = rank_orders(input.clone(), 3);
    let second = rank_orders(input, 3);
    assert_eq!(first, second);
}

#[test]
fn sellers_ordered_by_aggregate_value() {
    let ranked = rank_orders(
        vec![
            offer("1", "Low", 1, 1),
            offer("2", "High", 3, 5),
            offer("3", "Mid", 2, 2),
            offer("4", "Mid", 1, 1),
        ],
        3,
    );
    assert_eq!(ids(&ranked), vec!["2", "3", "4", "1"]);
    let value = |name: &str| -> u64 {
        ranked.iter().filter(|o| o.user.ingame_name == name).map(|o| o.sum_to_offer.unwrap()).sum()
    };
    for w in ranked.windows(2) {
        assert!(value(&w[0].user.ingame_name) >= value(&w[1].user.ingame_name));
    }
}

#[test]
fn equal_value_sellers_keep_first_seen_order() {
    let ranked = rank_orders(
        vec![offer("b", "Bob", 2, 2), offer("a", "Ann", 2, 2), offer("b2", "Bob", 1, 0)],
        3,
    );
    assert_eq!(ids(&ranked), vec!["b", "b2", "a"]);
}

#[test]
fn offers_of_a_seller_by_quantity_then_received_order() {
    let ranked = rank_orders(
        vec![
            offer("1", "S", 1, 1),
            offer("2", "S", 1, 3),
            offer("3", "S", 1, 1),
            offer("4", "S", 1, 3),
        ],
        3,
    );
    assert_eq!(ids(&ranked), vec!["2", "4", "1", "3"]);
}

#[test]
fn empty_input_gives_empty_ranking() {
    assert!(process_orders(Vec::new(), &open_filter(), 3).is_empty());
}

#[test]
fn process_drops_offers_that_do_not_qualify() {
    let mut hidden = offer("hidden", "A", 1, 5);
    hidden.visible = false;
    let mut buying = offer("buying", "A", 1, 5);
    buying.order_type = "buy".to_string();
    let mut away = offer("away", "B", 1, 5);
    away.user.status = "online".to_string();
    let kept = offer("kept", "C", 1, 5);
    let ranked = process_orders(vec![hidden, buying, away, kept], &open_filter(), 3);
    assert_eq!(ids(&ranked), vec!["kept"]);
    assert!(ranked.iter().all(|o| o.visible));
    assert_eq!(ranked[0].is_with_group, Some(false));
}

#[test]
fn grouping_counts_only_qualifying_offers() {
    let mut hidden = offer("hidden", "A", 1, 5);
    hidden.visible = false;
    let ranked = process_orders(vec![hidden, offer("shown", "A", 1, 5)], &open_filter(), 3);
    assert_eq!(ranked.len(), 1);
    assert_eq!(ranked[0].is_with_group, Some(false));
}

#[test]
fn filter_orders_keeps_received_order() {
    let mut cheap_few = offer("few", "A", 1, 1);
    cheap_few.quantity = 1;
    let orders = vec![offer("1", "A", 4, 2), cheap_few, offer("2", "B", 5, 9), offer("3", "C", 3, 3)];
    let std_filter = OrderFilter::standard();
    let kept = filter_orders(orders.clone(), &std_filter);
    assert_eq!(ids(&kept), vec!["1", "3"]);
    let by_default: Vec<String> =
        orders.iter().filter(|o| default_order_filter(o)).map(|o| o.id.clone()).collect();
    assert_eq!(by_default, vec!["1", "3"]);
}
