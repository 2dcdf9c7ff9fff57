use ducats_buyer::message::link_item_name;
use ducats_buyer::text::render_decimal;
use ducats_buyer::{generate_message, generate_messages, Order, User};

fn offer(item: &str, platinum: u32, quantity: u32) -> Order {
    Order {
        id: "o".to_string(),
        platinum,
        quantity,
        order_type: "sell".to_string(),
        visible: true,
        user: User { ingame_name: "Trader".to_string(), status: "ingame".to_string() },
        item_url: None,
        item_name: Some(item.to_string()),
        price_to_offer: None,
        sum_to_offer: None,
        is_with_group: None,
    }
}

#[test]
fn single_unit_inquiry() {
    let m = generate_message(&offer("Tatsu Prime Blade", 3, 1), 3);
    assert_eq!(
        m,
        "/w Trader Hi! I want to buy: [Tatsu Prime Blade] for 3 platinum for each. (warframe.market)"
    );
    assert!(m.contains("for 3"));
    assert!(m.contains("for each"));
    assert!(!m.contains("offer"));
    assert!(!m.contains("Total"));
}

#[test]
fn single_unit_inquiry_states_listed_price_even_when_desired_is_lower() {
    let m = generate_message(&offer("Tatsu Prime Blade", 7, 1), 3);
    assert!(m.contains("for 7 platinum"));
    assert!(!m.contains("offer"));
}

#[test]
fn bulk_buy_without_discount() {
    let m = generate_message(&offer("Tatsu Prime Blade", 3, 5), 3);
    assert_eq!(
        m,
        "/w Trader Hi! I want to buy all 5 pieces of [Tatsu Prime Blade] for 3:platinum: each. (warframe.market)"
    );
    assert!(m.contains("buy all 5 pieces"));
    assert!(!m.contains("Total"));
}

#[test]
fn bulk_buy_with_discount() {
    let m = generate_message(&offer("Tatsu Prime Blade", 5, 4), 3);
    assert_eq!(
        m,
        "/w Trader Hi! I want to buy all 4 pieces of [Tatsu Prime Blade]. I can offer 3:platinum: each (Total: 12:platinum:). Your price was 5:platinum: each. Let me know if you are interested!"
    );
    assert!(m.contains('3') && m.contains('4') && m.contains("12"));
}

#[test]
fn blueprint_suffix_stays_outside_the_link() {
    assert_eq!(link_item_name("Harrow Prime Blueprint"), "[Harrow Prime] Blueprint");
    assert_eq!(link_item_name("Blueprint"), "[Blueprint]");
    assert_eq!(link_item_name(" Blueprint"), "[] Blueprint");
    assert_eq!(link_item_name("Braton Prime Receiver"), "[Braton Prime Receiver]");
    let m = generate_message(&offer("Harrow Prime Blueprint", 2, 1), 3);
    assert!(m.contains("[Harrow Prime] Blueprint for 2"));
}

#[test]
fn messages_for_each_offer_in_order() {
    let orders = vec![offer("A", 3, 1), offer("B", 3, 5), offer("C", 5, 4)];
    let ms = generate_messages(&orders, 3);
    assert_eq!(ms.len(), 3);
    for (o, m) in orders.iter().zip(ms.iter()) {
        assert_eq!(*m, generate_message(o, 3));
    }
    assert!(generate_messages(&[], 3).is_empty());
}

#[test]
fn decimal_rendering() {
    assert_eq!(render_decimal(0), "0");
    assert_eq!(render_decimal(7), "7");
    assert_eq!(render_decimal(10), "10");
    assert_eq!(render_decimal(1234567890), "1234567890");
    assert_eq!(render_decimal(u64::MAX), u64::MAX.to_string());
}
