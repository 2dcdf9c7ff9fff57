//! The whisper message that opens a negotiation on an offer.

use vstd::prelude::*;
use vstd::string::{StrSliceExecFns, StringExecFns};
use crate::order::Order;
use crate::ranking::{offer_price, offer_sum};
use crate::text::{decimal, render_decimal};

verus! {

/// The suffix that marks a blueprint item.
pub open spec fn blueprint_suffix() -> Seq<char> {
    " Blueprint"@
}

/// Whether an item name ends with the blueprint suffix.
pub open spec fn is_blueprint(item: Seq<char>) -> bool {
    item.len() >= blueprint_suffix().len() && item.subrange(
        item.len() - blueprint_suffix().len(),
        item.len() as int,
    ) == blueprint_suffix()
}

/// The item name as an in-game link: the name in brackets, with the
/// blueprint suffix kept outside them.
pub open spec fn linked_name(item: Seq<char>) -> Seq<char> {
    if is_blueprint(item) {
        "["@ + item.subrange(0, item.len() - blueprint_suffix().len()) + "] Blueprint"@
    } else {
        "["@ + item + "]"@
    }
}

/// The message for an offer: a single-unit inquiry when it holds one unit; a
/// bulk purchase at the listed price when the desired price does not lower
/// it; else a bulk purchase at the lowered price, with its total.
pub open spec fn message_text(order: Order, desired: u32) -> Seq<char> {
    let user = order.user.ingame_name@;
    let item = linked_name(order.item_name->0@);
    let listed = decimal(order.platinum as nat);
    let count = decimal(order.quantity as nat);
    if order.quantity == 1 {
        "/w "@ + user + " Hi! I want to buy: "@ + item + " for "@ + listed
            + " platinum for each. (warframe.market)"@
    } else if offer_price(desired, order) == order.platinum {
        "/w "@ + user + " Hi! I want to buy all "@ + count + " pieces of "@ + item + " for "@
            + listed + ":platinum: each. (warframe.market)"@
    } else {
        "/w "@ + user + " Hi! I want to buy all "@ + count + " pieces of "@ + item
            + ". I can offer "@ + decimal(offer_price(desired, order) as nat)
            + ":platinum: each (Total: "@ + decimal(offer_sum(desired, order) as nat)
            + ":platinum:). Your price was "@ + listed
            + ":platinum: each. Let me know if you are interested!"@
    }
}

/// Renders an item name as an in-game link.
pub fn link_item_name(item: &str) -> (r: String)
    ensures
        r@ == linked_name(item@),
{
    proof {
        reveal_strlit(" Blueprint");
    }
    let n = item.unicode_len();
    let suffix_len: usize = 10;
    if n >= suffix_len {
        let tail = String::from_str(item.substring_char(n - suffix_len, n));
        if tail == String::from_str(" Blueprint") {
            let mut r = String::from_str("[");
            r.append(item.substring_char(0, n - suffix_len));
            r.append("] Blueprint");
            return r;
        }
    }
    let mut r = String::from_str("[");
    r.append(item);
    r.append("]");
    r
}

/// Composes the message for an offer, proposing `desired_price` capped by the
/// listed price.
pub fn generate_message(order: &Order, desired_price: u32) -> (r: String)
    requires
        order.item_name is Some,
    ensures
        r@ == message_text(*order, desired_price),
{
    let item = match &order.item_name {
        Some(name) => link_item_name(name.as_str()),
        None => String::new(),
    };
    let listed = render_decimal(order.platinum as u64);
    let count = render_decimal(order.quantity as u64);
    let price: u32 = if desired_price <= order.platinum {
        desired_price
    } else {
        order.platinum
    };
    let mut r = String::from_str("/w ");
    r.append(order.user.ingame_name.as_str());
    if order.quantity == 1 {
        r.append(" Hi! I want to buy: ");
        r.append(item.as_str());
        r.append(" for ");
        r.append(listed.as_str());
        r.append(" platinum for each. (warframe.market)");
    } else if price == order.platinum {
        r.append(" Hi! I want to buy all ");
        r.append(count.as_str());
        r.append(" pieces of ");
        r.append(item.as_str());
        r.append(" for ");
        r.append(listed.as_str());
        r.append(":platinum: each. (warframe.market)");
    } else {
        assert(price as int * order.quantity as int <= 0xffff_fffe_0000_0001) by (nonlinear_arith)
            requires
                price <= 0xffff_ffff,
                order.quantity <= 0xffff_ffff,
        ;
        let total = render_decimal(price as u64 * order.quantity as u64);
        let offered = render_decimal(price as u64);
        r.append(" Hi! I want to buy all ");
        r.append(count.as_str());
        r.append(" pieces of ");
        r.append(item.as_str());
        r.append(". I can offer ");
        r.append(offered.as_str());
        r.append(":platinum: each (Total: ");
        r.append(total.as_str());
        r.append(":platinum:). Your price was ");
        r.append(listed.as_str());
        r.append(":platinum: each. Let me know if you are interested!");
    }
    assert(r@ =~= message_text(*order, desired_price));
    r
}

/// Composes the message of each offer, in order.
pub fn generate_messages(orders: &[Order], desired_price: u32) -> (r: Vec<String>)
    requires
        forall|k: int| 0 <= k < orders@.len() ==> (#[trigger] orders@[k]).item_name is Some,
    ensures
        r@.len() == orders@.len(),
        forall|k: int| 0 <= k < r@.len() ==> #[trigger] r@[k]@ == message_text(orders@[k], desired_price),
{
    let mut r: Vec<String> = Vec::new();
    let mut i: usize = 0;
    while i < orders.len()
        invariant
            i <= orders@.len(),
            forall|k: int| 0 <= k < orders@.len() ==> (#[trigger] orders@[k]).item_name is Some,
            r@.len() == i,
            forall|k: int| 0 <= k < i ==> #[trigger] r@[k]@ == message_text(orders@[k], desired_price),
        decreases orders@.len() - i,
    {
        let m = generate_message(&orders[i], desired_price);
        r.push(m);
        i = i + 1;
    }
    r
}

} // verus!
