//! Which offers qualify for contact.

use vstd::prelude::*;
use crate::order::Order;
use crate::text::{contains_text, holds_text, text_is};

verus! {

/// Smallest quantity that the default filter accepts.
pub const MIN_QUANTITY_TO_SEARCH: u32 = 2;

/// Largest unit price that the default filter accepts.
pub const MAX_PRICE_TO_SEARCH: u32 = 4;

/// Unit price proposed by default.
pub const PRICE_TO_OFFER: u32 = 3;

/// Status of a seller who is in the game and can trade now.
pub open spec fn in_game() -> Seq<char> {
    "ingame"@
}

/// Direction of an offer to sell.
pub open spec fn sell_direction() -> Seq<char> {
    "sell"@
}

/// The conditions on an offer that hold under every filter: the seller is in
/// the game, the offer sells and it is visible.
pub open spec fn tradable_now(o: Order) -> bool {
    &&& o.user.status@ == in_game()
    &&& o.order_type@ == sell_direction()
    &&& o.visible
}

/// What an offer must meet to be worth contacting.
#[derive(Debug, Clone)]
pub struct OrderFilter {
    /// Largest accepted unit price.
    pub max_price: u32,
    /// Smallest accepted quantity.
    pub min_quantity: u32,
    /// Offers already contacted.
    pub excluded_order_ids: Vec<String>,
    /// Sellers to leave out.
    pub excluded_user_names: Vec<String>,
}

impl OrderFilter {
    /// The filter's rule: every condition must hold.
    pub open spec fn admits(self, o: Order) -> bool {
        &&& tradable_now(o)
        &&& o.platinum <= self.max_price
        &&& o.quantity >= self.min_quantity
        &&& !holds_text(self.excluded_order_ids@, o.id@)
        &&& !holds_text(self.excluded_user_names@, o.user.ingame_name@)
    }

    /// The filter with the default price ceiling and quantity floor, and no
    /// exclusions.
    pub fn standard() -> (r: OrderFilter)
        ensures
            r.max_price == MAX_PRICE_TO_SEARCH,
            r.min_quantity == MIN_QUANTITY_TO_SEARCH,
            r.excluded_order_ids@.len() == 0,
            r.excluded_user_names@.len() == 0,
    {
        OrderFilter {
            max_price: MAX_PRICE_TO_SEARCH,
            min_quantity: MIN_QUANTITY_TO_SEARCH,
            excluded_order_ids: Vec::new(),
            excluded_user_names: Vec::new(),
        }
    }

    /// Tells whether `order` qualifies.
    pub fn qualifies(&self, order: &Order) -> (r: bool)
        ensures
            r == self.admits(*order),
    {
        text_is(&order.user.status, "ingame")
            && text_is(&order.order_type, "sell")
            && order.visible
            && order.platinum <= self.max_price
            && order.quantity >= self.min_quantity
            && !contains_text(&self.excluded_order_ids, &order.id)
            && !contains_text(&self.excluded_user_names, &order.user.ingame_name)
    }
}

/// The default rule: the seller is in the game, the offer sells and is
/// visible, its price is at most `MAX_PRICE_TO_SEARCH` and its quantity at
/// least `MIN_QUANTITY_TO_SEARCH`.
pub fn default_order_filter(order: &Order) -> (r: bool)
    ensures
        r == (tradable_now(*order) && order.platinum <= MAX_PRICE_TO_SEARCH
            && order.quantity >= MIN_QUANTITY_TO_SEARCH),
{
    text_is(&order.user.status, "ingame")
        && text_is(&order.order_type, "sell")
        && order.visible
        && order.platinum <= MAX_PRICE_TO_SEARCH
        && order.quantity >= MIN_QUANTITY_TO_SEARCH
}

/// Soundness of the rule: an admitted offer meets each condition on its own,
/// and in particular is visible.
pub proof fn lemma_admitted_meets_every_condition(f: OrderFilter, o: Order)
    requires
        f.admits(o),
    ensures
        o.user.status@ == in_game(),
        o.order_type@ == sell_direction(),
        o.visible,
        o.platinum <= f.max_price,
        o.quantity >= f.min_quantity,
        forall|k: int| 0 <= k < f.excluded_order_ids@.len() ==> f.excluded_order_ids@[k]@ != o.id@,
        forall|k: int| 0 <= k < f.excluded_user_names@.len()
            ==> f.excluded_user_names@[k]@ != o.user.ingame_name@,
{
}

} // verus!
