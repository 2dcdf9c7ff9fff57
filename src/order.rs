//! The offer model: one listing on the marketplace and the seller behind it.

use vstd::prelude::*;

verus! {

/// A counterparty on the marketplace.
#[derive(Debug, Clone, PartialEq)]
pub struct User {
    /// Display name; offers are grouped by it, exactly as given.
    pub ingame_name: String,
    /// Online status as reported by the marketplace (`ingame`, `online`, `offline`).
    pub status: String,
}

/// One listing on the marketplace.
///
/// `item_url` and `item_name` are set when the offer is fetched for an item;
/// `price_to_offer`, `sum_to_offer` and `is_with_group` are set by
/// aggregation and are `None` before it.
#[derive(Debug, Clone, PartialEq)]
pub struct Order {
    pub id: String,
    /// Listed unit price.
    pub platinum: u32,
    pub quantity: u32,
    /// Trade direction: `sell` or `buy`.
    pub order_type: String,
    pub visible: bool,
    pub user: User,
    /// Canonical key of the item the offer was fetched for.
    pub item_url: Option<String>,
    /// Display name of the item the offer was fetched for.
    pub item_name: Option<String>,
    /// The capped unit price to propose.
    pub price_to_offer: Option<u32>,
    /// `price_to_offer` times `quantity`.
    pub sum_to_offer: Option<u64>,
    /// Whether the seller has other qualifying offers in the same pass.
    pub is_with_group: Option<bool>,
}

/// The body of the marketplace's answer to an item's order listing.
#[derive(Debug, Clone, PartialEq)]
pub struct GetOrdersResponse {
    pub payload: Payload,
}

#[derive(Debug, Clone, PartialEq)]
pub struct Payload {
    pub orders: Vec<Order>,
}

/// The seller's display name, the grouping key of an offer.
pub open spec fn seller_of(o: Order) -> Seq<char> {
    o.user.ingame_name@
}

} // verus!
