//! Filtering, aggregation by seller, and ranking of offers.
//!
//! The qualifying offers are enriched with the price to propose, its total and
//! whether their seller has several of them, then ordered: sellers by the sum
//! of their offer totals, highest first, sellers of equal value in the order
//! in which they were first seen; within a seller, offers by quantity, largest
//! first, offers of equal quantity in the order received.

use vstd::prelude::*;
use crate::filter::OrderFilter;
use crate::order::{seller_of, Order};

verus! {

/// The offers that `filter` admits, in the order received.
pub open spec fn qualifying(orders: Seq<Order>, filter: OrderFilter) -> Seq<Order> {
    orders.filter(|o: Order| filter.admits(o))
}

/// The unit price to propose: the desired price, capped by the listed price.
pub open spec fn offer_price(desired: u32, o: Order) -> u32 {
    if desired <= o.platinum {
        desired
    } else {
        o.platinum
    }
}

/// The total to propose for the whole offer.
pub open spec fn offer_sum(desired: u32, o: Order) -> int {
    offer_price(desired, o) * o.quantity
}

/// How many of the first `j` offers of `q` the seller `name` has.
pub open spec fn count_upto(q: Seq<Order>, name: Seq<char>, j: int) -> nat
    decreases j,
{
    if j <= 0 {
        0
    } else {
        count_upto(q, name, j - 1) + if seller_of(q[j - 1]) == name {
            1nat
        } else {
            0nat
        }
    }
}

/// How many offers of `q` the seller `name` has.
pub open spec fn seller_count(q: Seq<Order>, name: Seq<char>) -> nat {
    count_upto(q, name, q.len() as int)
}

/// The sum of the offer totals of `name` among the first `j` offers of `q`.
pub open spec fn value_upto(q: Seq<Order>, desired: u32, name: Seq<char>, j: int) -> int
    decreases j,
{
    if j <= 0 {
        0
    } else {
        value_upto(q, desired, name, j - 1) + if seller_of(q[j - 1]) == name {
            offer_sum(desired, q[j - 1])
        } else {
            0
        }
    }
}

/// A seller's aggregate value: the sum of the totals of its offers in `q`.
pub open spec fn seller_value(q: Seq<Order>, desired: u32, name: Seq<char>) -> int {
    value_upto(q, desired, name, q.len() as int)
}

/// The first position at or after `j` of an offer by `name` (`q.len()` if none).
pub open spec fn first_from(q: Seq<Order>, name: Seq<char>, j: int) -> int
    decreases q.len() - j,
{
    if j < 0 || j >= q.len() {
        q.len() as int
    } else if seller_of(q[j]) == name {
        j
    } else {
        first_from(q, name, j + 1)
    }
}

/// The position of the first offer by `name` in `q`.
pub open spec fn first_seen(q: Seq<Order>, name: Seq<char>) -> int {
    first_from(q, name, 0)
}

/// The offer at position `i` of `q` with its derived fields set.
pub open spec fn enriched(q: Seq<Order>, desired: u32, i: int) -> Order {
    let o = q[i];
    Order {
        price_to_offer: Some(offer_price(desired, o)),
        sum_to_offer: Some(offer_sum(desired, o) as u64),
        is_with_group: Some(seller_count(q, seller_of(o)) >= 2),
        ..o
    }
}

/// Whether the offer at position `i` of `q` comes before the one at `j` in
/// the ranking: by seller value (descending), then seller first seen, then
/// quantity (descending), then position.
pub open spec fn ranks_before(q: Seq<Order>, desired: u32, i: int, j: int) -> bool {
    let vi = seller_value(q, desired, seller_of(q[i]));
    let vj = seller_value(q, desired, seller_of(q[j]));
    let fi = first_seen(q, seller_of(q[i]));
    let fj = first_seen(q, seller_of(q[j]));
    let ni = q[i].quantity;
    let nj = q[j].quantity;
    ||| vi > vj
    ||| vi == vj && fi < fj
    ||| vi == vj && fi == fj && ni > nj
    ||| vi == vj && fi == fj && ni == nj && i < j
}

/// Whether position `p` occurs in `perm`.
pub open spec fn placed(perm: Seq<int>, p: int) -> bool {
    exists|k: int| 0 <= k < perm.len() && perm[k] == p
}

/// `perm` lists every position of `q` once, in ranking order.
pub open spec fn is_ranking(q: Seq<Order>, desired: u32, perm: Seq<int>) -> bool {
    &&& perm.len() == q.len()
    &&& forall|k: int| 0 <= k < perm.len() ==> 0 <= #[trigger] perm[k] < q.len()
    &&& forall|p: int| 0 <= p < q.len() ==> #[trigger] placed(perm, p)
    &&& forall|k1: int, k2: int|
        0 <= k1 < k2 < perm.len() ==> ranks_before(q, desired, #[trigger] perm[k1], #[trigger] perm[k2])
}

/// `r` holds the enriched offers of `q` in the order that `perm` gives.
pub open spec fn follows(q: Seq<Order>, desired: u32, perm: Seq<int>, r: Seq<Order>) -> bool {
    &&& is_ranking(q, desired, perm)
    &&& r.len() == q.len()
    &&& forall|k: int| 0 <= k < r.len() ==> r[k] == enriched(q, desired, #[trigger] perm[k])
}

/// `r` is the ranked, enriched form of the qualifying offers `q`.
pub open spec fn ranked_output(q: Seq<Order>, desired: u32, r: Seq<Order>) -> bool {
    exists|perm: Seq<int>| #[trigger] follows(q, desired, perm, r)
}

/// The ranking order is transitive.
proof fn lemma_ranks_before_transitive(q: Seq<Order>, desired: u32, a: int, b: int, c: int)
    requires
        ranks_before(q, desired, a, b),
        ranks_before(q, desired, b, c),
    ensures
        ranks_before(q, desired, a, c),
{
}

proof fn lemma_offer_sum_fits(desired: u32, o: Order)
    ensures
        0 <= offer_sum(desired, o) <= 0xffff_fffe_0000_0001,
{
    let p = offer_price(desired, o) as int;
    let n = o.quantity as int;
    assert(0 <= p * n <= 0xffff_fffe_0000_0001) by (nonlinear_arith)
        requires
            0 <= p <= 0xffff_ffff,
            0 <= n <= 0xffff_ffff,
    ;
}

/// Keeps the offers that `filter` admits, in the order received.
pub fn filter_orders(orders: Vec<Order>, filter: &OrderFilter) -> (r: Vec<Order>)
    ensures
        r@ == qualifying(orders@, *filter),
{
    let ghost s = orders@;
    let ghost pred = |o: Order| filter.admits(o);
    let mut r: Vec<Order> = Vec::new();
    for o in it: orders.into_iter()
        invariant
            it.seq() == s,
            pred == (|o: Order| filter.admits(o)),
            r@ == s.take(it.index() as int).filter(pred),
    {
        let ghost k = it.index() as int;
        proof {
            reveal(Seq::filter);
            assert(s.take(k + 1).drop_last() =~= s.take(k));
            assert(s.take(k + 1).last() == o);
        }
        if filter.qualifies(&o) {
            r.push(o);
        }
    }
    assert(s.take(s.len() as int) =~= s);
    r
}


/// The exec form of `offer_price` and `offer_sum`.
fn offer_terms(desired: u32, o: &Order) -> (r: (u32, u64))
    ensures
        r.0 == offer_price(desired, *o),
        r.1 == offer_sum(desired, *o),
{
    let p: u32 = if desired <= o.platinum {
        desired
    } else {
        o.platinum
    };
    proof {
        lemma_offer_sum_fits(desired, *o);
    }
    (p, p as u64 * o.quantity as u64)
}

/// For the seller of the offer at position `i`: how many offers it has, their
/// value, and where its first offer stands.
fn seller_stats(q: &Vec<Order>, i: usize, desired: u32) -> (r: (usize, u128, usize))
    requires
        i < q.len(),
    ensures
        r.0 == seller_count(q@, seller_of(q@[i as int])),
        r.1 == seller_value(q@, desired, seller_of(q@[i as int])),
        r.2 == first_seen(q@, seller_of(q@[i as int])),
{
    let ghost name = seller_of(q@[i as int]);
    let mut count: usize = 0;
    let mut value: u128 = 0;
    let mut first: usize = 0;
    let mut found = false;
    let mut j: usize = 0;
    while j < q.len()
        invariant
            i < q.len(),
            name == seller_of(q@[i as int]),
            j <= q.len(),
            count <= j,
            count == count_upto(q@, name, j as int),
            value == value_upto(q@, desired, name, j as int),
            value <= j * 0x1_0000_0000_0000_0000,
            found ==> first == first_seen(q@, name),
            !found ==> first_seen(q@, name) == first_from(q@, name, j as int),
            i < j ==> found,
        decreases q.len() - j,
    {
        if q[j].user.ingame_name == q[i].user.ingame_name {
            let (_, sum) = offer_terms(desired, &q[j]);
            count = count + 1;
            value = value + sum as u128;
            if !found {
                found = true;
                first = j;
            }
        }
        j = j + 1;
    }
    (count, value, first)
}

/// An offer on its way into the ranking, with its sort key.
struct Ranked {
    value: u128,
    first: usize,
    quantity: u32,
    pos: usize,
    order: Order,
}

/// `e` carries the key and enriched form of the offer at `e.pos` of `q`.
spec fn entry_of(q: Seq<Order>, desired: u32, e: Ranked) -> bool {
    &&& e.pos < q.len()
    &&& e.value == seller_value(q, desired, seller_of(q[e.pos as int]))
    &&& e.first == first_seen(q, seller_of(q[e.pos as int]))
    &&& e.quantity == q[e.pos as int].quantity
    &&& e.order == enriched(q, desired, e.pos as int)
}

/// Whether some entry of `s` is for position `p`.
spec fn holds_pos(s: Seq<Ranked>, p: int) -> bool {
    exists|k: int| 0 <= k < s.len() && s[k].pos == p
}

fn entry_before(a: &Ranked, b: &Ranked) -> (r: bool)
    ensures
        r == (a.value > b.value || (a.value == b.value && a.first < b.first) || (a.value == b.value
            && a.first == b.first && a.quantity > b.quantity) || (a.value == b.value && a.first
            == b.first && a.quantity == b.quantity && a.pos < b.pos)),
{
    if a.value != b.value {
        a.value > b.value
    } else if a.first != b.first {
        a.first < b.first
    } else if a.quantity != b.quantity {
        a.quantity > b.quantity
    } else {
        a.pos < b.pos
    }
}

/// Sets the derived fields of each offer and orders the offers: sellers by
/// aggregate value, highest first, ties by the position of the seller's first
/// offer; within a seller, by quantity, largest first, ties by position.
pub fn rank_orders(qualified: Vec<Order>, desired_price: u32) -> (r: Vec<Order>)
    ensures
        ranked_output(qualified@, desired_price, r@),
{
    let ghost q = qualified@;
    let n = qualified.len();
    let mut counts: Vec<usize> = Vec::new();
    let mut values: Vec<u128> = Vec::new();
    let mut firsts: Vec<usize> = Vec::new();
    for i in 0..n
        invariant
            n == qualified.len(),
            q == qualified@,
            counts.len() == i,
            values.len() == i,
            firsts.len() == i,
            forall|k: int| 0 <= k < i ==> #[trigger] counts@[k] == seller_count(q, seller_of(q[k])),
            forall|k: int|
                0 <= k < i ==> #[trigger] values@[k] == seller_value(q, desired_price, seller_of(q[k])),
            forall|k: int| 0 <= k < i ==> #[trigger] firsts@[k] == first_seen(q, seller_of(q[k])),
    {
        let (c, v, f) = seller_stats(&qualified, i, desired_price);
        counts.push(c);
        values.push(v);
        firsts.push(f);
    }
    let mut sorted: Vec<Ranked> = Vec::new();
    for o in it: qualified.into_iter()
        invariant
            it.seq() == q,
            n == q.len(),
            counts.len() == n,
            values.len() == n,
            firsts.len() == n,
            forall|k: int| 0 <= k < n ==> #[trigger] counts@[k] == seller_count(q, seller_of(q[k])),
            forall|k: int|
                0 <= k < n ==> #[trigger] values@[k] == seller_value(q, desired_price, seller_of(q[k])),
            forall|k: int| 0 <= k < n ==> #[trigger] firsts@[k] == first_seen(q, seller_of(q[k])),
            sorted.len() == it.index(),
            forall|k: int|
                0 <= k < sorted.len() ==> entry_of(q, desired_price, #[trigger] sorted@[k])
                    && sorted@[k].pos < it.index(),
            forall|k1: int, k2: int|
                0 <= k1 < k2 < sorted.len() ==> ranks_before(
                    q,
                    desired_price,
                    #[trigger] sorted@[k1].pos as int,
                    #[trigger] sorted@[k2].pos as int,
                ),
            forall|p: int| 0 <= p < it.index() ==> #[trigger] holds_pos(sorted@, p),
    {
        let i: usize = sorted.len();
        let mut o = o;
        let (price, sum) = offer_terms(desired_price, &o);
        o.price_to_offer = Some(price);
        o.sum_to_offer = Some(sum);
        o.is_with_group = Some(counts[i] >= 2);
        assert(o == enriched(q, desired_price, i as int));
        assert(values@[i as int] == seller_value(q, desired_price, seller_of(q[i as int])));
        assert(firsts@[i as int] == first_seen(q, seller_of(q[i as int])));
        let e = Ranked { value: values[i], first: firsts[i], quantity: o.quantity, pos: i, order: o };
        let mut at: usize = 0;
        while at < sorted.len() && entry_before(&sorted[at], &e)
            invariant
                at <= sorted.len(),
                entry_of(q, desired_price, e),
                e.pos == i,
                forall|k: int| 0 <= k < sorted.len() ==> entry_of(q, desired_price, #[trigger] sorted@[k]),
                forall|k: int| 0 <= k < at ==> ranks_before(q, desired_price, #[trigger] sorted@[k].pos as int, i as int),
            decreases sorted.len() - at,
        {
            at = at + 1;
        }
        let ghost old_sorted = sorted@;
        proof {
            if at < sorted.len() {
                let b = old_sorted[at as int].pos as int;
                assert(entry_of(q, desired_price, old_sorted[at as int]));
                assert(ranks_before(q, desired_price, i as int, b));
                assert forall|k: int| at < k < old_sorted.len() implies ranks_before(
                    q,
                    desired_price,
                    i as int,
                    #[trigger] old_sorted[k].pos as int,
                ) by {
                    lemma_ranks_before_transitive(q, desired_price, i as int, b, old_sorted[k].pos as int);
                }
            }
        }
        sorted.insert(at, e);
        proof {
            let s = sorted@;
            assert(s[at as int] == e);
            assert forall|k: int| 0 <= k < s.len() implies entry_of(q, desired_price, #[trigger] s[k])
                && s[k].pos < i + 1 by {
                if k < at {
                    assert(s[k] == old_sorted[k]);
                } else if k > at {
                    assert(s[k] == old_sorted[k - 1]);
                }
            }
            assert forall|k1: int, k2: int| 0 <= k1 < k2 < s.len() implies ranks_before(
                q,
                desired_price,
                #[trigger] s[k1].pos as int,
                #[trigger] s[k2].pos as int,
            ) by {
                if k2 < at {
                    assert(s[k1] == old_sorted[k1] && s[k2] == old_sorted[k2]);
                } else if k2 == at {
                    assert(s[k1] == old_sorted[k1]);
                } else if k1 < at {
                    assert(s[k1] == old_sorted[k1] && s[k2] == old_sorted[k2 - 1]);
                } else if k1 == at {
                    assert(s[k2] == old_sorted[k2 - 1]);
                } else {
                    assert(s[k1] == old_sorted[k1 - 1] && s[k2] == old_sorted[k2 - 1]);
                }
            }
            assert forall|p: int| 0 <= p < i + 1 implies #[trigger] holds_pos(s, p) by {
                if p == i {
                    assert(s[at as int].pos == p);
                } else {
                    assert(holds_pos(old_sorted, p));
                    let k = choose|k: int| 0 <= k < old_sorted.len() && old_sorted[k].pos == p;
                    if k < at {
                        assert(s[k].pos == p);
                    } else {
                        assert(s[k + 1].pos == p);
                    }
                }
            }
        }
    }
    let ghost entries = sorted@;
    let ghost perm = Seq::new(n as nat, |k: int| entries[k].pos as int);
    let mut r: Vec<Order> = Vec::new();
    for e in it: sorted.into_iter()
        invariant
            it.seq() == entries,
            entries.len() == n,
            forall|k: int| 0 <= k < n ==> entry_of(q, desired_price, #[trigger] entries[k]),
            forall|p: int| 0 <= p < n ==> #[trigger] holds_pos(entries, p),
            r.len() == it.index(),
            forall|k: int| 0 <= k < r.len() ==> r@[k] == #[trigger] entries[k].order,
    {
        r.push(e.order);
    }
    proof {
        assert forall|p: int| 0 <= p < q.len() implies #[trigger] placed(perm, p) by {
            assert(holds_pos(entries, p));
            let k = choose|k: int| 0 <= k < entries.len() && entries[k].pos == p;
            assert(perm[k] == p);
        }
        assert forall|k: int| 0 <= k < r.len() implies r@[k] == enriched(q, desired_price, #[trigger] perm[k]) by {
            assert(entry_of(q, desired_price, entries[k]));
        }
        assert forall|k: int| 0 <= k < perm.len() implies 0 <= #[trigger] perm[k] < q.len() by {
            assert(entry_of(q, desired_price, entries[k]));
        }
        assert(follows(q, desired_price, perm, r@));
    }
    r
}


/// Filters, aggregates and ranks the offers: the qualifying offers, each with
/// its derived fields set, in ranking order.
pub fn process_orders(orders: Vec<Order>, filter: &OrderFilter, desired_price: u32) -> (r: Vec<
    Order,
>)
    ensures
        ranked_output(qualifying(orders@, *filter), desired_price, r@),
{
    let qualified = filter_orders(orders, filter);
    rank_orders(qualified, desired_price)
}

/// Every offer that comes out of filtering meets the filter's rule, so none
/// of them is hidden.
pub proof fn lemma_filtered_orders_admitted(orders: Seq<Order>, filter: OrderFilter)
    ensures
        forall|k: int|
            0 <= k < qualifying(orders, filter).len() ==> filter.admits(
                #[trigger] qualifying(orders, filter)[k],
            ) && qualifying(orders, filter)[k].visible,
{
    assert forall|k: int| 0 <= k < qualifying(orders, filter).len() implies filter.admits(
        #[trigger] qualifying(orders, filter)[k],
    ) by {
        orders.lemma_filter_pred(|o: Order| filter.admits(o), k);
    }
}

/// Every offer that processing returns meets the filter's rule and is visible.
pub proof fn lemma_processed_orders_admitted(
    orders: Seq<Order>,
    filter: OrderFilter,
    desired: u32,
    r: Seq<Order>,
)
    requires
        ranked_output(qualifying(orders, filter), desired, r),
    ensures
        forall|k: int| 0 <= k < r.len() ==> filter.admits(#[trigger] r[k]) && r[k].visible,
{
    let q = qualifying(orders, filter);
    let perm = choose|perm: Seq<int>| #[trigger] follows(q, desired, perm, r);
    lemma_filtered_orders_admitted(orders, filter);
    assert forall|k: int| 0 <= k < r.len() implies filter.admits(#[trigger] r[k]) by {
        assert(0 <= perm[k] < q.len());
        assert(filter.admits(q[perm[k]]));
    }
}

/// Each ranked offer proposes the desired price capped by its listed price,
/// and that price times its quantity as the total.
pub proof fn lemma_offer_terms(q: Seq<Order>, desired: u32, r: Seq<Order>)
    requires
        ranked_output(q, desired, r),
    ensures
        forall|k: int|
            0 <= k < r.len() ==> {
                &&& #[trigger] r[k].price_to_offer == Some(
                    if desired <= r[k].platinum {
                        desired
                    } else {
                        r[k].platinum
                    },
                )
                &&& r[k].sum_to_offer is Some
                &&& r[k].sum_to_offer->0 == r[k].price_to_offer->0 * r[k].quantity
            },
{
    let perm = choose|perm: Seq<int>| #[trigger] follows(q, desired, perm, r);
    assert forall|k: int| 0 <= k < r.len() implies #[trigger] r[k].price_to_offer == Some(
        if desired <= r[k].platinum {
            desired
        } else {
            r[k].platinum
        },
    ) && r[k].sum_to_offer is Some && r[k].sum_to_offer->0 == r[k].price_to_offer->0
        * r[k].quantity by {
        assert(0 <= perm[k] < q.len());
        lemma_offer_sum_fits(desired, q[perm[k]]);
    }
}

/// An offer is flagged as grouped exactly when its seller has at least two
/// qualifying offers in the same pass.
pub proof fn lemma_grouping_flag(q: Seq<Order>, desired: u32, r: Seq<Order>)
    requires
        ranked_output(q, desired, r),
    ensures
        forall|k: int|
            0 <= k < r.len() ==> (#[trigger] r[k].is_with_group == Some(true) <==> seller_count(
                q,
                seller_of(r[k]),
            ) >= 2) && r[k].is_with_group is Some,
{
    let perm = choose|perm: Seq<int>| #[trigger] follows(q, desired, perm, r);
    assert forall|k: int| 0 <= k < r.len() implies (#[trigger] r[k].is_with_group == Some(true)
        <==> seller_count(q, seller_of(r[k])) >= 2) && r[k].is_with_group is Some by {
        assert(0 <= perm[k] < q.len());
    }
}

/// Of two offers in the ranking, the earlier one's seller has at least the
/// aggregate value of the later one's.
pub proof fn lemma_ranking_monotone(q: Seq<Order>, desired: u32, r: Seq<Order>)
    requires
        ranked_output(q, desired, r),
    ensures
        forall|k1: int, k2: int|
            0 <= k1 < k2 < r.len() ==> seller_value(q, desired, seller_of(#[trigger] r[k1]))
                >= seller_value(q, desired, seller_of(#[trigger] r[k2])),
{
    let perm = choose|perm: Seq<int>| #[trigger] follows(q, desired, perm, r);
    assert forall|k1: int, k2: int| 0 <= k1 < k2 < r.len() implies seller_value(
        q,
        desired,
        seller_of(#[trigger] r[k1]),
    ) >= seller_value(q, desired, seller_of(#[trigger] r[k2])) by {
        assert(ranks_before(q, desired, perm[k1], perm[k2]));
        assert(0 <= perm[k1] < q.len() && 0 <= perm[k2] < q.len());
    }
}

proof fn lemma_rankings_agree_upto(q: Seq<Order>, desired: u32, left: Seq<int>, right: Seq<int>, k: int)
    requires
        is_ranking(q, desired, left),
        is_ranking(q, desired, right),
        0 <= k < left.len(),
    ensures
        forall|j: int| 0 <= j <= k ==> left[j] == right[j],
    decreases k,
{
    if k > 0 {
        lemma_rankings_agree_upto(q, desired, left, right, k - 1);
    }
    let a = left[k];
    let b = right[k];
    if a != b {
        assert(0 <= a < q.len() && 0 <= b < q.len());
        assert(placed(right, a));
        let m2 = choose|m: int| 0 <= m < right.len() && right[m] == a;
        assert(placed(left, b));
        let m1 = choose|m: int| 0 <= m < left.len() && left[m] == b;
        if m2 < k {
            assert(left[m2] == right[m2]);
            assert(ranks_before(q, desired, left[m2], left[k]));
        } else if m1 < k {
            assert(left[m1] == right[m1]);
            assert(ranks_before(q, desired, right[m1], right[k]));
        } else {
            assert(m2 != k && m1 != k);
            assert(ranks_before(q, desired, right[k], right[m2]));
            assert(ranks_before(q, desired, left[k], left[m1]));
        }
    }
}

/// Ranking is deterministic: two results that meet the ranking's
/// specification for the same input, ties included, are the same sequence.
pub proof fn lemma_ranking_deterministic(q: Seq<Order>, desired: u32, r1: Seq<Order>, r2: Seq<Order>)
    requires
        ranked_output(q, desired, r1),
        ranked_output(q, desired, r2),
    ensures
        r1 == r2,
{
    let left = choose|perm: Seq<int>| #[trigger] follows(q, desired, perm, r1);
    let right = choose|perm: Seq<int>| #[trigger] follows(q, desired, perm, r2);
    if q.len() > 0 {
        lemma_rankings_agree_upto(q, desired, left, right, q.len() - 1);
    }
    assert forall|k: int| 0 <= k < r1.len() implies r1[k] == r2[k] by {
        assert(left[k] == right[k]);
        assert(r1[k] == enriched(q, desired, left[k]));
        assert(r2[k] == enriched(q, desired, right[k]));
    }
    assert(r1 =~= r2);
}


proof fn lemma_first_from_names(q: Seq<Order>, name: Seq<char>, j: int, i: int)
    requires
        0 <= j <= i < q.len(),
        seller_of(q[i]) == name,
    ensures
        j <= first_from(q, name, j) <= i,
        seller_of(q[first_from(q, name, j)]) == name,
    decreases i - j,
{
    if seller_of(q[j]) != name {
        lemma_first_from_names(q, name, j + 1, i);
    }
}

/// Each seller's offers stand together in the ranking; within a seller they
/// run by quantity, largest first, and offers of equal quantity keep the
/// order in which they were received.
pub proof fn lemma_ranking_groups_sellers(q: Seq<Order>, desired: u32, r: Seq<Order>)
    requires
        ranked_output(q, desired, r),
    ensures
        forall|k1: int, k2: int, k3: int|
            0 <= k1 < k2 < k3 < r.len() && seller_of(#[trigger] r[k1]) == seller_of(#[trigger] r[k3])
                ==> seller_of(#[trigger] r[k2]) == seller_of(r[k1]),
        exists|perm: Seq<int>|
            #[trigger] follows(q, desired, perm, r) && forall|k1: int, k2: int|
                0 <= k1 < k2 < r.len() && seller_of(#[trigger] r[k1]) == seller_of(#[trigger] r[k2])
                    ==> r[k1].quantity > r[k2].quantity || (r[k1].quantity == r[k2].quantity
                    && perm[k1] < perm[k2]),
{
    let perm = choose|perm: Seq<int>| #[trigger] follows(q, desired, perm, r);
    assert forall|k1: int, k2: int, k3: int|
        0 <= k1 < k2 < k3 < r.len() && seller_of(#[trigger] r[k1]) == seller_of(#[trigger] r[k3])
            implies seller_of(#[trigger] r[k2]) == seller_of(r[k1]) by {
        let (a, b, c) = (perm[k1], perm[k2], perm[k3]);
        assert(0 <= a < q.len() && 0 <= b < q.len() && 0 <= c < q.len());
        assert(ranks_before(q, desired, a, b));
        assert(ranks_before(q, desired, b, c));
        let fa = first_seen(q, seller_of(q[a]));
        let fb = first_seen(q, seller_of(q[b]));
        lemma_first_from_names(q, seller_of(q[a]), 0, a);
        lemma_first_from_names(q, seller_of(q[b]), 0, b);
        assert(fa == fb);
    }
    assert forall|k1: int, k2: int|
        0 <= k1 < k2 < r.len() && seller_of(#[trigger] r[k1]) == seller_of(#[trigger] r[k2])
            implies r[k1].quantity > r[k2].quantity || (r[k1].quantity == r[k2].quantity
            && perm[k1] < perm[k2]) by {
        assert(0 <= perm[k1] < q.len() && 0 <= perm[k2] < q.len());
        assert(ranks_before(q, desired, perm[k1], perm[k2]));
    }
}

} // verus!
