//! The fetch stage: one retrieval per item, at most a fixed number in flight,
//! each item's outcome kept apart so that one failure spoils no other item.
//!
//! `OrderFetcher` decides; the caller performs each retrieval it hands out and
//! reports the outcome back with `record`.

use convert_case::{Case, Casing};
use vstd::prelude::*;
use vstd::string::StringExecFns;
use crate::order::Order;

verus! {

/// Root of the marketplace's API.
pub const BASE_URL: &'static str = "https://api.warframe.market/v1";

/// The snake-case form of a text, as convert_case computes it.
pub uninterp spec fn snake_case_of(s: Seq<char>) -> Seq<char>;

/// Relies on convert_case's `Casing::to_case` with `Case::Snake`: the result
/// depends on the characters of `s` alone.
#[verifier::external_body]
fn to_snake_case(s: &str) -> (r: String)
    ensures
        r@ == snake_case_of(s@),
{
    s.to_case(Case::Snake)
}

/// The address of an item's order listing.
pub open spec fn orders_url(key: Seq<char>) -> Seq<char> {
    BASE_URL@ + "/items/"@ + key + "/orders"@
}

/// One retrieval to perform: the item at `index` of the fetcher's list.
#[derive(Debug, Clone)]
pub struct FetchRequest {
    pub index: usize,
    /// The item's display name.
    pub item_name: String,
    /// The item's canonical key.
    pub item_url: String,
    /// Where its order listing is.
    pub url: String,
}

/// A retrieval that failed, with what went wrong.
#[derive(Debug, Clone)]
pub struct FetchFailure {
    pub item_name: String,
    pub message: String,
}

/// The state of one item's retrieval.
#[derive(Debug)]
pub enum FetchSlot {
    Waiting,
    InFlight,
    Fetched(Vec<Order>),
    Failed(String),
}

/// What the fetch stage hands on: every fetched offer, tagged with its item,
/// and one failure per item that could not be retrieved.
#[derive(Debug)]
pub struct FetchReport {
    pub orders: Vec<Order>,
    pub errors: Vec<FetchFailure>,
}

/// An offer tagged with the item it was fetched for.
pub open spec fn tagged(o: Order, name: String, key: String) -> Order {
    Order { item_name: Some(name), item_url: Some(key), ..o }
}

/// How many slots are in flight.
pub open spec fn count_in_flight(slots: Seq<FetchSlot>) -> nat
    decreases slots.len(),
{
    if slots.len() == 0 {
        0
    } else {
        count_in_flight(slots.drop_last()) + if slots.last() is InFlight {
            1nat
        } else {
            0nat
        }
    }
}

/// The tagged offers of the first `j` slots, item by item.
pub open spec fn merged_orders(names: Seq<String>, keys: Seq<String>, slots: Seq<FetchSlot>, j: int) -> Seq<
    Order,
>
    decreases j,
{
    if j <= 0 {
        Seq::empty()
    } else {
        merged_orders(names, keys, slots, j - 1) + match slots[j - 1] {
            FetchSlot::Fetched(v) => v@.map_values(|o: Order| tagged(o, names[j - 1], keys[j - 1])),
            _ => Seq::empty(),
        }
    }
}

/// The failures among the first `j` slots, item by item.
pub open spec fn merged_failures(names: Seq<String>, slots: Seq<FetchSlot>, j: int) -> Seq<FetchFailure>
    decreases j,
{
    if j <= 0 {
        Seq::empty()
    } else {
        merged_failures(names, slots, j - 1) + match slots[j - 1] {
            FetchSlot::Failed(m) => seq![FetchFailure { item_name: names[j - 1], message: m }],
            _ => Seq::empty(),
        }
    }
}

/// The abstract state of a fetcher.
pub ghost struct FetcherView {
    pub names: Seq<String>,
    pub keys: Seq<String>,
    pub limit: nat,
    pub slots: Seq<FetchSlot>,
    pub next: nat,
    pub in_flight: nat,
}

/// The fetcher's invariant: slots from `next` on wait, the others have
/// started, and no more than `limit` are in flight.
pub open spec fn well_formed(v: FetcherView) -> bool {
    &&& v.names.len() == v.keys.len()
    &&& v.names.len() == v.slots.len()
    &&& v.limit >= 1
    &&& v.next <= v.slots.len()
    &&& forall|k: int| 0 <= k < v.slots.len() ==> (#[trigger] v.slots[k] is Waiting <==> k >= v.next)
    &&& v.in_flight == count_in_flight(v.slots)
    &&& v.in_flight <= v.limit
    &&& forall|k: int| 0 <= k < v.keys.len() ==> #[trigger] v.keys[k]@ == snake_case_of(v.names[k]@)
}

/// Every retrieval has been started and has reported back.
pub open spec fn all_done(v: FetcherView) -> bool {
    v.next == v.slots.len() && v.in_flight == 0
}

/// Schedules the retrieval of each item's offers, at most `limit` at a time,
/// and gathers the outcomes.
pub struct OrderFetcher {
    item_names: Vec<String>,
    keys: Vec<String>,
    limit: usize,
    slots: Vec<FetchSlot>,
    next: usize,
    in_flight: usize,
}

impl View for OrderFetcher {
    type V = FetcherView;

    closed spec fn view(&self) -> FetcherView {
        FetcherView {
            names: self.item_names@,
            keys: self.keys@,
            limit: self.limit as nat,
            slots: self.slots@,
            next: self.next as nat,
            in_flight: self.in_flight as nat,
        }
    }
}

proof fn lemma_count_in_flight_update(slots: Seq<FetchSlot>, k: int, x: FetchSlot)
    requires
        0 <= k < slots.len(),
    ensures
        count_in_flight(slots.update(k, x)) + (if slots[k] is InFlight {
            1int
        } else {
            0int
        }) == count_in_flight(slots) + (if x is InFlight {
            1int
        } else {
            0int
        }),
    decreases slots.len(),
{
    let u = slots.update(k, x);
    if k == slots.len() - 1 {
        assert(u.drop_last() =~= slots.drop_last());
    } else {
        assert(u.drop_last() =~= slots.drop_last().update(k, x));
        lemma_count_in_flight_update(slots.drop_last(), k, x);
    }
}

proof fn lemma_none_waiting_none_flying(slots: Seq<FetchSlot>)
    requires
        count_in_flight(slots) == 0,
    ensures
        forall|k: int| 0 <= k < slots.len() ==> !(#[trigger] slots[k] is InFlight),
    decreases slots.len(),
{
    if slots.len() > 0 {
        lemma_none_waiting_none_flying(slots.drop_last());
        assert forall|k: int| 0 <= k < slots.len() implies !(#[trigger] slots[k] is InFlight) by {
            if k < slots.len() - 1 {
                assert(slots[k] == slots.drop_last()[k]);
            }
        }
    }
}

/// The address of the order listing of the item with canonical key `key`.
pub fn item_orders_url(key: &str) -> (r: String)
    ensures
        r@ == orders_url(key@),
{
    let mut url = String::from_str(BASE_URL);
    url.append("/items/");
    url.append(key);
    url.append("/orders");
    assert(url@ =~= orders_url(key@));
    url
}

impl OrderFetcher {
    pub open spec fn wf(&self) -> bool {
        well_formed(self@)
    }

    /// A fetcher for `item_names`, with at most `limit` retrievals in flight.
    /// Duplicate names are kept: each is retrieved on its own.
    pub fn new(item_names: Vec<String>, limit: usize) -> (r: OrderFetcher)
        requires
            limit >= 1,
        ensures
            r.wf(),
            r@.names == item_names@,
            r@.limit == limit,
            r@.next == 0,
            r@.in_flight == 0,
    {
        let n = item_names.len();
        let mut keys: Vec<String> = Vec::new();
        let mut slots: Vec<FetchSlot> = Vec::new();
        for i in 0..n
            invariant
                n == item_names.len(),
                keys.len() == i,
                slots.len() == i,
                forall|k: int| 0 <= k < i ==> #[trigger] keys@[k]@ == snake_case_of(item_names@[k]@),
                forall|k: int| 0 <= k < i ==> #[trigger] slots@[k] is Waiting,
                count_in_flight(slots@) == 0,
        {
            keys.push(to_snake_case(item_names[i].as_str()));
            let ghost before = slots@;
            slots.push(FetchSlot::Waiting);
            assert(slots@.drop_last() =~= before);
        }
        OrderFetcher { item_names, keys, limit, slots, next: 0, in_flight: 0 }
    }

    /// Whether the retrieval of the item at `index` is in flight.
    pub fn is_in_flight(&self, index: usize) -> (r: bool)
        ensures
            r == (index < self@.slots.len() && self@.slots[index as int] is InFlight),
    {
        index < self.slots.len() && match &self.slots[index] {
            FetchSlot::InFlight => true,
            _ => false,
        }
    }

    /// Hands out the next retrieval if one is waiting and a slot of the
    /// limit is free; marks it in flight.
    pub fn next_request(&mut self) -> (r: Option<FetchRequest>)
        requires
            old(self).wf(),
        ensures
            final(self).wf(),
            final(self)@.names == old(self)@.names,
            final(self)@.keys == old(self)@.keys,
            final(self)@.limit == old(self)@.limit,
            (old(self)@.in_flight < old(self)@.limit && old(self)@.next < old(self)@.names.len())
                <==> r is Some,
            r is Some ==> {
                let i = old(self)@.next as int;
                &&& r->0.index == i
                &&& r->0.item_name == old(self)@.names[i]
                &&& r->0.item_url == old(self)@.keys[i]
                &&& r->0.url@ == orders_url(old(self)@.keys[i]@)
                &&& final(self)@.slots == old(self)@.slots.update(i, FetchSlot::InFlight)
                &&& final(self)@.next == i + 1
                &&& final(self)@.in_flight == old(self)@.in_flight + 1
            },
            r is None ==> final(self)@ == old(self)@,
    {
        if self.in_flight < self.limit && self.next < self.slots.len() {
            let i = self.next;
            let ghost before = self.slots@;
            proof {
                lemma_count_in_flight_update(before, i as int, FetchSlot::InFlight);
            }
            self.slots.set(i, FetchSlot::InFlight);
            self.next = i + 1;
            self.in_flight = self.in_flight + 1;
            let url = item_orders_url(self.keys[i].as_str());
            Some(
                FetchRequest {
                    index: i,
                    item_name: self.item_names[i].clone(),
                    item_url: self.keys[i].clone(),
                    url,
                },
            )
        } else {
            None
        }
    }

    /// Stores the outcome of the retrieval of the item at `index`, which is
    /// in flight, and frees its place under the limit.
    pub fn record(&mut self, index: usize, outcome: Result<Vec<Order>, String>)
        requires
            old(self).wf(),
            index < old(self)@.slots.len(),
            old(self)@.slots[index as int] is InFlight,
        ensures
            final(self).wf(),
            final(self)@.names == old(self)@.names,
            final(self)@.keys == old(self)@.keys,
            final(self)@.limit == old(self)@.limit,
            final(self)@.next == old(self)@.next,
            final(self)@.in_flight == old(self)@.in_flight - 1,
            final(self)@.slots == old(self)@.slots.update(
                index as int,
                match outcome {
                    Ok(v) => FetchSlot::Fetched(v),
                    Err(m) => FetchSlot::Failed(m),
                },
            ),
    {
        let slot = match outcome {
            Ok(v) => FetchSlot::Fetched(v),
            Err(m) => FetchSlot::Failed(m),
        };
        proof {
            lemma_count_in_flight_update(self.slots@, index as int, slot);
        }
        self.slots.set(index, slot);
        self.in_flight = self.in_flight - 1;
    }

    /// Whether every retrieval has been started and has reported back.
    pub fn is_finished(&self) -> (r: bool)
        requires
            self.wf(),
        ensures
            r == all_done(self@),
    {
        self.next == self.slots.len() && self.in_flight == 0
    }

    /// The offers of every fetched item, tagged with the item, item by item in
    /// the order of the list, and one failure for each item that failed.
    pub fn finish(self) -> (r: FetchReport)
        requires
            self.wf(),
            all_done(self@),
        ensures
            forall|k: int|
                0 <= k < self@.slots.len() ==> #[trigger] self@.slots[k] is Fetched
                    || self@.slots[k] is Failed,
            r.orders@ == merged_orders(self@.names, self@.keys, self@.slots, self@.slots.len() as int),
            r.errors@ == merged_failures(self@.names, self@.slots, self@.slots.len() as int),
    {
        let ghost names = self.item_names@;
        let ghost keys = self.keys@;
        let ghost slots = self.slots@;
        proof {
            lemma_none_waiting_none_flying(slots);
        }
        let OrderFetcher { item_names, keys: item_keys, slots: all_slots, .. } = self;
        let mut orders: Vec<Order> = Vec::new();
        let mut errors: Vec<FetchFailure> = Vec::new();
        let mut k: usize = 0;
        for slot in it: all_slots.into_iter()
            invariant
                it.seq() == slots,
                k == it.index(),
                item_names@ == names,
                item_keys@ == keys,
                names.len() == slots.len(),
                keys.len() == slots.len(),
                orders@ == merged_orders(names, keys, slots, k as int),
                errors@ == merged_failures(names, slots, k as int),
        {
            let ghost kk = k as int;
            let ghost tag = |o: Order| tagged(o, names[kk], keys[kk]);
            match slot {
                FetchSlot::Fetched(v) => {
                    let ghost vs = v@;
                    let ghost base = orders@;
                    for o in jt: v.into_iter()
                        invariant
                            jt.seq() == vs,
                            k < item_names.len(),
                            kk == k,
                            item_names@ == names,
                            item_keys@ == keys,
                            names.len() == keys.len(),
                            tag == (|o: Order| tagged(o, names[kk], keys[kk])),
                            orders@ == base + vs.take(jt.index() as int).map_values(tag),
                    {
                        let ghost j = jt.index() as int;
                        let mut o = o;
                        o.item_name = Some(item_names[k].clone());
                        o.item_url = Some(item_keys[k].clone());
                        orders.push(o);
                        assert(vs.take(j + 1).map_values(tag) =~= vs.take(j).map_values(tag).push(
                            tag(vs[j]),
                        ));
                    }
                    assert(vs.take(vs.len() as int) =~= vs);
                },
                FetchSlot::Failed(m) => {
                    errors.push(FetchFailure { item_name: item_names[k].clone(), message: m });
                },
                _ => {},
            }
            proof {
                assert(merged_orders(names, keys, slots, kk + 1) == merged_orders(names, keys, slots, kk)
                    + match slots[kk] {
                    FetchSlot::Fetched(v) => v@.map_values(tag),
                    _ => Seq::empty(),
                });
            }
            assert(orders@ =~= merged_orders(names, keys, slots, kk + 1));
            assert(errors@ =~= merged_failures(names, slots, kk + 1));
            k = k + 1;
        }
        FetchReport { orders, errors }
    }
}


proof fn lemma_merged_orders_keep_fetched(
    names: Seq<String>,
    keys: Seq<String>,
    slots: Seq<FetchSlot>,
    j: int,
)
    requires
        0 <= j <= slots.len(),
        names.len() == slots.len(),
        keys.len() == slots.len(),
    ensures
        forall|k: int, i: int|
            0 <= k < j && (#[trigger] slots[k]) is Fetched && 0 <= i < slots[k]->Fetched_0@.len()
                ==> merged_orders(names, keys, slots, j).contains(
                tagged(#[trigger] slots[k]->Fetched_0@[i], names[k], keys[k]),
            ),
    decreases j,
{
    if j > 0 {
        lemma_merged_orders_keep_fetched(names, keys, slots, j - 1);
        let prev = merged_orders(names, keys, slots, j - 1);
        let whole = merged_orders(names, keys, slots, j);
        let tag = |o: Order| tagged(o, names[j - 1], keys[j - 1]);
        let extra = match slots[j - 1] {
            FetchSlot::Fetched(v) => v@.map_values(tag),
            _ => Seq::empty(),
        };
        assert(whole == prev + extra);
        assert forall|k: int, i: int|
            0 <= k < j && (#[trigger] slots[k]) is Fetched && 0 <= i < slots[k]->Fetched_0@.len()
                implies whole.contains(tagged(#[trigger] slots[k]->Fetched_0@[i], names[k], keys[k])) by {
            let x = tagged(slots[k]->Fetched_0@[i], names[k], keys[k]);
            if k < j - 1 {
                let at = choose|at: int| 0 <= at < prev.len() && prev[at] == x;
                assert(whole[at] == x);
            } else {
                assert(extra[i] == x);
                assert(whole[prev.len() + i] == x);
            }
        }
    }
}

proof fn lemma_merged_failures_single(names: Seq<String>, slots: Seq<FetchSlot>, failed: int, j: int)
    requires
        0 <= j <= slots.len(),
        names.len() == slots.len(),
        0 <= failed < slots.len(),
        slots[failed] is Failed,
        forall|k: int| 0 <= k < slots.len() && k != failed ==> !(#[trigger] slots[k] is Failed),
    ensures
        merged_failures(names, slots, j) == if failed < j {
            seq![FetchFailure { item_name: names[failed], message: slots[failed]->Failed_0 }]
        } else {
            Seq::empty()
        },
    decreases j,
{
    if j > 0 {
        lemma_merged_failures_single(names, slots, failed, j - 1);
        if j - 1 == failed {
            let f = FetchFailure { item_name: names[failed], message: slots[failed]->Failed_0 };
            assert(merged_failures(names, slots, j) == merged_failures(names, slots, j - 1) + seq![f]);
            assert(merged_failures(names, slots, j) =~= seq![
                FetchFailure { item_name: names[failed], message: slots[failed]->Failed_0 },
            ]);
        } else {
            assert(!(slots[j - 1] is Failed));
            assert(merged_failures(names, slots, j) =~= merged_failures(names, slots, j - 1));
        }
    }
}

/// A failed retrieval stays isolated: when every item but `failed` was
/// fetched, the merged result holds every offer of every other item, tagged
/// with its item, and exactly one failure, that of `failed`.
pub proof fn lemma_failure_isolated(
    names: Seq<String>,
    keys: Seq<String>,
    slots: Seq<FetchSlot>,
    failed: int,
)
    requires
        names.len() == slots.len(),
        keys.len() == slots.len(),
        0 <= failed < slots.len(),
        slots[failed] is Failed,
        forall|k: int| 0 <= k < slots.len() && k != failed ==> #[trigger] slots[k] is Fetched,
    ensures
        merged_failures(names, slots, slots.len() as int) == seq![
            FetchFailure { item_name: names[failed], message: slots[failed]->Failed_0 },
        ],
        forall|k: int, i: int|
            0 <= k < slots.len() && k != failed && 0 <= i < (#[trigger] slots[k])->Fetched_0@.len()
                ==> merged_orders(names, keys, slots, slots.len() as int).contains(
                tagged(#[trigger] slots[k]->Fetched_0@[i], names[k], keys[k]),
            ),
{
    assert forall|k: int| 0 <= k < slots.len() && k != failed implies !(#[trigger] slots[k] is Failed) by {
        assert(slots[k] is Fetched);
    }
    lemma_merged_failures_single(names, slots, failed, slots.len() as int);
    lemma_merged_orders_keep_fetched(names, keys, slots, slots.len() as int);
}

} // verus!
