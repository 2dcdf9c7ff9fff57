//! The offers already contacted, and how each is written down in the log:
//! one line per offer, its id first, fields separated by commas.

use vstd::prelude::*;
use vstd::string::{StrSliceExecFns, StringExecFns};
use crate::order::Order;
use crate::text::{contains_text, decimal, holds_text, render_decimal};

verus! {

/// The first position at or after `j` of a comma in `line` (`line.len()` if none).
pub open spec fn comma_from(line: Seq<char>, j: int) -> int
    decreases line.len() - j,
{
    if j < 0 || j >= line.len() {
        line.len() as int
    } else if line[j] == ',' {
        j
    } else {
        comma_from(line, j + 1)
    }
}

/// The text of a log line before its first comma: the offer's id.
pub open spec fn first_field(line: Seq<char>) -> Seq<char> {
    line.subrange(0, comma_from(line, 0))
}

/// The log line of an offer: id, seller, item, unit price and quantity.
pub open spec fn record_line(o: Order) -> Seq<char> {
    o.id@ + ","@ + o.user.ingame_name@ + ","@ + match o.item_name {
        Some(n) => n@,
        None => Seq::empty(),
    } + ","@ + decimal(o.platinum as nat) + ","@ + decimal(o.quantity as nat)
}

/// The id that a log line records.
pub fn record_id(line: &str) -> (r: String)
    ensures
        r@ == first_field(line@),
{
    let n = line.unicode_len();
    let mut j: usize = 0;
    while j < n && line.get_char(j) != ','
        invariant
            j <= n,
            n == line@.len(),
            comma_from(line@, 0) == comma_from(line@, j as int),
        decreases n - j,
    {
        j = j + 1;
    }
    String::from_str(line.substring_char(0, j))
}

/// The log line of an offer, without line end.
pub fn contacted_record(order: &Order) -> (r: String)
    ensures
        r@ == record_line(*order),
{
    let mut r = String::from_str(order.id.as_str());
    r.append(",");
    r.append(order.user.ingame_name.as_str());
    r.append(",");
    match &order.item_name {
        Some(n) => r.append(n.as_str()),
        None => {},
    }
    r.append(",");
    let price = render_decimal(order.platinum as u64);
    r.append(price.as_str());
    r.append(",");
    let quantity = render_decimal(order.quantity as u64);
    r.append(quantity.as_str());
    assert(r@ =~= record_line(*order));
    r
}

/// The ids of the offers already contacted.
#[derive(Debug, Clone)]
pub struct ContactLog {
    ids: Vec<String>,
}

impl View for ContactLog {
    type V = Set<Seq<char>>;

    closed spec fn view(&self) -> Set<Seq<char>> {
        Set::new(|s: Seq<char>| holds_text(self.ids@, s))
    }
}

impl ContactLog {
    /// A log with no offer in it.
    pub fn new() -> (r: ContactLog)
        ensures
            r@ == Set::<Seq<char>>::empty(),
    {
        let r = ContactLog { ids: Vec::new() };
        assert(r@ =~= Set::<Seq<char>>::empty());
        r
    }

    /// The log that `lines` write down: the id of each line.
    pub fn from_lines(lines: &Vec<String>) -> (r: ContactLog)
        ensures
            forall|s: Seq<char>|
                r@.contains(s) <==> exists|k: int|
                    0 <= k < lines@.len() && s == first_field(#[trigger] lines@[k]@),
    {
        let mut ids: Vec<String> = Vec::new();
        for i in 0..lines.len()
            invariant
                ids@.len() == i,
                i <= lines@.len(),
                forall|k: int| 0 <= k < i ==> #[trigger] ids@[k]@ == first_field(lines@[k]@),
        {
            ids.push(record_id(lines[i].as_str()));
        }
        let r = ContactLog { ids };
        assert forall|s: Seq<char>| r@.contains(s) <==> exists|k: int|
            0 <= k < lines@.len() && s == first_field(#[trigger] lines@[k]@) by {
            if r@.contains(s) {
                let k = choose|k: int| 0 <= k < r.ids@.len() && #[trigger] r.ids@[k]@ == s;
                assert(s == first_field(lines@[k]@));
            }
            if exists|k: int| 0 <= k < lines@.len() && s == first_field(#[trigger] lines@[k]@) {
                let k = choose|k: int| 0 <= k < lines@.len() && s == first_field(#[trigger] lines@[k]@);
                assert(r.ids@[k]@ == s);
            }
        }
        r
    }

    /// Whether the offer `id` has been contacted.
    pub fn contains(&self, id: &String) -> (r: bool)
        ensures
            r == self@.contains(id@),
    {
        contains_text(&self.ids, id)
    }

    /// Records that the offer `id` was contacted; tells whether it was new.
    pub fn record(&mut self, id: String) -> (added: bool)
        ensures
            added == !old(self)@.contains(id@),
            final(self)@ == old(self)@.insert(id@),
    {
        if contains_text(&self.ids, &id) {
            assert(self@ =~= self@.insert(id@));
            false
        } else {
            let ghost before = self.ids@;
            self.ids.push(id);
            assert forall|s: Seq<char>| #[trigger] holds_text(self.ids@, s) == (holds_text(before, s) || s
                == self.ids@.last()@) by {
                if holds_text(before, s) {
                    let k = choose|k: int| 0 <= k < before.len() && #[trigger] before[k]@ == s;
                    assert(self.ids@[k]@ == s);
                }
                if holds_text(self.ids@, s) && s != self.ids@.last()@ {
                    let k = choose|k: int| 0 <= k < self.ids@.len() && #[trigger] self.ids@[k]@ == s;
                    assert(before[k]@ == s);
                }
                assert(self.ids@[before.len() as int]@ == self.ids@.last()@);
            }
            assert(self@ =~= old(self)@.insert(id@));
            true
        }
    }

    /// Forgets every contacted offer.
    pub fn clear(&mut self)
        ensures
            final(self)@ == Set::<Seq<char>>::empty(),
    {
        self.ids.clear();
        assert(self@ =~= Set::<Seq<char>>::empty());
    }

    /// The contacted ids, to exclude them from a filter.
    pub fn ids(&self) -> (r: Vec<String>)
        ensures
            forall|s: Seq<char>| holds_text(r@, s) <==> self@.contains(s),
    {
        let mut r: Vec<String> = Vec::new();
        for i in 0..self.ids.len()
            invariant
                r@ == self.ids@.take(i as int),
        {
            r.push(self.ids[i].clone());
            assert(r@ =~= self.ids@.take(i + 1));
        }
        assert(r@ =~= self.ids@);
        r
    }
}

} // verus!
