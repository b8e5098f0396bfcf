//! The bid ledger: one entry per bidder, kept in ascending order of the
//! bidders' identities.

use vstd::prelude::*;

use crate::host::Addr;
use crate::state::{Bid, BidView};
use crate::text::{key_less, lemma_key_less_transitive, lemma_key_order_total, rank_of, Rank};

verus! {

/// The bidders stand in strictly ascending order, so none stands twice.
pub open spec fn ascending(s: Seq<BidView>) -> bool {
    forall|i: int, j: int|
        #![trigger s[i], s[j]]
        0 <= i < j < s.len() ==> key_less(s[i].bidder, s[j].bidder)
}

/// Some entry is `bidder`'s.
pub open spec fn holds(s: Seq<BidView>, bidder: Seq<char>) -> bool {
    exists|i: int| 0 <= i < s.len() && (#[trigger] s[i]).bidder == bidder
}

/// Where `bidder`'s entry stands, if there is one.
pub open spec fn index_of(s: Seq<BidView>, bidder: Seq<char>) -> int {
    choose|i: int| 0 <= i < s.len() && (#[trigger] s[i]).bidder == bidder
}

/// What `bidder` has bid: the amount of their entry, or nothing.
pub open spec fn amount_of(s: Seq<BidView>, bidder: Seq<char>) -> nat {
    if holds(s, bidder) {
        s[index_of(s, bidder)].amount
    } else {
        0
    }
}

/// The entry of `bidder`, if there is one.
pub open spec fn entry_of(s: Seq<BidView>, bidder: Seq<char>) -> Option<BidView> {
    if holds(s, bidder) {
        Some(BidView { bidder, amount: amount_of(s, bidder) })
    } else {
        None
    }
}

/// The sum of all bids.
pub open spec fn total(s: Seq<BidView>) -> nat
    decreases s.len(),
{
    if s.len() == 0 {
        0
    } else {
        total(s.drop_last()) + s.last().amount
    }
}

/// Position `p` is where an entry of `bidder` would keep the order: every
/// entry before it comes before `bidder`, every other after.
pub open spec fn slot(s: Seq<BidView>, bidder: Seq<char>, p: int) -> bool {
    &&& 0 <= p <= s.len()
    &&& forall|i: int| 0 <= i < p ==> key_less((#[trigger] s[i]).bidder, bidder)
    &&& forall|i: int| p <= i < s.len() ==> key_less(bidder, (#[trigger] s[i]).bidder)
}

/// The position where an entry of `bidder` would keep the order.
pub open spec fn slot_of(s: Seq<BidView>, bidder: Seq<char>) -> int {
    choose|p: int| slot(s, bidder, p)
}

/// The ledger after `bidder` paid `amount` more: their entry grows by it, or
/// a new entry of that amount takes its place in the order.
pub open spec fn credited(s: Seq<BidView>, bidder: Seq<char>, amount: nat) -> Seq<BidView> {
    if holds(s, bidder) {
        let i = index_of(s, bidder);
        s.update(i, BidView { bidder, amount: s[i].amount + amount })
    } else {
        s.insert(slot_of(s, bidder), BidView { bidder, amount })
    }
}

/// The ledger without `bidder`'s entry.
pub open spec fn removed(s: Seq<BidView>, bidder: Seq<char>) -> Seq<BidView> {
    if holds(s, bidder) {
        s.remove(index_of(s, bidder))
    } else {
        s
    }
}

/// In an ordered ledger an entry is found by its bidder.
pub proof fn lemma_index_of(s: Seq<BidView>, i: int)
    requires
        ascending(s),
        0 <= i < s.len(),
    ensures
        holds(s, s[i].bidder),
        index_of(s, s[i].bidder) == i,
        amount_of(s, s[i].bidder) == s[i].amount,
{
    let k = s[i].bidder;
    let j = index_of(s, k);
    lemma_key_order_total(k, k);
    if j < i {
        assert(key_less(s[j].bidder, s[i].bidder));
    } else if i < j {
        assert(key_less(s[i].bidder, s[j].bidder));
    }
}

/// A bidder with a slot has no entry, and no other slot.
pub proof fn lemma_slot(s: Seq<BidView>, bidder: Seq<char>, p: int)
    requires
        slot(s, bidder, p),
    ensures
        !holds(s, bidder),
        slot_of(s, bidder) == p,
        amount_of(s, bidder) == 0,
{
    lemma_key_order_total(bidder, bidder);
    if holds(s, bidder) {
        let i = index_of(s, bidder);
        if i < p {
            assert(key_less(s[i].bidder, bidder));
        } else {
            assert(key_less(bidder, s[i].bidder));
        }
    }
    let q = slot_of(s, bidder);
    if q < p {
        lemma_key_order_total(bidder, s[q].bidder);
        assert(key_less(s[q].bidder, bidder));
    } else if p < q {
        lemma_key_order_total(bidder, s[p].bidder);
        assert(key_less(s[p].bidder, bidder));
    }
}

/// An entry put in adds its amount to the sum.
pub proof fn lemma_total_insert(s: Seq<BidView>, p: int, x: BidView)
    requires
        0 <= p <= s.len(),
    ensures
        total(s.insert(p, x)) == total(s) + x.amount,
    decreases s.len() - p,
{
    let t = s.insert(p, x);
    if p == s.len() {
        assert(t.drop_last() =~= s);
    } else {
        assert(t.drop_last() =~= s.drop_last().insert(p, x));
        lemma_total_insert(s.drop_last(), p, x);
    }
}

/// An entry replaced changes the sum by the difference of the amounts.
pub proof fn lemma_total_update(s: Seq<BidView>, i: int, x: BidView)
    requires
        0 <= i < s.len(),
    ensures
        total(s.update(i, x)) + s[i].amount == total(s) + x.amount,
    decreases s.len(),
{
    let t = s.update(i, x);
    if i == s.len() - 1 {
        assert(t.drop_last() =~= s.drop_last());
    } else {
        assert(t.drop_last() =~= s.drop_last().update(i, x));
        lemma_total_update(s.drop_last(), i, x);
    }
}

/// An entry taken out takes its amount from the sum.
pub proof fn lemma_total_remove(s: Seq<BidView>, i: int)
    requires
        0 <= i < s.len(),
    ensures
        total(s.remove(i)) + s[i].amount == total(s),
    decreases s.len(),
{
    let t = s.remove(i);
    if i == s.len() - 1 {
        assert(t =~= s.drop_last());
    } else {
        assert(t.drop_last() =~= s.drop_last().remove(i));
        lemma_total_remove(s.drop_last(), i);
    }
}

/// What crediting does, entry by entry: the order is kept, the payer's bid
/// grows by the payment, every other bid stays as it was, and so the sum of
/// all bids grows by the payment.
pub proof fn lemma_credited(s: Seq<BidView>, bidder: Seq<char>, amount: nat)
    requires
        ascending(s),
    ensures
        ascending(credited(s, bidder, amount)),
        holds(credited(s, bidder, amount), bidder),
        amount_of(credited(s, bidder, amount), bidder) == amount_of(s, bidder) + amount,
        forall|other: Seq<char>|
            other != bidder ==> holds(credited(s, bidder, amount), other) == holds(s, other)
                && amount_of(credited(s, bidder, amount), other) == amount_of(s, other),
        total(credited(s, bidder, amount)) == total(s) + amount,
{
    let t = credited(s, bidder, amount);
    if holds(s, bidder) {
        let i = index_of(s, bidder);
        let x = BidView { bidder, amount: s[i].amount + amount };
        lemma_total_update(s, i, x);
        assert(ascending(t)) by {
            assert forall|a: int, b: int| 0 <= a < b < t.len() implies key_less(
                t[a].bidder,
                t[b].bidder,
            ) by {
                assert(t[a].bidder == s[a].bidder);
                assert(t[b].bidder == s[b].bidder);
            }
        }
        assert(t[i].bidder == bidder);
        lemma_index_of(t, i);
        assert forall|other: Seq<char>| other != bidder implies holds(t, other) == holds(s, other)
            && amount_of(t, other) == amount_of(s, other) by {
            if holds(s, other) {
                let j = index_of(s, other);
                assert(t[j] == s[j]);
                lemma_index_of(t, j);
            }
            if holds(t, other) {
                let j = index_of(t, other);
                assert(t[j] == s[j]);
                lemma_index_of(s, j);
            }
        }
    } else {
        lemma_key_order_total(bidder, bidder);
        assert(slot(s, bidder, slot_of(s, bidder))) by {
            lemma_slot_exists(s, bidder);
        }
        let p = slot_of(s, bidder);
        let x = BidView { bidder, amount };
        lemma_total_insert(s, p, x);
        assert(ascending(t)) by {
            assert forall|a: int, b: int| 0 <= a < b < t.len() implies key_less(
                t[a].bidder,
                t[b].bidder,
            ) by {
                if b < p {
                    assert(t[a] == s[a] && t[b] == s[b]);
                } else if b == p {
                    assert(t[a] == s[a]);
                } else if a < p {
                    assert(t[a] == s[a] && t[b] == s[b - 1]);
                } else if a == p {
                    assert(t[b] == s[b - 1]);
                } else {
                    assert(t[a] == s[a - 1] && t[b] == s[b - 1]);
                }
            }
        }
        assert(t[p] == x);
        lemma_index_of(t, p);
        assert forall|other: Seq<char>| other != bidder implies holds(t, other) == holds(s, other)
            && amount_of(t, other) == amount_of(s, other) by {
            if holds(s, other) {
                let j = index_of(s, other);
                let j2 = if j < p { j } else { j + 1 };
                assert(t[j2] == s[j]);
                lemma_index_of(t, j2);
            }
            if holds(t, other) {
                let j = index_of(t, other);
                let j2 = if j < p { j } else { j - 1 };
                assert(t[j] == s[j2]);
                lemma_index_of(s, j2);
            }
        }
    }
}

/// In an ordered ledger every bidder without an entry has a slot.
pub proof fn lemma_slot_exists(s: Seq<BidView>, bidder: Seq<char>)
    requires
        ascending(s),
        !holds(s, bidder),
    ensures
        slot(s, bidder, slot_of(s, bidder)),
    decreases s.len(),
{
    if s.len() == 0 {
        assert(slot(s, bidder, 0));
    } else {
        let r = s.drop_last();
        assert(ascending(r)) by {
            assert forall|a: int, b: int| 0 <= a < b < r.len() implies key_less(
                r[a].bidder,
                r[b].bidder,
            ) by {
                assert(r[a] == s[a] && r[b] == s[b]);
            }
        }
        assert(!holds(r, bidder)) by {
            if holds(r, bidder) {
                let i = index_of(r, bidder);
                assert(s[i] == r[i]);
            }
        }
        lemma_slot_exists(r, bidder);
        let q = slot_of(r, bidder);
        let last = s.len() - 1;
        lemma_key_order_total(s[last].bidder, bidder);
        assert(s[last].bidder != bidder);
        if key_less(s[last].bidder, bidder) {
            assert forall|i: int| 0 <= i < s.len() implies key_less(
                (#[trigger] s[i]).bidder,
                bidder,
            ) by {
                if i < last {
                    assert(key_less(s[i].bidder, s[last].bidder));
                    lemma_key_less_transitive(s[i].bidder, s[last].bidder, bidder);
                }
            }
            assert(slot(s, bidder, s.len() as int));
        } else {
            assert forall|i: int| 0 <= i < q implies key_less((#[trigger] s[i]).bidder, bidder) by {
                assert(s[i] == r[i]);
            }
            assert forall|i: int| q <= i < s.len() implies key_less(
                bidder,
                (#[trigger] s[i]).bidder,
            ) by {
                if i < last {
                    assert(s[i] == r[i]);
                }
            }
            assert(slot(s, bidder, q));
        }
    }
}

/// What removing does: the order is kept, the bidder's entry is gone, every
/// other bid stays as it was, and the sum of all bids falls by the bid removed.
pub proof fn lemma_removed(s: Seq<BidView>, bidder: Seq<char>)
    requires
        ascending(s),
    ensures
        ascending(removed(s, bidder)),
        !holds(removed(s, bidder), bidder),
        forall|other: Seq<char>|
            other != bidder ==> holds(removed(s, bidder), other) == holds(s, other) && amount_of(
                removed(s, bidder),
                other,
            ) == amount_of(s, other),
        total(removed(s, bidder)) + amount_of(s, bidder) == total(s),
{
    let t = removed(s, bidder);
    if holds(s, bidder) {
        let p = index_of(s, bidder);
        lemma_total_remove(s, p);
        assert(ascending(t)) by {
            assert forall|a: int, b: int| 0 <= a < b < t.len() implies key_less(
                t[a].bidder,
                t[b].bidder,
            ) by {
                let a2 = if a < p { a } else { a + 1 };
                let b2 = if b < p { b } else { b + 1 };
                assert(t[a] == s[a2] && t[b] == s[b2]);
            }
        }
        if holds(t, bidder) {
            let j = index_of(t, bidder);
            let j2 = if j < p { j } else { j + 1 };
            assert(t[j] == s[j2]);
            lemma_index_of(s, j2);
        }
        assert forall|other: Seq<char>| other != bidder implies holds(t, other) == holds(s, other)
            && amount_of(t, other) == amount_of(s, other) by {
            if holds(s, other) {
                let j = index_of(s, other);
                let j2 = if j < p { j } else { j - 1 };
                assert(t[j2] == s[j]);
                lemma_index_of(t, j2);
            }
            if holds(t, other) {
                let j = index_of(t, other);
                let j2 = if j < p { j } else { j + 1 };
                assert(t[j] == s[j2]);
                lemma_index_of(s, j2);
            }
        }
    }
}

/// The bids of the open bidding period, one entry per bidder.
#[derive(Debug, PartialEq, Eq)]
pub struct BidLedger {
    entries: Vec<Bid>,
}

impl View for BidLedger {
    type V = Seq<BidView>;

    /// The entries, in ascending order of their bidders.
    closed spec fn view(&self) -> Seq<BidView> {
        self.entries.deep_view()
    }
}

impl BidLedger {
    /// The entries are in order. Every ledger this library hands out is.
    pub open spec fn wf(&self) -> bool {
        ascending(self@)
    }

    /// A ledger without entries.
    pub fn new() -> (r: BidLedger)
        ensures
            r.wf(),
            r@ == Seq::<BidView>::empty(),
    {
        let r = BidLedger { entries: Vec::new() };
        assert(r@ =~= Seq::<BidView>::empty());
        r
    }

    /// The number of entries.
    pub fn len(&self) -> (r: usize)
        ensures
            r == self@.len(),
    {
        self.entries.len()
    }

    /// Where `bidder`'s entry stands, or, as an error, where it would.
    fn locate(&self, bidder: &Addr) -> (r: Result<usize, usize>)
        requires
            self.wf(),
        ensures
            match r {
                Ok(i) => i < self@.len() && self@[i as int].bidder == bidder@ && holds(
                    self@,
                    bidder@,
                ) && index_of(self@, bidder@) == i,
                Err(p) => slot(self@, bidder@, p as int) && !holds(self@, bidder@) && slot_of(
                    self@,
                    bidder@,
                ) == p,
            },
    {
        let mut i: usize = 0;
        while i < self.entries.len()
            invariant
                i <= self.entries.len(),
                self.wf(),
                forall|j: int| 0 <= j < i ==> key_less((#[trigger] self@[j]).bidder, bidder@),
            decreases self.entries.len() - i,
        {
            proof {
                lemma_key_order_total(self@[i as int].bidder, bidder@);
            }
            match rank_of(self.entries[i].bidder.as_str(), bidder.as_str()) {
                Rank::Same => {
                    proof {
                        lemma_index_of(self@, i as int);
                    }
                    return Ok(i);
                },
                Rank::After => {
                    proof {
                        assert forall|j: int| i <= j < self@.len() implies key_less(
                            bidder@,
                            (#[trigger] self@[j]).bidder,
                        ) by {
                            if i < j {
                                assert(key_less(self@[i as int].bidder, self@[j].bidder));
                                lemma_key_less_transitive(
                                    bidder@,
                                    self@[i as int].bidder,
                                    self@[j].bidder,
                                );
                            }
                        }
                        lemma_slot(self@, bidder@, i as int);
                    }
                    return Err(i);
                },
                Rank::Before => {
                    i += 1;
                },
            }
        }
        proof {
            lemma_slot(self@, bidder@, i as int);
        }
        Err(i)
    }

    /// Where `bidder`'s entry stands in the ascending order, if they have one.
    pub fn position(&self, bidder: &Addr) -> (r: Option<usize>)
        requires
            self.wf(),
        ensures
            r.is_some() == holds(self@, bidder@),
            r matches Some(i) ==> i < self@.len() && i == index_of(self@, bidder@) && self@[i as int]
                == (BidView { bidder: bidder@, amount: amount_of(self@, bidder@) }),
    {
        match self.locate(bidder) {
            Ok(i) => Some(i),
            Err(_) => None,
        }
    }

    /// The bid of `bidder`, if they have one.
    pub fn get(&self, bidder: &Addr) -> (r: Option<Bid>)
        requires
            self.wf(),
        ensures
            r.is_some() == holds(self@, bidder@),
            r matches Some(bid) ==> bid@ == (BidView {
                bidder: bidder@,
                amount: amount_of(self@, bidder@),
            }),
    {
        match self.locate(bidder) {
            Ok(i) => Some(self.entries[i].clone()),
            Err(_) => None,
        }
    }

    /// All bids, in ascending order of their bidders.
    pub fn list(&self) -> (r: Vec<Bid>)
        ensures
            r.deep_view() == self@,
    {
        let mut r: Vec<Bid> = Vec::new();
        let mut i: usize = 0;
        while i < self.entries.len()
            invariant
                i <= self.entries.len(),
                r.len() == i,
                forall|j: int| 0 <= j < i ==> r[j]@ == self@[j],
            decreases self.entries.len() - i,
        {
            r.push(self.entries[i].clone());
            i += 1;
        }
        assert(r.deep_view() =~= self@);
        r
    }

    /// Adds `amount` to the bid of `bidder`, which starts at nothing.
    pub fn upsert_add(&mut self, bidder: &Addr, amount: u128)
        requires
            old(self).wf(),
            amount_of(old(self)@, bidder@) + amount <= u128::MAX,
        ensures
            final(self).wf(),
            final(self)@ == credited(old(self)@, bidder@, amount as nat),
    {
        proof {
            lemma_credited(self@, bidder@, amount as nat);
        }
        match self.locate(bidder) {
            Ok(i) => {
                let bid = Bid { bidder: bidder.clone(), amount: self.entries[i].amount + amount };
                self.entries.set(i, bid);
                assert(self@ =~= credited(old(self)@, bidder@, amount as nat));
            },
            Err(p) => {
                let bid = Bid { bidder: bidder.clone(), amount };
                self.entries.insert(p, bid);
                assert(self@ =~= credited(old(self)@, bidder@, amount as nat));
            },
        }
    }

    /// Takes out the bid of `bidder`, if they have one.
    pub fn remove(&mut self, bidder: &Addr)
        requires
            old(self).wf(),
        ensures
            final(self).wf(),
            final(self)@ == removed(old(self)@, bidder@),
    {
        proof {
            lemma_removed(self@, bidder@);
        }
        match self.locate(bidder) {
            Ok(i) => {
                let _ = self.entries.remove(i);
                assert(self@ =~= removed(old(self)@, bidder@));
            },
            Err(_) => {},
        }
    }

    /// Takes out every bid.
    pub fn clear(&mut self)
        ensures
            final(self).wf(),
            final(self)@ == Seq::<BidView>::empty(),
    {
        self.entries.clear();
        assert(self@ =~= Seq::<BidView>::empty());
    }
}

} // verus!
