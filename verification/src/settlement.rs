//! Settlement: which bids are refunded when a bidding period ends, what is
//! forwarded as proceeds, and that together they are all that was deposited.

use vstd::prelude::*;

use crate::host::{send_view, BankMsgView, CoinView};
use crate::ledger::{amount_of, ascending, holds, index_of, lemma_index_of, total};
use crate::state::BidView;

verus! {

/// Every accepted bidder has a bid.
pub open spec fn all_held(bids: Seq<BidView>, accepted: Seq<Seq<char>>) -> bool {
    forall|j: int| 0 <= j < accepted.len() ==> holds(bids, #[trigger] accepted[j])
}

/// The list names bidders with a bid, each once.
pub open spec fn acceptable(bids: Seq<BidView>, accepted: Seq<Seq<char>>) -> bool {
    accepted.no_duplicates() && all_held(bids, accepted)
}

/// The proceeds: the sum of the bids of the accepted bidders.
pub open spec fn accepted_total(bids: Seq<BidView>, accepted: Seq<Seq<char>>) -> nat
    decreases accepted.len(),
{
    if accepted.len() == 0 {
        0
    } else {
        accepted_total(bids, accepted.drop_last()) + amount_of(bids, accepted.last())
    }
}

/// The bids of the bidders that are not accepted, in the ledger's order.
pub open spec fn rejected(bids: Seq<BidView>, accepted: Seq<Seq<char>>) -> Seq<BidView>
    decreases bids.len(),
{
    if bids.len() == 0 {
        Seq::<BidView>::empty()
    } else if accepted.contains(bids.last().bidder) {
        rejected(bids.drop_last(), accepted)
    } else {
        rejected(bids.drop_last(), accepted).push(bids.last())
    }
}

/// One transfer for each bid, of its whole amount, back to its bidder.
pub open spec fn refunds(bids: Seq<BidView>, denom: Seq<char>) -> Seq<BankMsgView> {
    Seq::new(bids.len(), |i: int| send_view(bids[i].bidder, bids[i].amount, denom))
}

/// The transfers of a settlement: the refunds of the rejected bids in the
/// ledger's order, then the proceeds to `target`.
pub open spec fn transfers(
    bids: Seq<BidView>,
    accepted: Seq<Seq<char>>,
    denom: Seq<char>,
    target: Seq<char>,
) -> Seq<BankMsgView> {
    refunds(rejected(bids, accepted), denom).push(
        send_view(target, accepted_total(bids, accepted), denom),
    )
}

/// The sum of the amounts of some coins.
pub open spec fn coins_total(coins: Seq<CoinView>) -> nat
    decreases coins.len(),
{
    if coins.len() == 0 {
        0
    } else {
        coins_total(coins.drop_last()) + coins.last().amount
    }
}

/// What a transfer moves.
pub open spec fn sent(msg: BankMsgView) -> nat {
    match msg {
        BankMsgView::Send { amount, .. } => coins_total(amount),
    }
}

/// What some transfers move together.
pub open spec fn sent_total(msgs: Seq<BankMsgView>) -> nat
    decreases msgs.len(),
{
    if msgs.len() == 0 {
        0
    } else {
        sent_total(msgs.drop_last()) + sent(msgs.last())
    }
}

/// A transfer of one coin moves the amount of that coin.
pub proof fn lemma_sent_single(to_address: Seq<char>, amount: nat, denom: Seq<char>)
    ensures
        sent(send_view(to_address, amount, denom)) == amount,
{
    let coins = seq![CoinView { denom, amount }];
    assert(coins.drop_last() =~= Seq::<CoinView>::empty());
    assert(coins_total(coins.drop_last()) == 0);
}

/// Refunds move what the refunded bids held.
pub proof fn lemma_refunds_total(bids: Seq<BidView>, denom: Seq<char>)
    ensures
        sent_total(refunds(bids, denom)) == total(bids),
    decreases bids.len(),
{
    if bids.len() > 0 {
        let r = refunds(bids, denom);
        assert(r.drop_last() =~= refunds(bids.drop_last(), denom));
        lemma_refunds_total(bids.drop_last(), denom);
        lemma_sent_single(bids.last().bidder, bids.last().amount, denom);
    }
}

/// The part of a sum of accepted bids is no more than the whole.
pub proof fn lemma_accepted_total_grows(bids: Seq<BidView>, accepted: Seq<Seq<char>>, j: int)
    requires
        0 <= j <= accepted.len(),
    ensures
        accepted_total(bids, accepted.take(j)) <= accepted_total(bids, accepted),
    decreases accepted.len(),
{
    if j == accepted.len() {
        assert(accepted.take(j) =~= accepted);
    } else {
        assert(accepted.take(j) =~= accepted.drop_last().take(j));
        lemma_accepted_total_grows(bids, accepted.drop_last(), j);
    }
}

/// One more accepted bidder adds their bid to the sum.
pub proof fn lemma_accepted_total_step(bids: Seq<BidView>, accepted: Seq<Seq<char>>, j: int)
    requires
        0 <= j < accepted.len(),
    ensures
        accepted_total(bids, accepted.take(j + 1)) == accepted_total(bids, accepted.take(j))
            + amount_of(bids, accepted[j]),
{
    assert(accepted.take(j + 1).drop_last() =~= accepted.take(j));
}

/// Without its last entry a ledger is still in order, holds no entry of
/// the last bidder, and holds every other bid as before.
pub proof fn lemma_ascending_drop_last(bids: Seq<BidView>)
    requires
        ascending(bids),
        bids.len() > 0,
    ensures
        ascending(bids.drop_last()),
        !holds(bids.drop_last(), bids.last().bidder),
        forall|k: Seq<char>|
            k != bids.last().bidder ==> holds(bids.drop_last(), k) == holds(bids, k) && amount_of(
                bids.drop_last(),
                k,
            ) == amount_of(bids, k),
{
    let r = bids.drop_last();
    let last = bids.len() - 1;
    assert forall|a: int, b: int| 0 <= a < b < r.len() implies crate::text::key_less(
        r[a].bidder,
        r[b].bidder,
    ) by {
        assert(r[a] == bids[a] && r[b] == bids[b]);
    }
    if holds(r, bids.last().bidder) {
        let i = index_of(r, bids.last().bidder);
        assert(r[i] == bids[i]);
        lemma_index_of(bids, i);
        lemma_index_of(bids, last);
    }
    assert forall|k: Seq<char>| k != bids.last().bidder implies holds(r, k) == holds(bids, k)
        && amount_of(r, k) == amount_of(bids, k) by {
        if holds(r, k) {
            let i = index_of(r, k);
            assert(r[i] == bids[i]);
            lemma_index_of(r, i);
            lemma_index_of(bids, i);
        }
        if holds(bids, k) {
            let i = index_of(bids, k);
            assert(r[i] == bids[i]);
            lemma_index_of(r, i);
            lemma_index_of(bids, i);
        }
    }
}

/// The accepted bids of a ledger in which none of the accepted has a bid.
proof fn lemma_accepted_total_none(bids: Seq<BidView>, accepted: Seq<Seq<char>>)
    requires
        forall|j: int| 0 <= j < accepted.len() ==> !holds(bids, #[trigger] accepted[j]),
    ensures
        accepted_total(bids, accepted) == 0,
    decreases accepted.len(),
{
    if accepted.len() > 0 {
        assert(!holds(bids, accepted[accepted.len() - 1]));
        assert forall|j: int| 0 <= j < accepted.drop_last().len() implies !holds(
            bids,
            #[trigger] accepted.drop_last()[j],
        ) by {
            assert(accepted.drop_last()[j] == accepted[j]);
        }
        lemma_accepted_total_none(bids, accepted.drop_last());
    }
}

/// Adding the entry of a bidder that is named exactly once among the accepted
/// adds its amount to their sum; adding any other entry changes nothing.
proof fn lemma_accepted_total_push(bids: Seq<BidView>, accepted: Seq<Seq<char>>)
    requires
        ascending(bids),
        bids.len() > 0,
        accepted.no_duplicates(),
    ensures
        accepted_total(bids, accepted) == accepted_total(bids.drop_last(), accepted) + (
        if accepted.contains(bids.last().bidder) {
            bids.last().amount
        } else {
            0
        }),
    decreases accepted.len(),
{
    let r = bids.drop_last();
    let k = bids.last().bidder;
    lemma_ascending_drop_last(bids);
    lemma_index_of(bids, bids.len() - 1);
    if accepted.len() > 0 {
        let head = accepted.drop_last();
        let x = accepted.last();
        assert(head.no_duplicates()) by {
            assert forall|i: int, j: int|
                0 <= i < head.len() && 0 <= j < head.len() && i != j implies head[i]
                != head[j] by {
                assert(head[i] == accepted[i] && head[j] == accepted[j]);
            }
        }
        lemma_accepted_total_push(bids, head);
        if x == k {
            assert(!head.contains(k)) by {
                if head.contains(k) {
                    let i = choose|i: int| 0 <= i < head.len() && head[i] == k;
                    assert(accepted[i] == accepted[accepted.len() - 1]);
                }
            }
            assert(accepted.contains(k)) by {
                assert(accepted[accepted.len() - 1] == k);
            }
        } else {
            assert(accepted.contains(k) == head.contains(k)) by {
                if accepted.contains(k) {
                    let i = choose|i: int| 0 <= i < accepted.len() && accepted[i] == k;
                    assert(head[i] == k);
                }
                if head.contains(k) {
                    let i = choose|i: int| 0 <= i < head.len() && head[i] == k;
                    assert(accepted[i] == k);
                }
            }
        }
    } else {
        assert(!accepted.contains(k));
    }
}

/// Conservation: where each accepted bidder is named once, the bids that are
/// refunded and the bids that are accepted are together all the bids.
pub proof fn lemma_conservation(bids: Seq<BidView>, accepted: Seq<Seq<char>>)
    requires
        ascending(bids),
        accepted.no_duplicates(),
    ensures
        total(rejected(bids, accepted)) + accepted_total(bids, accepted) == total(bids),
    decreases bids.len(),
{
    if bids.len() == 0 {
        assert forall|j: int| 0 <= j < accepted.len() implies !holds(
            bids,
            #[trigger] accepted[j],
        ) by {}
        lemma_accepted_total_none(bids, accepted);
    } else {
        lemma_ascending_drop_last(bids);
        lemma_conservation(bids.drop_last(), accepted);
        lemma_accepted_total_push(bids, accepted);
        if !accepted.contains(bids.last().bidder) {
            assert(rejected(bids, accepted).drop_last() =~= rejected(bids.drop_last(), accepted));
        }
    }
}

/// A settlement moves exactly what the ledger held.
pub proof fn lemma_transfers_total(
    bids: Seq<BidView>,
    accepted: Seq<Seq<char>>,
    denom: Seq<char>,
    target: Seq<char>,
)
    requires
        ascending(bids),
        accepted.no_duplicates(),
    ensures
        sent_total(transfers(bids, accepted, denom, target)) == total(bids),
{
    let back = refunds(rejected(bids, accepted), denom);
    let all = transfers(bids, accepted, denom, target);
    assert(all.drop_last() =~= back);
    lemma_refunds_total(rejected(bids, accepted), denom);
    lemma_sent_single(target, accepted_total(bids, accepted), denom);
    lemma_conservation(bids, accepted);
}

} // verus!
