//! The bid ledger of an ascending auction: which bid is high enough, what
//! leaves the ledger when a bidder is taken out, and the order that every
//! ledger built by these rules keeps.

use crate::types::{
    bids_view, transfers_view, Bid, BidView, Transfer, TransferView, BID_CAPACITY,
};
use vstd::prelude::*;

verus! {

/// Whether `higher` tops `lower` by at least a tenth of `lower`, rounded down.
pub open spec fn outbids(lower: u128, higher: u128) -> bool {
    higher >= lower + lower / 10
}

/// The least amount that the next bid must reach: the starting price on an
/// empty ledger, else the latest bid and a tenth of it.
pub open spec fn required_bid(bids: Seq<BidView>, start_price: u128) -> int {
    if bids.len() == 0 {
        start_price as int
    } else {
        bids.last().price + bids.last().price / 10
    }
}

/// The test for a bid placed by `bidder`.
pub open spec fn is_by(bidder: Seq<char>) -> spec_fn(BidView) -> bool {
    |b: BidView| b.bidder_id == bidder
}

/// The test for a bid placed by anyone but `bidder`.
pub open spec fn not_by(bidder: Seq<char>) -> spec_fn(BidView) -> bool {
    |b: BidView| b.bidder_id != bidder
}

/// The ledger without the bids of `bidder`, the others in their order.
pub open spec fn without_bidder(bids: Seq<BidView>, bidder: Seq<char>) -> Seq<BidView> {
    bids.filter(not_by(bidder))
}

/// The payment that gives a bid back to its bidder in full.
pub open spec fn refund_of(bid: BidView) -> TransferView {
    TransferView { receiver_id: bid.bidder_id, amount: bid.price }
}

/// The refunds owed when `bidder` is taken out of the ledger: one for each of
/// their bids, oldest first.
pub open spec fn refunds_of(bids: Seq<BidView>, bidder: Seq<char>) -> Seq<TransferView> {
    bids.filter(is_by(bidder)).map_values(|b: BidView| refund_of(b))
}

/// The refunds of every bid of a ledger, oldest first.
pub open spec fn refunds_of_all(bids: Seq<BidView>) -> Seq<TransferView> {
    bids.map_values(|b: BidView| refund_of(b))
}

/// Whether `bidder` has a bid in the ledger.
pub open spec fn has_bid_from(bids: Seq<BidView>, bidder: Seq<char>) -> bool {
    exists|i: int| 0 <= i < bids.len() && (#[trigger] bids[i]).bidder_id == bidder
}

/// No bidder has two bids in the ledger.
pub open spec fn bidders_distinct(bids: Seq<BidView>) -> bool {
    forall|i: int, j: int|
        0 <= i < j < bids.len() ==> (#[trigger] bids[i]).bidder_id != (#[trigger] bids[j]).bidder_id
}

/// Every bid tops each earlier one by at least a tenth.
pub open spec fn bids_ascending(bids: Seq<BidView>) -> bool {
    forall|i: int, j: int|
        0 <= i < j < bids.len() ==> outbids((#[trigger] bids[i]).price, (#[trigger] bids[j]).price)
}

/// What holds of every ledger that these rules have built: one bid for each
/// bidder, ascending prices, and no more bids than the capacity.
pub open spec fn ledger_ok(bids: Seq<BidView>) -> bool {
    &&& bidders_distinct(bids)
    &&& bids_ascending(bids)
    &&& bids.len() <= BID_CAPACITY
}

/// The ledger after its capacity has been enforced: one that has reached the
/// capacity loses the bids of its oldest bidder.
pub open spec fn after_eviction(bids: Seq<BidView>) -> Seq<BidView> {
    if bids.len() >= BID_CAPACITY {
        without_bidder(bids, bids[0].bidder_id)
    } else {
        bids
    }
}

/// The refunds that enforcing the capacity owes.
pub open spec fn eviction_refunds(bids: Seq<BidView>) -> Seq<TransferView> {
    if bids.len() >= BID_CAPACITY {
        refunds_of(bids, bids[0].bidder_id)
    } else {
        Seq::empty()
    }
}

/// In an ascending ledger no bid is lower than an earlier one.
pub proof fn lemma_ascending_is_monotone(bids: Seq<BidView>)
    requires
        bids_ascending(bids),
    ensures
        forall|i: int, j: int|
            0 <= i <= j < bids.len() ==> (#[trigger] bids[i]).price <= (#[trigger] bids[j]).price,
{
    assert forall|i: int, j: int| 0 <= i <= j < bids.len() implies (#[trigger] bids[i]).price <= (
    #[trigger] bids[j]).price by {
        if i < j {
            assert(outbids(bids[i].price, bids[j].price));
        }
    }
}

/// Each bid that a filter keeps stood in the ledger, and the bids kept stand
/// in the order in which they stood there.
pub proof fn lemma_filter_positions(bids: Seq<BidView>, keep: spec_fn(BidView) -> bool)
    ensures
        bids.filter(keep).len() <= bids.len(),
        forall|a: int|
            0 <= a < bids.filter(keep).len() ==> exists|i: int|
                a <= i < bids.len() && bids[i] == #[trigger] bids.filter(keep)[a],
        forall|a: int, b: int|
            0 <= a < b < bids.filter(keep).len() ==> exists|i: int, j: int|
                0 <= i < j < bids.len() && bids[i] == #[trigger] bids.filter(keep)[a] && bids[j]
                    == #[trigger] bids.filter(keep)[b],
    decreases bids.len(),
{
    reveal(Seq::filter);
    if bids.len() > 0 {
        let front = bids.drop_last();
        let kept_front = front.filter(keep);
        let kept = bids.filter(keep);
        lemma_filter_positions(front, keep);
        assert forall|a: int| 0 <= a < kept.len() implies exists|i: int|
            a <= i < bids.len() && bids[i] == #[trigger] kept[a] by {
            if a < kept_front.len() {
                let i: int = choose|i: int| a <= i < front.len() && front[i] == kept_front[a];
                assert(bids[i] == kept[a]);
            } else {
                assert(bids[bids.len() - 1] == kept[a]);
            }
        }
        assert forall|a: int, b: int| 0 <= a < b < kept.len() implies exists|i: int, j: int|
            0 <= i < j < bids.len() && bids[i] == #[trigger] kept[a] && bids[j]
                == #[trigger] kept[b] by {
            if b < kept_front.len() {
                let (i, j): (int, int) = choose|i: int, j: int|
                    0 <= i < j < front.len() && front[i] == kept_front[a] && front[j]
                        == kept_front[b];
                assert(bids[i] == kept[a] && bids[j] == kept[b]);
            } else {
                let i: int = choose|i: int| a <= i < front.len() && front[i] == kept_front[a];
                assert(bids[i] == kept[a] && bids[bids.len() - 1] == kept[b]);
            }
        }
    }
}

/// Taking a bidder out of a ledger keeps its bidders distinct and its prices
/// ascending, and leaves none of that bidder's bids.
pub proof fn lemma_without_bidder_keeps_order(bids: Seq<BidView>, bidder: Seq<char>)
    ensures
        without_bidder(bids, bidder).len() <= bids.len(),
        !has_bid_from(without_bidder(bids, bidder), bidder),
        bidders_distinct(bids) ==> bidders_distinct(without_bidder(bids, bidder)),
        bids_ascending(bids) ==> bids_ascending(without_bidder(bids, bidder)),
{
    let kept = without_bidder(bids, bidder);
    lemma_filter_positions(bids, not_by(bidder));
    assert forall|a: int| 0 <= a < kept.len() implies (#[trigger] kept[a]).bidder_id
        != bidder by {
        bids.lemma_filter_pred(not_by(bidder), a);
    }
    if bidders_distinct(bids) {
        assert forall|a: int, b: int| 0 <= a < b < kept.len() implies (#[trigger] kept[a]).bidder_id
            != (#[trigger] kept[b]).bidder_id by {
            let (i, j): (int, int) = choose|i: int, j: int|
                0 <= i < j < bids.len() && bids[i] == kept[a] && bids[j] == kept[b];
            assert(bids[i].bidder_id != bids[j].bidder_id);
        }
    }
    if bids_ascending(bids) {
        assert forall|a: int, b: int| 0 <= a < b < kept.len() implies outbids(
            (#[trigger] kept[a]).price,
            (#[trigger] kept[b]).price,
        ) by {
            let (i, j): (int, int) = choose|i: int, j: int|
                0 <= i < j < bids.len() && bids[i] == kept[a] && bids[j] == kept[b];
            assert(outbids(bids[i].price, bids[j].price));
        }
    }
}

/// A bidder without a bid in the ledger is owed nothing, and taking them out
/// changes nothing.
pub proof fn lemma_absent_bidder(bids: Seq<BidView>, bidder: Seq<char>)
    requires
        !has_bid_from(bids, bidder),
    ensures
        without_bidder(bids, bidder) == bids,
        bids.filter(is_by(bidder)) == Seq::<BidView>::empty(),
        refunds_of(bids, bidder) == Seq::<TransferView>::empty(),
    decreases bids.len(),
{
    reveal(Seq::filter);
    if bids.len() > 0 {
        let front = bids.drop_last();
        assert forall|i: int| 0 <= i < front.len() implies (#[trigger] front[i]).bidder_id
            != bidder by {
            assert(bids[i].bidder_id != bidder);
        }
        lemma_absent_bidder(front, bidder);
        assert(bids[bids.len() - 1].bidder_id != bidder);
        assert(without_bidder(bids, bidder) =~= bids);
        assert(bids.filter(is_by(bidder)) =~= Seq::<BidView>::empty());
    } else {
        assert(bids.filter(is_by(bidder)) =~= Seq::<BidView>::empty());
    }
    assert(refunds_of(bids, bidder) =~= Seq::<TransferView>::empty());
}

/// In a ledger of distinct bidders, taking out the oldest bidder removes the
/// oldest bid and no other, and refunds exactly that bid.
pub proof fn lemma_evicts_oldest_only(bids: Seq<BidView>)
    requires
        bidders_distinct(bids),
        bids.len() > 0,
    ensures
        without_bidder(bids, bids[0].bidder_id) == bids.subrange(1, bids.len() as int),
        refunds_of(bids, bids[0].bidder_id) == seq![refund_of(bids[0])],
    decreases bids.len(),
{
    reveal(Seq::filter);
    let oldest = bids[0].bidder_id;
    let front = bids.drop_last();
    if bids.len() == 1 {
        assert(front.filter(not_by(oldest)) =~= Seq::<BidView>::empty());
        assert(front.filter(is_by(oldest)) =~= Seq::<BidView>::empty());
        assert(without_bidder(bids, oldest) =~= bids.subrange(1, 1));
        assert(bids.filter(is_by(oldest)) =~= seq![bids[0]]);
    } else {
        assert(front[0] == bids[0]);
        assert(bidders_distinct(front)) by {
            assert forall|i: int, j: int| 0 <= i < j < front.len() implies (#[trigger] front[i]).bidder_id
                != (#[trigger] front[j]).bidder_id by {
                assert(bids[i].bidder_id != bids[j].bidder_id);
            }
        }
        lemma_evicts_oldest_only(front);
        assert(bids[0].bidder_id != bids[bids.len() - 1].bidder_id);
        assert(without_bidder(bids, oldest) =~= bids.subrange(1, bids.len() as int));
        assert(bids.filter(is_by(oldest)) == front.filter(is_by(oldest)));
        assert(front.filter(is_by(oldest)).map_values(|b: BidView| refund_of(b)) == seq![
            refund_of(bids[0]),
        ]);
    }
    assert(refunds_of(bids, oldest) =~= seq![refund_of(bids[0])]);
}

/// A bid that meets the increment rule against the latest bid of a ledger
/// keeps the ledger ascending when it is appended to any part of that ledger
/// kept in order, and distinct when its bidder has no other bid there.
pub proof fn lemma_push_keeps_order(bids: Seq<BidView>, bid: BidView, start_price: u128)
    requires
        bid.price >= required_bid(bids, start_price),
    ensures
        bids_ascending(bids) ==> bids_ascending(without_bidder(bids, bid.bidder_id).push(bid)),
        bidders_distinct(bids) ==> bidders_distinct(
            without_bidder(bids, bid.bidder_id).push(bid),
        ),
{
    let kept = without_bidder(bids, bid.bidder_id);
    let pushed = kept.push(bid);
    lemma_without_bidder_keeps_order(bids, bid.bidder_id);
    lemma_filter_positions(bids, not_by(bid.bidder_id));
    if bids_ascending(bids) {
        assert forall|a: int, b: int| 0 <= a < b < pushed.len() implies outbids(
            (#[trigger] pushed[a]).price,
            (#[trigger] pushed[b]).price,
        ) by {
            if b < kept.len() {
                assert(outbids(kept[a].price, kept[b].price));
            } else {
                let i: int = choose|i: int| a <= i < bids.len() && bids[i] == kept[a];
                let top: int = bids.len() - 1;
                if i < top {
                    assert(outbids(bids[i].price, bids[top].price));
                }
                assert(bids[i].price <= bids[top].price);
                assert(bids[i].price / 10 <= bids[top].price / 10);
            }
        }
    }
    if bidders_distinct(bids) {
        assert forall|a: int, b: int| 0 <= a < b < pushed.len() implies (#[trigger] pushed[a]).bidder_id
            != (#[trigger] pushed[b]).bidder_id by {
            if b < kept.len() {
                assert(kept[a].bidder_id != kept[b].bidder_id);
            } else {
                assert(kept[a].bidder_id != bid.bidder_id);
            }
        }
    }
}

/// Enforcing the capacity on a ledger of distinct bidders with at most one
/// bid above the capacity leaves a ledger within the capacity; where the
/// capacity was reached, exactly the oldest bid leaves and is refunded in
/// full.
pub proof fn lemma_eviction_restores_capacity(bids: Seq<BidView>)
    requires
        bidders_distinct(bids),
        bids.len() <= BID_CAPACITY + 1,
    ensures
        after_eviction(bids).len() <= BID_CAPACITY,
        bidders_distinct(after_eviction(bids)),
        bids_ascending(bids) ==> bids_ascending(after_eviction(bids)),
        bids.len() >= BID_CAPACITY ==> after_eviction(bids) == bids.subrange(1, bids.len() as int)
            && eviction_refunds(bids) == seq![refund_of(bids[0])],
        bids.len() < BID_CAPACITY ==> after_eviction(bids) == bids && eviction_refunds(bids)
            == Seq::<TransferView>::empty(),
{
    if bids.len() >= BID_CAPACITY {
        lemma_evicts_oldest_only(bids);
        lemma_without_bidder_keeps_order(bids, bids[0].bidder_id);
    }
}

/// Tells whether `amount` is high enough for the next bid.
pub fn meets_required_bid(bids: &Vec<Bid>, start_price: u128, amount: u128) -> (met: bool)
    ensures
        met == (amount >= required_bid(bids_view(bids@), start_price)),
{
    if bids.len() == 0 {
        amount >= start_price
    } else {
        let latest: u128 = bids[bids.len() - 1].price;
        assert(bids_view(bids@).last().price == latest);
        match latest.checked_add(latest / 10) {
            Some(required) => amount >= required,
            None => false,
        }
    }
}

/// Tells whether `bidder` has a bid in the ledger.
pub fn holds_bid_from(bids: &Vec<Bid>, bidder: &String) -> (found: bool)
    ensures
        found == has_bid_from(bids_view(bids@), bidder@),
{
    let mut i: usize = 0;
    while i < bids.len()
        invariant
            i <= bids.len(),
            forall|j: int| 0 <= j < i ==> (#[trigger] bids_view(bids@)[j]).bidder_id != bidder@,
        decreases bids.len() - i,
    {
        if bids[i].bidder_id == *bidder {
            assert(bids_view(bids@)[i as int].bidder_id == bidder@);
            return true;
        }
        i = i + 1;
    }
    false
}

/// Takes `bidder` out of the ledger: returns the ledger without their bids
/// and the refunds owed to them.
pub fn remove_bidder(bids: &Vec<Bid>, bidder: &String) -> (out: (Vec<Bid>, Vec<Transfer>))
    ensures
        bids_view(out.0@) == without_bidder(bids_view(bids@), bidder@),
        transfers_view(out.1@) == refunds_of(bids_view(bids@), bidder@),
{
    let mut kept: Vec<Bid> = Vec::new();
    let mut refunds: Vec<Transfer> = Vec::new();
    let ghost all = bids_view(bids@);
    let mut i: usize = 0;
    proof {
        reveal(Seq::filter);
        assert(all.take(0) =~= Seq::<BidView>::empty());
        assert(bids_view(kept@) =~= without_bidder(all.take(0), bidder@));
        assert(transfers_view(refunds@) =~= refunds_of(all.take(0), bidder@));
    }
    while i < bids.len()
        invariant
            i <= bids.len(),
            all == bids_view(bids@),
            bids_view(kept@) == without_bidder(all.take(i as int), bidder@),
            transfers_view(refunds@) == refunds_of(all.take(i as int), bidder@),
        decreases bids.len() - i,
    {
        let ghost seen = all.take(i as int);
        let ghost bid = all[i as int];
        proof {
            assert(all.take(i + 1) =~= seen.push(bid));
            seen.lemma_filter_push(bid, not_by(bidder@));
            seen.lemma_filter_push(bid, is_by(bidder@));
            assert(bid == bids[i as int]@);
        }
        if bids[i].bidder_id == *bidder {
            let ghost before = refunds@;
            refunds.push(Transfer { receiver_id: bids[i].bidder_id.clone(), amount: bids[i].price });
            assert(transfers_view(refunds@) =~= transfers_view(before).push(refund_of(bid)));
            assert(refunds_of(seen.push(bid), bidder@) =~= refunds_of(seen, bidder@).push(
                refund_of(bid),
            ));
        } else {
            let ghost before = kept@;
            kept.push(bids[i].clone());
            assert(bids_view(kept@) =~= bids_view(before).push(bid));
        }
        i = i + 1;
    }
    assert(all.take(bids.len() as int) =~= all);
    (kept, refunds)
}

/// The refunds of every bid of a ledger, oldest first.
pub fn refund_all(bids: &Vec<Bid>) -> (refunds: Vec<Transfer>)
    ensures
        transfers_view(refunds@) == refunds_of_all(bids_view(bids@)),
{
    let mut refunds: Vec<Transfer> = Vec::new();
    let mut i: usize = 0;
    while i < bids.len()
        invariant
            i <= bids.len(),
            refunds.len() == i,
            forall|j: int| 0 <= j < i ==> (#[trigger] refunds[j])@ == refund_of(bids[j]@),
        decreases bids.len() - i,
    {
        refunds.push(Transfer { receiver_id: bids[i].bidder_id.clone(), amount: bids[i].price });
        i = i + 1;
    }
    assert(transfers_view(refunds@) =~= refunds_of_all(bids_view(bids@)));
    refunds
}

} // verus!
