//! The ascending auction on one listing: placing a bid, cancelling a bid, and
//! accepting the top bid. Each operation looks at the listing as it stands
//! and either says why it is refused or hands back the listing as it is to be
//! stored, with the refunds that fall due.

use crate::bids::{
    after_eviction, bids_ascending, eviction_refunds, has_bid_from,
    holds_bid_from, ledger_ok, lemma_eviction_restores_capacity, lemma_push_keeps_order,
    lemma_without_bidder_keeps_order, meets_required_bid, outbids, refund_all, refund_of,
    refunds_of, refunds_of_all, remove_bidder, required_bid, without_bidder,
};
use crate::events::{Purchase, PurchaseView};
use crate::types::{
    bids_view, clone_bids, transfers_view, Bid, BidView, ListingView, MarketData, MarketError,
    Transfer, TransferView, BID_CAPACITY, FIVE_MINUTES,
};
use vstd::prelude::*;

verus! {

/// The bid history of a listing; a listing without one has no bids.
pub open spec fn ledger_of(listing: ListingView) -> Seq<BidView> {
    match listing.bids {
        Some(bids) => bids,
        None => Seq::empty(),
    }
}

/// Whether a bid at `now` falls into the last five minutes before `ended_at`.
pub open spec fn is_late(ended_at: u64, now: u64) -> bool {
    ended_at - now <= FIVE_MINUTES
}

/// Why a bid is refused, if it is. The window is looked at first, then the
/// bidder, the funds and the amount.
pub open spec fn bid_rejection(
    listing: ListingView,
    bidder: Seq<char>,
    amount: u128,
    attached: u128,
    now: u64,
) -> Option<MarketError> {
    if listing.started_at.is_some() && now < listing.started_at.unwrap() {
        Some(MarketError::NotStarted)
    } else if listing.ended_at.is_some() && now > listing.ended_at.unwrap() {
        Some(MarketError::Ended)
    } else if listing.ended_at.is_none() {
        Some(MarketError::NoEndTime)
    } else if is_late(listing.ended_at.unwrap(), now) && listing.ended_at.unwrap() + FIVE_MINUTES
        > u64::MAX {
        Some(MarketError::ArithmeticOverflow)
    } else if listing.owner_id == bidder {
        Some(MarketError::OwnerBid)
    } else if attached < amount {
        Some(MarketError::DepositBelowAmount)
    } else if amount < required_bid(ledger_of(listing), listing.price) {
        Some(MarketError::BidTooLow)
    } else {
        None
    }
}

/// The end of the window after a bid at `now`: a late bid moves it on by five
/// minutes.
pub open spec fn end_after_bid(ended_at: u64, now: u64) -> u64 {
    if is_late(ended_at, now) {
        (ended_at + FIVE_MINUTES) as u64
    } else {
        ended_at
    }
}

/// The bid history with the new bid in it, before the capacity is enforced:
/// the bidder's earlier bids are gone and the new bid stands last.
pub open spec fn ledger_with_bid(
    listing: ListingView,
    bidder: Seq<char>,
    amount: u128,
    now: u64,
) -> Seq<BidView> {
    without_bidder(ledger_of(listing), bidder).push(
        BidView { bidder_id: bidder, price: amount, time: now },
    )
}

/// The listing after an accepted bid.
pub open spec fn listing_after_bid(
    listing: ListingView,
    bidder: Seq<char>,
    amount: u128,
    now: u64,
) -> ListingView {
    ListingView {
        ended_at: Some(end_after_bid(listing.ended_at.unwrap(), now)),
        bids: Some(after_eviction(ledger_with_bid(listing, bidder, amount, now))),
        ..listing
    }
}

/// The refunds that an accepted bid owes: the bidder's earlier bids first,
/// then what enforcing the capacity takes out.
pub open spec fn bid_refunds(
    listing: ListingView,
    bidder: Seq<char>,
    amount: u128,
    now: u64,
) -> Seq<TransferView> {
    refunds_of(ledger_of(listing), bidder) + eviction_refunds(
        ledger_with_bid(listing, bidder, amount, now),
    )
}

/// The bidder whom an accepted bid pushes out of the history, if the history
/// reaches its capacity.
pub open spec fn evicted_by_bid(
    listing: ListingView,
    bidder: Seq<char>,
    amount: u128,
    now: u64,
) -> Option<Seq<char>> {
    let ledger = ledger_with_bid(listing, bidder, amount, now);
    if ledger.len() >= BID_CAPACITY {
        Some(ledger[0].bidder_id)
    } else {
        None
    }
}

/// An accepted bid keeps the history ascending: the new bid stands last and
/// tops the bid that led before it by at least a tenth, and every bid still
/// tops each earlier one by at least a tenth.
pub proof fn lemma_bid_keeps_ascending(
    listing: ListingView,
    bidder: Seq<char>,
    amount: u128,
    attached: u128,
    now: u64,
)
    requires
        bid_rejection(listing, bidder, amount, attached, now).is_none(),
        bids_ascending(ledger_of(listing)),
    ensures
        ledger_of(listing).len() > 0 ==> outbids(ledger_of(listing).last().price, amount),
        ledger_of(listing).len() == 0 ==> amount >= listing.price,
        ledger_with_bid(listing, bidder, amount, now).last() == (BidView {
            bidder_id: bidder,
            price: amount,
            time: now,
        }),
        bids_ascending(ledger_with_bid(listing, bidder, amount, now)),
        bids_ascending(ledger_of(listing_after_bid(listing, bidder, amount, now))),
{
    let bid = BidView { bidder_id: bidder, price: amount, time: now };
    let ledger = ledger_with_bid(listing, bidder, amount, now);
    lemma_push_keeps_order(ledger_of(listing), bid, listing.price);
    if ledger.len() >= BID_CAPACITY {
        lemma_without_bidder_keeps_order(ledger, ledger[0].bidder_id);
    }
}

/// A bid placed in the last five minutes of the window moves the end of the
/// window on by exactly five minutes; an earlier bid leaves it where it is.
pub proof fn lemma_late_bid_extends(
    listing: ListingView,
    bidder: Seq<char>,
    amount: u128,
    attached: u128,
    now: u64,
)
    requires
        bid_rejection(listing, bidder, amount, attached, now).is_none(),
    ensures
        listing.ended_at.is_some(),
        now <= listing.ended_at.unwrap(),
        listing.ended_at.unwrap() - now <= FIVE_MINUTES ==> listing_after_bid(
            listing,
            bidder,
            amount,
            now,
        ).ended_at == Some((listing.ended_at.unwrap() + FIVE_MINUTES) as u64)
            && listing.ended_at.unwrap() + FIVE_MINUTES <= u64::MAX,
        listing.ended_at.unwrap() - now > FIVE_MINUTES ==> listing_after_bid(
            listing,
            bidder,
            amount,
            now,
        ).ended_at == listing.ended_at,
{
}

/// An accepted bid keeps a bid history in order: one bid for
/// each bidder, ascending, never more than a hundred bids. Where the new bid
/// brings the history to its capacity, exactly the oldest bid leaves, and the
/// last refund gives it back in full.
pub proof fn lemma_bid_keeps_ledger_ok(
    listing: ListingView,
    bidder: Seq<char>,
    amount: u128,
    attached: u128,
    now: u64,
)
    requires
        bid_rejection(listing, bidder, amount, attached, now).is_none(),
        ledger_ok(ledger_of(listing)),
    ensures
        ledger_ok(ledger_of(listing_after_bid(listing, bidder, amount, now))),
        ledger_with_bid(listing, bidder, amount, now).len() >= BID_CAPACITY ==> {
            let ledger = ledger_with_bid(listing, bidder, amount, now);
            &&& ledger_of(listing_after_bid(listing, bidder, amount, now)) == ledger.subrange(
                1,
                ledger.len() as int,
            )
            &&& eviction_refunds(ledger) == seq![refund_of(ledger[0])]
            &&& bid_refunds(listing, bidder, amount, now).last() == refund_of(ledger[0])
        },
        ledger_with_bid(listing, bidder, amount, now).len() < BID_CAPACITY ==> ledger_of(
            listing_after_bid(listing, bidder, amount, now),
        ) == ledger_with_bid(listing, bidder, amount, now),
{
    let bid = BidView { bidder_id: bidder, price: amount, time: now };
    let ledger = ledger_with_bid(listing, bidder, amount, now);
    lemma_push_keeps_order(ledger_of(listing), bid, listing.price);
    lemma_without_bidder_keeps_order(ledger_of(listing), bidder);
    lemma_eviction_restores_capacity(ledger);
}

/// An accepted bid, ready to be stored.
#[derive(Debug, PartialEq, Eq)]
pub struct BidPlaced {
    /// The listing with the bid in its history.
    pub listing: MarketData,
    /// The refunds that fall due, in order.
    pub refunds: Vec<Transfer>,
    /// The new end of the window, where the bid moved it.
    pub extended_to: Option<u64>,
    /// The bidder whom the bid pushed out of the history, if any.
    pub evicted: Option<String>,
}

/// The view of an optional name.
pub open spec fn opt_text(name: Option<String>) -> Option<Seq<char>> {
    match name {
        Some(s) => Some(s@),
        None => None,
    }
}

/// Places a bid of `amount` by `bidder_id` at time `now`, with `attached`
/// funds, on a listing.
pub fn place_bid(
    listing: &MarketData,
    bidder_id: &String,
    amount: u128,
    attached: u128,
    now: u64,
) -> (result: Result<BidPlaced, MarketError>)
    ensures
        match result {
            Ok(placed) => {
                &&& bid_rejection(listing@, bidder_id@, amount, attached, now).is_none()
                &&& placed.listing@ == listing_after_bid(listing@, bidder_id@, amount, now)
                &&& transfers_view(placed.refunds@) == bid_refunds(
                    listing@,
                    bidder_id@,
                    amount,
                    now,
                )
                &&& placed.extended_to == (if is_late(listing.ended_at.unwrap(), now) {
                    Some(end_after_bid(listing.ended_at.unwrap(), now))
                } else {
                    None
                })
                &&& opt_text(placed.evicted) == evicted_by_bid(listing@, bidder_id@, amount, now)
            },
            Err(e) => bid_rejection(listing@, bidder_id@, amount, attached, now) == Some(e),
        },
{
    if let Some(start) = listing.started_at {
        if now < start {
            return Err(MarketError::NotStarted);
        }
    }
    let ended_at: u64 = match listing.ended_at {
        Some(end) => {
            if now > end {
                return Err(MarketError::Ended);
            }
            end
        },
        None => {
            return Err(MarketError::NoEndTime);
        },
    };
    let mut new_end: u64 = ended_at;
    let mut extended_to: Option<u64> = None;
    if ended_at - now <= FIVE_MINUTES {
        match ended_at.checked_add(FIVE_MINUTES) {
            Some(end) => {
                new_end = end;
                extended_to = Some(end);
            },
            None => {
                return Err(MarketError::ArithmeticOverflow);
            },
        }
    }
    if listing.owner_id == *bidder_id {
        return Err(MarketError::OwnerBid);
    }
    if attached < amount {
        return Err(MarketError::DepositBelowAmount);
    }
    let (mut ledger, mut refunds): (Vec<Bid>, Vec<Transfer>) = match &listing.bids {
        Some(bids) => {
            if !meets_required_bid(bids, listing.price, amount) {
                return Err(MarketError::BidTooLow);
            }
            remove_bidder(bids, bidder_id)
        },
        None => {
            if amount < listing.price {
                return Err(MarketError::BidTooLow);
            }
            let ledger: Vec<Bid> = Vec::new();
            let refunds: Vec<Transfer> = Vec::new();
            proof {
                reveal(Seq::filter);
                let none = Seq::<BidView>::empty();
                assert(bids_view(ledger@) =~= without_bidder(none, bidder_id@));
                assert(transfers_view(refunds@) =~= refunds_of(none, bidder_id@));
            }
            (ledger, refunds)
        },
    };
    let ghost kept = bids_view(ledger@);
    ledger.push(Bid { bidder_id: bidder_id.clone(), price: amount, time: now });
    assert(bids_view(ledger@) =~= ledger_with_bid(listing@, bidder_id@, amount, now)) by {
        assert(bids_view(ledger@) =~= kept.push(
            BidView { bidder_id: bidder_id@, price: amount, time: now },
        ));
    }
    let mut evicted: Option<String> = None;
    if ledger.len() >= BID_CAPACITY {
        let oldest: String = ledger[0].bidder_id.clone();
        assert(oldest@ == bids_view(ledger@)[0].bidder_id);
        let (rest, mut more): (Vec<Bid>, Vec<Transfer>) = remove_bidder(&ledger, &oldest);
        let ghost first = transfers_view(refunds@);
        let ghost second = transfers_view(more@);
        refunds.append(&mut more);
        assert(transfers_view(refunds@) =~= first + second);
        ledger = rest;
        evicted = Some(oldest);
    } else {
        assert(transfers_view(refunds@) =~= transfers_view(refunds@) + Seq::<
            TransferView,
        >::empty());
    }
    let placed = BidPlaced {
        listing: MarketData {
            owner_id: listing.owner_id.clone(),
            approval_id: listing.approval_id,
            nft_contract_id: listing.nft_contract_id.clone(),
            token_id: listing.token_id.clone(),
            price: listing.price,
            bids: Some(ledger),
            started_at: listing.started_at,
            ended_at: Some(new_end),
            end_price: listing.end_price,
            is_auction: listing.is_auction,
        },
        refunds,
        extended_to,
        evicted,
    };
    Ok(placed)
}

/// Why the cancellation of the bids of `account` is refused when
/// `predecessor` asks for it, if it is: a listing without bids has nothing to
/// cancel, and only the bidder or the marketplace's owner may cancel a bid
/// that is there.
pub open spec fn cancel_rejection(
    listing: ListingView,
    marketplace_owner: Seq<char>,
    predecessor: Seq<char>,
    account: Seq<char>,
) -> Option<MarketError> {
    if ledger_of(listing).len() == 0 {
        Some(MarketError::NoBids)
    } else if has_bid_from(ledger_of(listing), account) && predecessor != account && predecessor
        != marketplace_owner {
        Some(MarketError::NotBidderOrOwner)
    } else {
        None
    }
}

/// The listing after the bids of `account` have been cancelled.
pub open spec fn listing_after_cancel(listing: ListingView, account: Seq<char>) -> ListingView {
    ListingView { bids: Some(without_bidder(ledger_of(listing), account)), ..listing }
}

/// Cancelling the bids of an account that has none refunds nothing and leaves
/// the bid history as it was.
pub proof fn lemma_cancel_of_absent_bidder(listing: ListingView, account: Seq<char>)
    requires
        listing.bids.is_some(),
        !has_bid_from(ledger_of(listing), account),
    ensures
        listing_after_cancel(listing, account) == listing,
        refunds_of(ledger_of(listing), account) == Seq::<TransferView>::empty(),
{
    crate::bids::lemma_absent_bidder(ledger_of(listing), account);
}

/// Cancelling bids keeps a bid history in order.
pub proof fn lemma_cancel_keeps_ledger_ok(listing: ListingView, account: Seq<char>)
    requires
        ledger_ok(ledger_of(listing)),
    ensures
        ledger_ok(ledger_of(listing_after_cancel(listing, account))),
{
    lemma_without_bidder_keeps_order(ledger_of(listing), account);
}

/// Takes the bids of `account_id` out of a listing: returns the listing
/// without them and the refunds owed.
pub fn withdraw_bid(
    listing: &MarketData,
    marketplace_owner: &String,
    predecessor_id: &String,
    account_id: &String,
) -> (result: Result<(MarketData, Vec<Transfer>), MarketError>)
    ensures
        match result {
            Ok(out) => {
                &&& cancel_rejection(
                    listing@,
                    marketplace_owner@,
                    predecessor_id@,
                    account_id@,
                ).is_none()
                &&& out.0@ == listing_after_cancel(listing@, account_id@)
                &&& transfers_view(out.1@) == refunds_of(ledger_of(listing@), account_id@)
            },
            Err(e) => cancel_rejection(
                listing@,
                marketplace_owner@,
                predecessor_id@,
                account_id@,
            ) == Some(e),
        },
{
    let bids: &Vec<Bid> = match &listing.bids {
        Some(bids) => bids,
        None => {
            return Err(MarketError::NoBids);
        },
    };
    if bids.len() == 0 {
        return Err(MarketError::NoBids);
    }
    if holds_bid_from(bids, account_id) && !(*predecessor_id == *account_id) && !(*predecessor_id
        == *marketplace_owner) {
        return Err(MarketError::NotBidderOrOwner);
    }
    let (ledger, refunds): (Vec<Bid>, Vec<Transfer>) = remove_bidder(bids, account_id);
    let updated = MarketData {
        owner_id: listing.owner_id.clone(),
        approval_id: listing.approval_id,
        nft_contract_id: listing.nft_contract_id.clone(),
        token_id: listing.token_id.clone(),
        price: listing.price,
        bids: Some(ledger),
        started_at: listing.started_at,
        ended_at: listing.ended_at,
        end_price: listing.end_price,
        is_auction: listing.is_auction,
    };
    Ok((updated, refunds))
}

/// One step in the life of a listing's bid history: a bid, or the
/// cancellation of an account's bids.
pub ghost enum LedgerStep {
    Bid { bidder: Seq<char>, amount: u128, attached: u128, now: u64 },
    Cancel { marketplace_owner: Seq<char>, predecessor: Seq<char>, account: Seq<char> },
}

/// The listing after one step; a step that is refused leaves it as it is.
pub open spec fn after_step(listing: ListingView, step: LedgerStep) -> ListingView {
    match step {
        LedgerStep::Bid { bidder, amount, attached, now } => if bid_rejection(
            listing,
            bidder,
            amount,
            attached,
            now,
        ).is_none() {
            listing_after_bid(listing, bidder, amount, now)
        } else {
            listing
        },
        LedgerStep::Cancel { marketplace_owner, predecessor, account } => if cancel_rejection(
            listing,
            marketplace_owner,
            predecessor,
            account,
        ).is_none() {
            listing_after_cancel(listing, account)
        } else {
            listing
        },
    }
}

/// The listing after a run of steps, taken in order.
pub open spec fn after_steps(listing: ListingView, steps: Seq<LedgerStep>) -> ListingView
    decreases steps.len(),
{
    if steps.len() == 0 {
        listing
    } else {
        after_step(after_steps(listing, steps.drop_last()), steps.last())
    }
}

/// Whatever bids and cancellations a listing goes through, its bid history
/// stays in order: one bid for each bidder, every bid at least a tenth above
/// each earlier one, never more than a hundred bids. A well-formed listing
/// stays well formed.
pub proof fn lemma_bid_history_stays_in_order(listing: ListingView, steps: Seq<LedgerStep>)
    requires
        ledger_ok(ledger_of(listing)),
    ensures
        ledger_ok(ledger_of(after_steps(listing, steps))),
        crate::listing::listing_ok(listing) ==> crate::listing::listing_ok(
            after_steps(listing, steps),
        ),
    decreases steps.len(),
{
    if steps.len() > 0 {
        let before = after_steps(listing, steps.drop_last());
        lemma_bid_history_stays_in_order(listing, steps.drop_last());
        match steps.last() {
            LedgerStep::Bid { bidder, amount, attached, now } => {
                if bid_rejection(before, bidder, amount, attached, now).is_none() {
                    lemma_bid_keeps_ledger_ok(before, bidder, amount, attached, now);
                }
            },
            LedgerStep::Cancel { marketplace_owner, predecessor, account } => {
                lemma_cancel_keeps_ledger_ok(before, account);
            },
        }
    }
}

/// Why the top bid of a listing is not accepted when `predecessor` asks for
/// it at time `now`, if it is not.
pub open spec fn accept_rejection(
    listing: ListingView,
    marketplace_owner: Seq<char>,
    predecessor: Seq<char>,
    now: u64,
) -> Option<MarketError> {
    let ledger = ledger_of(listing);
    if ledger.len() == 0 {
        Some(MarketError::NoBids)
    } else if predecessor != listing.owner_id && predecessor != marketplace_owner && predecessor
        != ledger.last().bidder_id {
        Some(MarketError::NotSellerOwnerOrTopBidder)
    } else if predecessor != marketplace_owner && listing.ended_at.is_some() && now
        < listing.ended_at.unwrap() {
        Some(MarketError::AuctionNotEnded)
    } else if listing.end_price.is_some() {
        Some(MarketError::DutchAuction)
    } else {
        None
    }
}

/// The sale that accepting the top bid agrees: the top bidder buys item
/// `token` at the price of their bid, and the listing leaves with its bid
/// history emptied.
pub open spec fn accepted_purchase(listing: ListingView, token: Seq<char>) -> PurchaseView {
    PurchaseView {
        nft_contract_id: listing.nft_contract_id,
        token_id: token,
        buyer_id: ledger_of(listing).last().bidder_id,
        price: ledger_of(listing).last().price,
        market_data: ListingView { bids: Some(Seq::<BidView>::empty()), ..listing },
    }
}

/// The refunds that accepting the top bid owes: every other bid, oldest
/// first.
pub open spec fn accept_refunds(listing: ListingView) -> Seq<TransferView> {
    refunds_of_all(ledger_of(listing).drop_last())
}

/// Accepts the top bid of a listing: returns the sale agreed and the refunds
/// owed to the other bidders.
pub fn accept_top_bid(
    listing: &MarketData,
    token_id: &String,
    marketplace_owner: &String,
    predecessor_id: &String,
    now: u64,
) -> (result: Result<(Purchase, Vec<Transfer>), MarketError>)
    ensures
        match result {
            Ok(out) => {
                &&& accept_rejection(listing@, marketplace_owner@, predecessor_id@, now).is_none()
                &&& out.0@ == accepted_purchase(listing@, token_id@)
                &&& transfers_view(out.1@) == accept_refunds(listing@)
            },
            Err(e) => accept_rejection(listing@, marketplace_owner@, predecessor_id@, now) == Some(
                e,
            ),
        },
{
    let bids: &Vec<Bid> = match &listing.bids {
        Some(bids) => bids,
        None => {
            return Err(MarketError::NoBids);
        },
    };
    if bids.len() == 0 {
        return Err(MarketError::NoBids);
    }
    let mut others: Vec<Bid> = clone_bids(bids);
    assert(bids_view(others@).len() == bids_view(bids@).len());
    let top: Bid = match others.pop() {
        Some(bid) => bid,
        None => {
            return Err(MarketError::NoBids);
        },
    };
    proof {
        assert(top@ == bids_view(bids@).last()) by {
            assert(bids_view(others@.push(top)) == bids_view(bids@));
            assert(bids_view(others@.push(top)).last() == top@);
        }
        assert(bids_view(others@) =~= bids_view(bids@).drop_last()) by {
            assert(bids_view(others@.push(top)) == bids_view(bids@));
            assert(bids_view(others@.push(top)).drop_last() =~= bids_view(others@));
        }
    }
    if !(*predecessor_id == listing.owner_id) && !(*predecessor_id == *marketplace_owner) && !(
    *predecessor_id == top.bidder_id) {
        return Err(MarketError::NotSellerOwnerOrTopBidder);
    }
    if !(*predecessor_id == *marketplace_owner) {
        if let Some(end) = listing.ended_at {
            if now < end {
                return Err(MarketError::AuctionNotEnded);
            }
        }
    }
    if listing.end_price.is_some() {
        return Err(MarketError::DutchAuction);
    }
    let refunds: Vec<Transfer> = refund_all(&others);
    let emptied: Vec<Bid> = Vec::new();
    assert(bids_view(emptied@) =~= Seq::<BidView>::empty());
    let purchase = Purchase {
        nft_contract_id: listing.nft_contract_id.clone(),
        token_id: token_id.clone(),
        buyer_id: top.bidder_id,
        price: top.price,
        market_data: MarketData {
            owner_id: listing.owner_id.clone(),
            approval_id: listing.approval_id,
            nft_contract_id: listing.nft_contract_id.clone(),
            token_id: listing.token_id.clone(),
            price: listing.price,
            bids: Some(emptied),
            started_at: listing.started_at,
            ended_at: listing.ended_at,
            end_price: listing.end_price,
            is_auction: listing.is_auction,
        },
    };
    Ok((purchase, refunds))
}

} // verus!
