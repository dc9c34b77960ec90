//! Settling a sale once the outcome of the item's transfer is known: reading
//! the payout that the asset contract answered with, checking it against the
//! price, and working out who is paid what.

use crate::events::{Event, EventView};
use crate::pricing::{sale_fee, sale_fee_of};
use crate::types::{
    shares_view, transfers_view, ListingView, MarketData, Payout, Share, ShareView, Transfer,
    TransferView, PAYOUT_TOLERANCE,
};
use vstd::prelude::*;

verus! {

/// What the JSON text `payload` holds when it is read as an object from
/// account names to amounts written as decimal strings: `None` where it is
/// not such an object.
pub uninterp spec fn flat_payout_of(payload: Seq<u8>) -> Option<Map<Seq<char>, u128>>;

/// Whether `shares` lists `mapping`: every payee of the mapping once, with
/// its amount, and nothing else, in any order.
pub open spec fn lists_mapping(shares: Seq<ShareView>, mapping: Map<Seq<char>, u128>) -> bool {
    &&& forall|i: int, j: int|
        0 <= i < j < shares.len() ==> (#[trigger] shares[i]).account_id != (
        #[trigger] shares[j]).account_id
    &&& forall|i: int|
        0 <= i < shares.len() ==> mapping.contains_key((#[trigger] shares[i]).account_id)
            && mapping[shares[i].account_id] == shares[i].amount
    &&& forall|k: Seq<char>| #[trigger]
        mapping.contains_key(k) ==> exists|i: int|
            0 <= i < shares.len() && (#[trigger] shares[i]).account_id == k
}

/// Whether `shares` is a reading of `mapping`: absent where the mapping is,
/// else a list of it.
pub open spec fn reads_mapping(
    shares: Option<Vec<Share>>,
    mapping: Option<Map<Seq<char>, u128>>,
) -> bool {
    match (shares, mapping) {
        (None, None) => true,
        (Some(s), Some(m)) => lists_mapping(shares_view(s@), m),
        _ => false,
    }
}

/// Reads a payload as a flat payout with `serde_json::from_slice`, at the type
/// of a hash map from `AccountId` to `U128`. The contract claims that whether
/// this succeeds and which payees and amounts it finds depend on the bytes
/// alone, and that each payee found is handed out once; nothing is claimed of
/// the order in which they come.
#[verifier::external_body]
fn flat_payout_from_json(payload: &Vec<u8>) -> (shares: Option<Vec<Share>>)
    ensures
        reads_mapping(shares, flat_payout_of(payload@)),
{
    let parsed = near_sdk::serde_json::from_slice::<
        std::collections::HashMap<near_sdk::AccountId, near_sdk::json_types::U128>,
    >(payload);
    match parsed {
        Ok(mapping) => Some(
            mapping.into_iter().map(
                |(account, amount)| Share { account_id: account.to_string(), amount: amount.0 },
            ).collect(),
        ),
        Err(_) => None,
    }
}

/// The payout that an asset contract answered a transfer with, as far as it
/// could be read.
#[derive(Debug, PartialEq, Eq)]
pub enum PayoutResponse {
    /// A mapping from payees to amounts.
    Flat(Payout),
    /// The same mapping, one level down under a field of its own.
    Wrapped(Payout),
    /// Neither of the two.
    Unreadable,
}

/// What a [`PayoutResponse`] holds, as plain mathematical values.
pub ghost enum PayoutResponseView {
    Flat(Seq<ShareView>),
    Wrapped(Seq<ShareView>),
    Unreadable,
}

impl View for PayoutResponse {
    type V = PayoutResponseView;

    open spec fn view(&self) -> PayoutResponseView {
        match *self {
            PayoutResponse::Flat(p) => PayoutResponseView::Flat(p@),
            PayoutResponse::Wrapped(p) => PayoutResponseView::Wrapped(p@),
            PayoutResponse::Unreadable => PayoutResponseView::Unreadable,
        }
    }
}

/// How the request to transfer a sold item ended.
#[derive(Debug, PartialEq, Eq)]
pub enum TransferOutcome {
    /// The transfer did not take place.
    Failed,
    /// The item was transferred, and the asset contract answered.
    Succeeded(PayoutResponse),
}

/// What a [`TransferOutcome`] holds, as plain mathematical values.
pub ghost enum TransferOutcomeView {
    Failed,
    Succeeded(PayoutResponseView),
}

impl View for TransferOutcome {
    type V = TransferOutcomeView;

    open spec fn view(&self) -> TransferOutcomeView {
        match *self {
            TransferOutcome::Failed => TransferOutcomeView::Failed,
            TransferOutcome::Succeeded(r) => TransferOutcomeView::Succeeded(r@),
        }
    }
}

/// The response that two readings of one payload amount to: the flat reading
/// where there is one, else the nested reading, else nothing.
pub open spec fn response_of(
    flat: Option<Seq<ShareView>>,
    nested: Option<Seq<ShareView>>,
) -> PayoutResponseView {
    match flat {
        Some(shares) => PayoutResponseView::Flat(shares),
        None => match nested {
            Some(shares) => PayoutResponseView::Wrapped(shares),
            None => PayoutResponseView::Unreadable,
        },
    }
}

/// The view of an optional payout.
pub open spec fn opt_payout_view(payout: Option<Payout>) -> Option<Seq<ShareView>> {
    match payout {
        Some(p) => Some(p@),
        None => None,
    }
}

/// The sum of the amounts of a payout.
pub open spec fn payout_total(shares: Seq<ShareView>) -> nat
    decreases shares.len(),
{
    if shares.len() == 0 {
        0
    } else {
        payout_total(shares.drop_last()) + shares.last().amount as nat
    }
}

/// Whether a payout is taken as the split of a sale at `price`: its sum is no
/// more than the price and falls short of it by no more than the rounding
/// tolerance.
pub open spec fn payout_accepted(shares: Seq<ShareView>, price: u128) -> bool {
    payout_total(shares) <= price && price - payout_total(shares) <= PAYOUT_TOLERANCE
}

/// The payout that settles a sale at `price`, if the response holds one that
/// is accepted.
pub open spec fn chosen_payout(response: PayoutResponseView, price: u128) -> Option<
    Seq<ShareView>,
> {
    match response {
        PayoutResponseView::Flat(shares) | PayoutResponseView::Wrapped(shares) => if payout_accepted(
            shares,
            price,
        ) {
            Some(shares)
        } else {
            None
        },
        PayoutResponseView::Unreadable => None,
    }
}

/// The payments for the seller's share `amount` of a sale: the share less
/// the fee to the seller, and the fee, unless it is nothing, to the treasury.
pub open spec fn seller_transfers(
    seller: Seq<char>,
    treasury: Seq<char>,
    amount: u128,
    fee: u128,
) -> Seq<TransferView> {
    let net = TransferView { receiver_id: seller, amount: (amount - fee) as u128 };
    if fee > 0 {
        seq![net, TransferView { receiver_id: treasury, amount: fee }]
    } else {
        seq![net]
    }
}

/// The payments for one share of a payout: the seller's share bears the fee,
/// every other share is paid as it stands.
pub open spec fn share_transfers(
    share: ShareView,
    seller: Seq<char>,
    treasury: Seq<char>,
    fee: u128,
) -> Seq<TransferView> {
    if share.account_id == seller {
        seller_transfers(seller, treasury, share.amount, fee)
    } else {
        seq![TransferView { receiver_id: share.account_id, amount: share.amount }]
    }
}

/// The payments for a payout, share by share in its order.
pub open spec fn payout_transfers(
    shares: Seq<ShareView>,
    seller: Seq<char>,
    treasury: Seq<char>,
    fee: u128,
) -> Seq<TransferView>
    decreases shares.len(),
{
    if shares.len() == 0 {
        Seq::empty()
    } else {
        payout_transfers(shares.drop_last(), seller, treasury, fee) + share_transfers(
            shares.last(),
            seller,
            treasury,
            fee,
        )
    }
}

/// Whether every share of the seller in a payout covers the fee.
pub open spec fn fee_covered(shares: Seq<ShareView>, seller: Seq<char>, fee: u128) -> bool {
    forall|i: int|
        0 <= i < shares.len() && (#[trigger] shares[i]).account_id == seller ==> shares[i].amount
            >= fee
}

/// A settled sale: the price, the payments to send, and the notice to publish.
#[derive(Debug, PartialEq, Eq)]
pub struct Settlement {
    pub price: u128,
    pub transfers: Vec<Transfer>,
    pub event: Option<Event>,
}

/// What a [`Settlement`] holds, as plain mathematical values.
pub ghost struct SettlementView {
    pub price: u128,
    pub transfers: Seq<TransferView>,
    pub event: Option<EventView>,
}

impl View for Settlement {
    type V = SettlementView;

    open spec fn view(&self) -> SettlementView {
        SettlementView {
            price: self.price,
            transfers: transfers_view(self.transfers@),
            event: match self.event {
                Some(e) => Some(e@),
                None => None,
            },
        }
    }
}

/// The notice that a sale was paid out.
pub open spec fn resolved_event(buyer: Seq<char>, listing: ListingView, price: u128) -> EventView {
    EventView::ResolvePurchase {
        owner_id: listing.owner_id,
        nft_contract_id: listing.nft_contract_id,
        token_id: listing.token_id,
        price,
        buyer_id: buyer,
    }
}

/// The payout by which a sale is paid out, if the response holds one: it
/// must be accepted as the split of the price, and every share of the seller
/// in it must cover the fee. Any other answer is set aside.
pub open spec fn usable_payout(
    response: PayoutResponseView,
    price: u128,
    seller: Seq<char>,
    fee: u128,
) -> Option<Seq<ShareView>> {
    match chosen_payout(response, price) {
        Some(shares) => if fee_covered(shares, seller, fee) {
            Some(shares)
        } else {
            None
        },
        None => None,
    }
}

/// How a sale is settled. A failed transfer gives the buyer the price back
/// and nothing else. After a transfer that took place the sale is always
/// paid out and reported: by the payout that the answer holds, share by
/// share, the seller's share bearing the fee; or, where the answer holds no
/// payout that can be used, with the whole price as the seller's share.
pub open spec fn settlement_of(
    buyer: Seq<char>,
    listing: ListingView,
    price: u128,
    fee_bps: u16,
    treasury: Seq<char>,
    outcome: TransferOutcomeView,
) -> SettlementView {
    match outcome {
        TransferOutcomeView::Failed => SettlementView {
            price,
            transfers: seq![TransferView { receiver_id: buyer, amount: price }],
            event: None,
        },
        TransferOutcomeView::Succeeded(response) => {
            let fee = sale_fee_of(price, fee_bps);
            SettlementView {
                price,
                transfers: match usable_payout(response, price, listing.owner_id, fee) {
                    Some(shares) => payout_transfers(shares, listing.owner_id, treasury, fee),
                    None => seller_transfers(listing.owner_id, treasury, price, fee),
                },
                event: Some(resolved_event(buyer, listing, price)),
            }
        },
    }
}

/// When the transfer failed, the buyer gets the exact price back: one
/// payment, no fee, no notice.
pub proof fn lemma_failed_transfer_refunds_buyer(
    buyer: Seq<char>,
    listing: ListingView,
    price: u128,
    fee_bps: u16,
    treasury: Seq<char>,
)
    ensures
        settlement_of(buyer, listing, price, fee_bps, treasury, TransferOutcomeView::Failed) == (
        SettlementView {
            price,
            transfers: seq![TransferView { receiver_id: buyer, amount: price }],
            event: None,
        }),
{
}

/// Whatever the answer to a transfer that took place, the sale is settled at
/// its price and reported.
pub proof fn lemma_settlement_absorbs_every_answer(
    buyer: Seq<char>,
    listing: ListingView,
    price: u128,
    fee_bps: u16,
    treasury: Seq<char>,
    response: PayoutResponseView,
)
    ensures
        settlement_of(
            buyer,
            listing,
            price,
            fee_bps,
            treasury,
            TransferOutcomeView::Succeeded(response),
        ).price == price,
        settlement_of(
            buyer,
            listing,
            price,
            fee_bps,
            treasury,
            TransferOutcomeView::Succeeded(response),
        ).event == Some(resolved_event(buyer, listing, price)),
{
}

/// A payout that sums to the price, or falls short of it by no more than the
/// tolerance, and in which the seller's share covers the fee, settles the
/// sale: it is paid share by share as it stands, except that the seller's
/// share bears the fee. Which of the two shapes the answer had makes no
/// difference.
pub proof fn lemma_accepted_payout_is_paid(
    buyer: Seq<char>,
    listing: ListingView,
    price: u128,
    fee_bps: u16,
    treasury: Seq<char>,
    shares: Seq<ShareView>,
)
    requires
        payout_total(shares) <= price,
        price - payout_total(shares) <= PAYOUT_TOLERANCE,
        fee_covered(shares, listing.owner_id, sale_fee_of(price, fee_bps)),
    ensures
        settlement_of(
            buyer,
            listing,
            price,
            fee_bps,
            treasury,
            TransferOutcomeView::Succeeded(PayoutResponseView::Flat(shares)),
        ) == (SettlementView {
            price,
            transfers: payout_transfers(
                shares,
                listing.owner_id,
                treasury,
                sale_fee_of(price, fee_bps),
            ),
            event: Some(resolved_event(buyer, listing, price)),
        }),
        settlement_of(
            buyer,
            listing,
            price,
            fee_bps,
            treasury,
            TransferOutcomeView::Succeeded(PayoutResponseView::Wrapped(shares)),
        ) == settlement_of(
            buyer,
            listing,
            price,
            fee_bps,
            treasury,
            TransferOutcomeView::Succeeded(PayoutResponseView::Flat(shares)),
        ),
{
}

/// A payout that sums to more than the price, or falls short of it by more
/// than the tolerance, or in which a share of the seller does not cover the
/// fee, is set aside like an answer that cannot be read: the whole price is
/// the seller's share, which bears the fee.
pub proof fn lemma_rejected_payout_falls_back(
    buyer: Seq<char>,
    listing: ListingView,
    price: u128,
    fee_bps: u16,
    treasury: Seq<char>,
    shares: Seq<ShareView>,
)
    requires
        payout_total(shares) > price || price - payout_total(shares) > PAYOUT_TOLERANCE
            || !fee_covered(shares, listing.owner_id, sale_fee_of(price, fee_bps)),
    ensures
        settlement_of(
            buyer,
            listing,
            price,
            fee_bps,
            treasury,
            TransferOutcomeView::Succeeded(PayoutResponseView::Flat(shares)),
        ) == (SettlementView {
            price,
            transfers: seller_transfers(
                listing.owner_id,
                treasury,
                price,
                sale_fee_of(price, fee_bps),
            ),
            event: Some(resolved_event(buyer, listing, price)),
        }),
        settlement_of(
            buyer,
            listing,
            price,
            fee_bps,
            treasury,
            TransferOutcomeView::Succeeded(PayoutResponseView::Wrapped(shares)),
        ) == settlement_of(
            buyer,
            listing,
            price,
            fee_bps,
            treasury,
            TransferOutcomeView::Succeeded(PayoutResponseView::Unreadable),
        ),
        settlement_of(
            buyer,
            listing,
            price,
            fee_bps,
            treasury,
            TransferOutcomeView::Succeeded(PayoutResponseView::Flat(shares)),
        ) == settlement_of(
            buyer,
            listing,
            price,
            fee_bps,
            treasury,
            TransferOutcomeView::Succeeded(PayoutResponseView::Unreadable),
        ),
{
}

/// The payments for a payout in which the seller has no share are the shares
/// as they stand, one payment for each.
pub proof fn lemma_payout_without_seller_is_verbatim(
    shares: Seq<ShareView>,
    seller: Seq<char>,
    treasury: Seq<char>,
    fee: u128,
)
    requires
        forall|i: int| 0 <= i < shares.len() ==> (#[trigger] shares[i]).account_id != seller,
    ensures
        payout_transfers(shares, seller, treasury, fee) == shares.map_values(
            |s: ShareView| TransferView { receiver_id: s.account_id, amount: s.amount },
        ),
    decreases shares.len(),
{
    let paid = shares.map_values(
        |s: ShareView| TransferView { receiver_id: s.account_id, amount: s.amount },
    );
    if shares.len() > 0 {
        let front = shares.drop_last();
        assert forall|i: int| 0 <= i < front.len() implies (#[trigger] front[i]).account_id
            != seller by {
            assert(front[i] == shares[i]);
        }
        lemma_payout_without_seller_is_verbatim(front, seller, treasury, fee);
        assert(shares[shares.len() - 1].account_id != seller);
        assert(payout_transfers(shares, seller, treasury, fee) =~= paid);
    } else {
        assert(payout_transfers(shares, seller, treasury, fee) =~= paid);
    }
}

/// The sum of the amounts of a list of payments.
pub open spec fn transfers_total(transfers: Seq<TransferView>) -> nat
    decreases transfers.len(),
{
    if transfers.len() == 0 {
        0
    } else {
        transfers_total(transfers.drop_last()) + transfers.last().amount as nat
    }
}

/// The sum of two lists of payments joined is the sum of their sums.
pub proof fn lemma_transfers_total_of_joined(a: Seq<TransferView>, b: Seq<TransferView>)
    ensures
        transfers_total(a + b) == transfers_total(a) + transfers_total(b),
    decreases b.len(),
{
    if b.len() == 0 {
        assert(a + b =~= a);
    } else {
        lemma_transfers_total_of_joined(a, b.drop_last());
        assert((a + b).drop_last() =~= a + b.drop_last());
        assert((a + b).last() == b.last());
    }
}

/// Settling by a payout pays out what the payout lists, no more and no less:
/// the fee is taken out of the seller's share, not added to it.
pub proof fn lemma_payout_pays_its_total(
    shares: Seq<ShareView>,
    seller: Seq<char>,
    treasury: Seq<char>,
    fee: u128,
)
    requires
        fee_covered(shares, seller, fee),
    ensures
        transfers_total(payout_transfers(shares, seller, treasury, fee)) == payout_total(shares),
    decreases shares.len(),
{
    if shares.len() > 0 {
        let front = shares.drop_last();
        let last = shares.last();
        assert forall|i: int|
            0 <= i < front.len() && (#[trigger] front[i]).account_id == seller implies front[i].amount
            >= fee by {
            assert(front[i] == shares[i]);
        }
        lemma_payout_pays_its_total(front, seller, treasury, fee);
        let tail = share_transfers(last, seller, treasury, fee);
        lemma_transfers_total_of_joined(payout_transfers(front, seller, treasury, fee), tail);
        assert(transfers_total(tail) == last.amount) by {
            assert(shares[shares.len() - 1] == last);
            reveal_with_fuel(transfers_total, 3);
            if last.account_id == seller && fee > 0 {
                assert(tail.drop_last() =~= seq![
                    TransferView { receiver_id: seller, amount: (last.amount - fee) as u128 },
                ]);
            }
        }
    }
}

/// Settling without a payout pays out the price, no more and no less.
pub proof fn lemma_fallback_pays_the_price(
    seller: Seq<char>,
    treasury: Seq<char>,
    price: u128,
    fee: u128,
)
    requires
        fee <= price,
    ensures
        transfers_total(seller_transfers(seller, treasury, price, fee)) == price,
{
    let paid = seller_transfers(seller, treasury, price, fee);
    reveal_with_fuel(transfers_total, 3);
    if fee > 0 {
        assert(paid.drop_last() =~= seq![
            TransferView { receiver_id: seller, amount: (price - fee) as u128 },
        ]);
    }
}

/// The sum of a payout is at least the sum of each of its beginnings.
pub proof fn lemma_total_grows(shares: Seq<ShareView>, n: int)
    requires
        0 <= n <= shares.len(),
    ensures
        payout_total(shares.take(n)) <= payout_total(shares),
    decreases shares.len(),
{
    if n == shares.len() {
        assert(shares.take(n) =~= shares);
    } else {
        lemma_total_grows(shares.drop_last(), n);
        assert(shares.drop_last().take(n) =~= shares.take(n));
    }
}

/// Tells whether a payout is accepted as the split of a sale at `price`.
pub fn payout_within_tolerance(shares: &Vec<Share>, price: u128) -> (accepted: bool)
    ensures
        accepted == payout_accepted(shares_view(shares@), price),
{
    let ghost all = shares_view(shares@);
    let mut remainder: u128 = price;
    let mut i: usize = 0;
    assert(all.take(0) =~= Seq::<ShareView>::empty());
    while i < shares.len()
        invariant
            i <= shares.len(),
            all == shares_view(shares@),
            payout_total(all.take(i as int)) <= price,
            remainder == price - payout_total(all.take(i as int)),
        decreases shares.len() - i,
    {
        proof {
            assert(all.take(i + 1).drop_last() =~= all.take(i as int));
            assert(all.take(i + 1).last() == shares[i as int]@);
            lemma_total_grows(all, i + 1);
        }
        match remainder.checked_sub(shares[i].amount) {
            Some(rest) => {
                remainder = rest;
            },
            None => {
                return false;
            },
        }
        i = i + 1;
    }
    assert(all.take(shares.len() as int) =~= all);
    remainder <= PAYOUT_TOLERANCE
}

/// Makes the payments for the seller's share `amount` of a sale.
fn pay_seller(
    transfers: &mut Vec<Transfer>,
    seller: &String,
    treasury: &String,
    amount: u128,
    fee: u128,
)
    requires
        fee <= amount,
    ensures
        transfers_view(final(transfers)@) == transfers_view(old(transfers)@) + seller_transfers(
            seller@,
            treasury@,
            amount,
            fee,
        ),
{
    let ghost before = transfers_view(transfers@);
    transfers.push(Transfer { receiver_id: seller.clone(), amount: amount - fee });
    if fee > 0 {
        transfers.push(Transfer { receiver_id: treasury.clone(), amount: fee });
    }
    assert(transfers_view(transfers@) =~= before + seller_transfers(
        seller@,
        treasury@,
        amount,
        fee,
    ));
}

/// Works out the payments for a payout, or `None` where a share of the
/// seller does not cover the fee.
pub fn distribute(shares: &Vec<Share>, seller: &String, treasury: &String, fee: u128) -> (out:
    Option<Vec<Transfer>>)
    ensures
        match out {
            Some(transfers) => fee_covered(shares_view(shares@), seller@, fee) && transfers_view(
                transfers@,
            ) == payout_transfers(shares_view(shares@), seller@, treasury@, fee),
            None => !fee_covered(shares_view(shares@), seller@, fee),
        },
{
    let ghost all = shares_view(shares@);
    let mut transfers: Vec<Transfer> = Vec::new();
    let mut i: usize = 0;
    proof {
        assert(all.take(0) =~= Seq::<ShareView>::empty());
        assert(transfers_view(transfers@) =~= Seq::<TransferView>::empty());
    }
    while i < shares.len()
        invariant
            i <= shares.len(),
            all == shares_view(shares@),
            fee_covered(all.take(i as int), seller@, fee),
            transfers_view(transfers@) == payout_transfers(
                all.take(i as int),
                seller@,
                treasury@,
                fee,
            ),
        decreases shares.len() - i,
    {
        let ghost share = all[i as int];
        proof {
            assert(all.take(i + 1).drop_last() =~= all.take(i as int));
            assert(all.take(i + 1).last() == share);
            assert(share == shares[i as int]@);
        }
        if shares[i].account_id == *seller {
            if shares[i].amount < fee {
                return None;
            }
            pay_seller(&mut transfers, seller, treasury, shares[i].amount, fee);
        } else {
            let ghost before = transfers_view(transfers@);
            transfers.push(
                Transfer { receiver_id: shares[i].account_id.clone(), amount: shares[i].amount },
            );
            assert(transfers_view(transfers@) =~= before + share_transfers(
                share,
                seller@,
                treasury@,
                fee,
            ));
        }
        assert(fee_covered(all.take(i + 1), seller@, fee)) by {
            assert forall|j: int|
                0 <= j < all.take(i + 1).len() && (#[trigger] all.take(i + 1)[j]).account_id
                    == seller@ implies all.take(i + 1)[j].amount >= fee by {
                if j < i {
                    assert(all.take(i as int)[j] == all.take(i + 1)[j]);
                }
            }
        }
        i = i + 1;
    }
    assert(all.take(shares.len() as int) =~= all);
    Some(transfers)
}

/// Picks the payout that settles a sale at `price` out of a response.
pub fn choose_payout(response: PayoutResponse, price: u128) -> (chosen: Option<Payout>)
    ensures
        opt_payout_view(chosen) == chosen_payout(response@, price),
{
    match response {
        PayoutResponse::Flat(payout) => if payout_within_tolerance(&payout.payout, price) {
            Some(payout)
        } else {
            None
        },
        PayoutResponse::Wrapped(payout) => if payout_within_tolerance(&payout.payout, price) {
            Some(payout)
        } else {
            None
        },
        PayoutResponse::Unreadable => None,
    }
}

/// Settles a sale on the outcome of the item's transfer. Every outcome is
/// settled: none makes the settlement fail.
pub fn settle(
    buyer_id: &String,
    market_data: &MarketData,
    price: u128,
    fee_bps: u16,
    treasury_id: &String,
    outcome: TransferOutcome,
) -> (settlement: Settlement)
    ensures
        settlement@ == settlement_of(
            buyer_id@,
            market_data@,
            price,
            fee_bps,
            treasury_id@,
            outcome@,
        ),
{
    let response: PayoutResponse = match outcome {
        TransferOutcome::Failed => {
            let mut transfers: Vec<Transfer> = Vec::new();
            transfers.push(Transfer { receiver_id: buyer_id.clone(), amount: price });
            let settlement = Settlement { price, transfers, event: None };
            assert(settlement@.transfers =~= seq![
                TransferView { receiver_id: buyer_id@, amount: price },
            ]);
            return settlement;
        },
        TransferOutcome::Succeeded(response) => response,
    };
    let fee: u128 = sale_fee(price, fee_bps);
    let paid: Option<Vec<Transfer>> = match choose_payout(response, price) {
        Some(payout) => distribute(&payout.payout, &market_data.owner_id, treasury_id, fee),
        None => None,
    };
    let transfers: Vec<Transfer> = match paid {
        Some(transfers) => transfers,
        None => {
            let mut transfers: Vec<Transfer> = Vec::new();
            pay_seller(&mut transfers, &market_data.owner_id, treasury_id, price, fee);
            assert(transfers_view(transfers@) =~= seller_transfers(
                market_data.owner_id@,
                treasury_id@,
                price,
                fee,
            ));
            transfers
        },
    };
    let event = Event::ResolvePurchase {
        owner_id: market_data.owner_id.clone(),
        nft_contract_id: market_data.nft_contract_id.clone(),
        token_id: market_data.token_id.clone(),
        price,
        buyer_id: buyer_id.clone(),
    };
    Settlement { price, transfers, event: Some(event) }
}

/// Reads the answer to a transfer: `payload` is what the asset contract
/// returned, and `nested` what the payload holds one level down, where it has
/// that shape. The flat reading is tried first and wins where it succeeds.
pub fn read_payout(payload: &Vec<u8>, nested: Option<Payout>) -> (response: PayoutResponse)
    ensures
        exists|flat: Option<Vec<Share>>|
            reads_mapping(flat, flat_payout_of(payload@)) && response@ == response_of(
                match flat {
                    Some(shares) => Some(shares_view(shares@)),
                    None => None,
                },
                opt_payout_view(nested),
            ),
{
    let flat: Option<Vec<Share>> = flat_payout_from_json(payload);
    let ghost witness = flat;
    let response: PayoutResponse = match flat {
        Some(shares) => PayoutResponse::Flat(Payout { payout: shares }),
        None => match nested {
            Some(payout) => PayoutResponse::Wrapped(payout),
            None => PayoutResponse::Unreadable,
        },
    };
    assert(reads_mapping(witness, flat_payout_of(payload@)) && response@ == response_of(
        match witness {
            Some(shares) => Some(shares_view(shares@)),
            None => None,
        },
        opt_payout_view(nested),
    ));
    response
}

} // verus!
