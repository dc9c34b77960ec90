//! What an operation hands back for the caller to carry out: notices for
//! observers, payments, and the request to transfer a sold item.

use crate::types::{transfers_view, ListingView, MarketData, Transfer, TransferView};
use vstd::prelude::*;

verus! {

/// A notice of something that happened in the marketplace.
#[derive(Debug, PartialEq, Eq)]
#[allow(inconsistent_fields)]
pub enum Event {
    /// A listing was created.
    AddMarketData {
        owner_id: String,
        approval_id: u64,
        nft_contract_id: String,
        token_id: String,
        price: u128,
        started_at: Option<u64>,
        ended_at: Option<u64>,
        end_price: Option<u128>,
        is_auction: Option<bool>,
    },
    /// A bid was placed.
    AddBid { bidder_id: String, nft_contract_id: String, token_id: String, amount: u128, time: u64 },
    /// A bidder was taken out of a listing's bid history.
    CancelBid { bidder_id: String, nft_contract_id: String, token_id: String },
    /// A listing was withdrawn.
    DeleteMarketData { owner_id: String, nft_contract_id: String, token_id: String },
    /// A late bid moved the end of an auction.
    ExtendAuction { nft_contract_id: String, token_id: String, ended_at: u64 },
    /// A sale was paid out.
    ResolvePurchase {
        owner_id: String,
        nft_contract_id: String,
        token_id: String,
        price: u128,
        buyer_id: String,
    },
    /// A listing was not admitted because its seller has prepaid too little:
    /// the balance paid, the number of listings it would have to cover, and
    /// the balance that each listing needs.
    InsufficientStorage { paid: u128, sales: u128, rate: u128 },
}

/// What an [`Event`] holds, as plain mathematical values.
#[allow(inconsistent_fields)]
pub ghost enum EventView {
    AddMarketData {
        owner_id: Seq<char>,
        approval_id: u64,
        nft_contract_id: Seq<char>,
        token_id: Seq<char>,
        price: u128,
        started_at: Option<u64>,
        ended_at: Option<u64>,
        end_price: Option<u128>,
        is_auction: Option<bool>,
    },
    AddBid {
        bidder_id: Seq<char>,
        nft_contract_id: Seq<char>,
        token_id: Seq<char>,
        amount: u128,
        time: u64,
    },
    CancelBid { bidder_id: Seq<char>, nft_contract_id: Seq<char>, token_id: Seq<char> },
    DeleteMarketData { owner_id: Seq<char>, nft_contract_id: Seq<char>, token_id: Seq<char> },
    ExtendAuction { nft_contract_id: Seq<char>, token_id: Seq<char>, ended_at: u64 },
    ResolvePurchase {
        owner_id: Seq<char>,
        nft_contract_id: Seq<char>,
        token_id: Seq<char>,
        price: u128,
        buyer_id: Seq<char>,
    },
    InsufficientStorage { paid: u128, sales: u128, rate: u128 },
}

impl View for Event {
    type V = EventView;

    open spec fn view(&self) -> EventView {
        match *self {
            Event::AddMarketData {
                owner_id,
                approval_id,
                nft_contract_id,
                token_id,
                price,
                started_at,
                ended_at,
                end_price,
                is_auction,
            } => EventView::AddMarketData {
                owner_id: owner_id@,
                approval_id,
                nft_contract_id: nft_contract_id@,
                token_id: token_id@,
                price,
                started_at,
                ended_at,
                end_price,
                is_auction,
            },
            Event::AddBid { bidder_id, nft_contract_id, token_id, amount, time } => EventView::AddBid {
                bidder_id: bidder_id@,
                nft_contract_id: nft_contract_id@,
                token_id: token_id@,
                amount,
                time,
            },
            Event::CancelBid { bidder_id, nft_contract_id, token_id } => EventView::CancelBid {
                bidder_id: bidder_id@,
                nft_contract_id: nft_contract_id@,
                token_id: token_id@,
            },
            Event::DeleteMarketData {
                owner_id,
                nft_contract_id,
                token_id,
            } => EventView::DeleteMarketData {
                owner_id: owner_id@,
                nft_contract_id: nft_contract_id@,
                token_id: token_id@,
            },
            Event::ExtendAuction {
                nft_contract_id,
                token_id,
                ended_at,
            } => EventView::ExtendAuction {
                nft_contract_id: nft_contract_id@,
                token_id: token_id@,
                ended_at,
            },
            Event::ResolvePurchase {
                owner_id,
                nft_contract_id,
                token_id,
                price,
                buyer_id,
            } => EventView::ResolvePurchase {
                owner_id: owner_id@,
                nft_contract_id: nft_contract_id@,
                token_id: token_id@,
                price,
                buyer_id: buyer_id@,
            },
            Event::InsufficientStorage { paid, sales, rate } => EventView::InsufficientStorage {
                paid,
                sales,
                rate,
            },
        }
    }
}

/// The views of a list of events, in order.
pub open spec fn events_view(events: Seq<Event>) -> Seq<EventView> {
    events.map_values(|e: Event| e@)
}

/// A sale that has been agreed: the listing is gone from the registry, and
/// the item's contract is to be asked to transfer the item to the buyer. The
/// answer to that request, with this record, settles the sale.
#[derive(Debug, PartialEq, Eq)]
pub struct Purchase {
    /// The contract that is asked to transfer the item.
    pub nft_contract_id: String,
    pub token_id: String,
    pub buyer_id: String,
    pub price: u128,
    /// The listing as it stood when it was removed.
    pub market_data: MarketData,
}

/// What a [`Purchase`] holds, as plain mathematical values.
pub ghost struct PurchaseView {
    pub nft_contract_id: Seq<char>,
    pub token_id: Seq<char>,
    pub buyer_id: Seq<char>,
    pub price: u128,
    pub market_data: ListingView,
}

impl View for Purchase {
    type V = PurchaseView;

    open spec fn view(&self) -> PurchaseView {
        PurchaseView {
            nft_contract_id: self.nft_contract_id@,
            token_id: self.token_id@,
            buyer_id: self.buyer_id@,
            price: self.price,
            market_data: self.market_data@,
        }
    }
}

/// The view of an optional purchase.
pub open spec fn opt_purchase_view(purchase: Option<Purchase>) -> Option<PurchaseView> {
    match purchase {
        Some(p) => Some(p@),
        None => None,
    }
}

/// Everything that an accepted call asks of its caller: the payments to send
/// and the notices to publish, each in order, and the sale to settle, if the
/// call agreed one.
#[derive(Debug, PartialEq, Eq)]
pub struct Effects {
    pub transfers: Vec<Transfer>,
    pub events: Vec<Event>,
    pub purchase: Option<Purchase>,
}

/// What an [`Effects`] holds, as plain mathematical values.
pub ghost struct EffectsView {
    pub transfers: Seq<TransferView>,
    pub events: Seq<EventView>,
    pub purchase: Option<PurchaseView>,
}

impl View for Effects {
    type V = EffectsView;

    open spec fn view(&self) -> EffectsView {
        EffectsView {
            transfers: transfers_view(self.transfers@),
            events: events_view(self.events@),
            purchase: opt_purchase_view(self.purchase),
        }
    }
}

} // verus!
