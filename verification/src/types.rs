//! The marketplace's records, each with the mathematical view that the
//! contracts speak of: account and item identifiers are sequences of
//! characters there, and a bid history is a sequence of bid views.

use vstd::prelude::*;

verus! {

/// The anti-sniping window and the length of one extension, in nanoseconds.
pub const FIVE_MINUTES: u64 = 300_000_000_000;

/// The balance a seller must have prepaid for each listing they hold.
pub const STORAGE_ADD_MARKET_DATA: u128 = 8_590_000_000_000_000_000_000;

/// The most bids that a listing's history holds once a bid has been placed:
/// a history that reaches this length loses its oldest bid.
pub const BID_CAPACITY: usize = 100;

/// The largest shortfall between a sale's price and the sum of a payout
/// mapping that is put down to rounding.
pub const PAYOUT_TOLERANCE: u128 = 100;

/// An item identifier within one asset contract.
pub type TokenId = String;

/// The key of a listing: contract, delimiter, item.
pub type ContractAndTokenId = String;

/// One bid of an ascending auction.
#[derive(Debug, PartialEq, Eq)]
pub struct Bid {
    pub bidder_id: String,
    pub price: u128,
    pub time: u64,
}

/// What a [`Bid`] holds, as plain mathematical values.
pub ghost struct BidView {
    pub bidder_id: Seq<char>,
    pub price: u128,
    pub time: u64,
}

impl View for Bid {
    type V = BidView;

    open spec fn view(&self) -> BidView {
        BidView { bidder_id: self.bidder_id@, price: self.price, time: self.time }
    }
}

impl Clone for Bid {
    fn clone(&self) -> (copy: Self)
        ensures
            copy@ == self@,
    {
        Bid { bidder_id: self.bidder_id.clone(), price: self.price, time: self.time }
    }
}

/// The views of a bid history, oldest bid first.
pub open spec fn bids_view(bids: Seq<Bid>) -> Seq<BidView> {
    bids.map_values(|b: Bid| b@)
}

/// The view of an optional bid history.
pub open spec fn opt_bids_view(bids: Option<Vec<Bid>>) -> Option<Seq<BidView>> {
    match bids {
        Some(v) => Some(bids_view(v@)),
        None => None,
    }
}

/// Copies a bid history.
pub fn clone_bids(bids: &Vec<Bid>) -> (copy: Vec<Bid>)
    ensures
        bids_view(copy@) == bids_view(bids@),
{
    let mut copy: Vec<Bid> = Vec::new();
    let mut i: usize = 0;
    while i < bids.len()
        invariant
            i <= bids.len(),
            copy.len() == i,
            forall|j: int| 0 <= j < i ==> (#[trigger] copy[j])@ == bids[j]@,
        decreases bids.len() - i,
    {
        copy.push(bids[i].clone());
        i = i + 1;
    }
    assert(bids_view(copy@) =~= bids_view(bids@));
    copy
}

/// A sale record for one item of one asset contract.
#[derive(Debug, PartialEq, Eq)]
pub struct MarketData {
    /// The seller: the item's owner when it was listed.
    pub owner_id: String,
    /// The authorisation that the asset contract issued for the marketplace.
    pub approval_id: u64,
    pub nft_contract_id: String,
    pub token_id: TokenId,
    /// The fixed price, or the starting price of an auction.
    pub price: u128,
    /// The bid history, oldest first; present for an ascending auction.
    pub bids: Option<Vec<Bid>>,
    pub started_at: Option<u64>,
    pub ended_at: Option<u64>,
    /// The price at which a Dutch auction ends.
    pub end_price: Option<u128>,
    pub is_auction: Option<bool>,
}

/// What a [`MarketData`] holds, as plain mathematical values.
pub ghost struct ListingView {
    pub owner_id: Seq<char>,
    pub approval_id: u64,
    pub nft_contract_id: Seq<char>,
    pub token_id: Seq<char>,
    pub price: u128,
    pub bids: Option<Seq<BidView>>,
    pub started_at: Option<u64>,
    pub ended_at: Option<u64>,
    pub end_price: Option<u128>,
    pub is_auction: Option<bool>,
}

impl View for MarketData {
    type V = ListingView;

    open spec fn view(&self) -> ListingView {
        ListingView {
            owner_id: self.owner_id@,
            approval_id: self.approval_id,
            nft_contract_id: self.nft_contract_id@,
            token_id: self.token_id@,
            price: self.price,
            bids: opt_bids_view(self.bids),
            started_at: self.started_at,
            ended_at: self.ended_at,
            end_price: self.end_price,
            is_auction: self.is_auction,
        }
    }
}

impl Clone for MarketData {
    fn clone(&self) -> (copy: Self)
        ensures
            copy@ == self@,
    {
        let bids: Option<Vec<Bid>> = match &self.bids {
            Some(v) => Some(clone_bids(v)),
            None => None,
        };
        MarketData {
            owner_id: self.owner_id.clone(),
            approval_id: self.approval_id,
            nft_contract_id: self.nft_contract_id.clone(),
            token_id: self.token_id.clone(),
            price: self.price,
            bids,
            started_at: self.started_at,
            ended_at: self.ended_at,
            end_price: self.end_price,
            is_auction: self.is_auction,
        }
    }
}

/// The terms of a sale, as an asset contract's approval notice carries them.
#[derive(Debug, Clone, Copy, PartialEq, Eq)]
pub struct MarketArgs {
    pub price: Option<u128>,
    pub started_at: Option<u64>,
    pub ended_at: Option<u64>,
    pub is_auction: Option<bool>,
    pub end_price: Option<u128>,
}

/// A listing as it is shown to a reader: the record, with the price that
/// holds at the moment of reading.
#[derive(Debug, PartialEq, Eq)]
pub struct MarketDataJson {
    pub owner_id: String,
    pub approval_id: u64,
    pub nft_contract_id: String,
    pub token_id: TokenId,
    pub price: u128,
    pub bids: Option<Vec<Bid>>,
    pub started_at: Option<u64>,
    pub ended_at: Option<u64>,
    pub end_price: Option<u128>,
    pub is_auction: Option<bool>,
}

impl View for MarketDataJson {
    type V = ListingView;

    open spec fn view(&self) -> ListingView {
        ListingView {
            owner_id: self.owner_id@,
            approval_id: self.approval_id,
            nft_contract_id: self.nft_contract_id@,
            token_id: self.token_id@,
            price: self.price,
            bids: opt_bids_view(self.bids),
            started_at: self.started_at,
            ended_at: self.ended_at,
            end_price: self.end_price,
            is_auction: self.is_auction,
        }
    }
}

/// The marketplace's administrative settings.
#[derive(Debug, PartialEq, Eq)]
pub struct MarketplaceConfig {
    pub owner_id: String,
    pub treasury_id: String,
    /// The treasury's share of each sale, in parts per ten thousand.
    pub transaction_fee: u16,
}

/// One payee's share of a sale.
#[derive(Debug, PartialEq, Eq)]
pub struct Share {
    pub account_id: String,
    pub amount: u128,
}

/// What a [`Share`] holds, as plain mathematical values.
pub ghost struct ShareView {
    pub account_id: Seq<char>,
    pub amount: u128,
}

impl View for Share {
    type V = ShareView;

    open spec fn view(&self) -> ShareView {
        ShareView { account_id: self.account_id@, amount: self.amount }
    }
}

/// The views of a list of shares, in order.
pub open spec fn shares_view(shares: Seq<Share>) -> Seq<ShareView> {
    shares.map_values(|s: Share| s@)
}

/// How an asset contract wants the proceeds of a sale split: each payee at
/// most once.
#[derive(Debug, PartialEq, Eq)]
pub struct Payout {
    pub payout: Vec<Share>,
}

impl View for Payout {
    type V = Seq<ShareView>;

    open spec fn view(&self) -> Seq<ShareView> {
        shares_view(self.payout@)
    }
}

/// A payment that the caller must send.
#[derive(Debug, PartialEq, Eq)]
pub struct Transfer {
    pub receiver_id: String,
    pub amount: u128,
}

/// What a [`Transfer`] holds, as plain mathematical values.
pub ghost struct TransferView {
    pub receiver_id: Seq<char>,
    pub amount: u128,
}

impl View for Transfer {
    type V = TransferView;

    open spec fn view(&self) -> TransferView {
        TransferView { receiver_id: self.receiver_id@, amount: self.amount }
    }
}

/// The views of a list of transfers, in order.
pub open spec fn transfers_view(transfers: Seq<Transfer>) -> Seq<TransferView> {
    transfers.map_values(|t: Transfer| t@)
}

/// The facts of one call that the marketplace's rules depend on.
#[derive(Debug, PartialEq, Eq)]
pub struct CallContext {
    /// The account that made this call.
    pub predecessor_id: String,
    /// The account that signed the transaction this call belongs to.
    pub signer_id: String,
    /// The marketplace's own account.
    pub current_id: String,
    /// The funds attached to the call.
    pub attached_deposit: u128,
    /// The time of the block in which the call runs, in nanoseconds.
    pub block_timestamp: u64,
}

/// Why a call was rejected. A rejected call changes nothing and moves no funds.
#[derive(Debug, Clone, Copy, PartialEq, Eq, Structural)]
pub enum MarketError {
    /// No listing exists under the given contract and item.
    ListingNotFound,
    /// The buyer is the listing's seller.
    OwnSale,
    /// The attached funds differ from the listing's price.
    WrongDeposit,
    /// The auction window has not opened yet.
    NotStarted,
    /// The auction window has closed.
    Ended,
    /// The listing has no start time, which the operation needs.
    NoStartTime,
    /// The listing has no end time, which the operation needs.
    NoEndTime,
    /// The bidder is the listing's seller.
    OwnerBid,
    /// The attached funds are less than the amount bid.
    DepositBelowAmount,
    /// The bid is below the least acceptable amount.
    BidTooLow,
    /// The call must carry exactly one indivisible unit of funds.
    RequiresOneYocto,
    /// The listing has no bids.
    NoBids,
    /// Only the bidder or the marketplace owner may cancel a bid.
    NotBidderOrOwner,
    /// Only the seller, the marketplace owner or the top bidder may accept.
    NotSellerOwnerOrTopBidder,
    /// The auction window has not closed yet.
    AuctionNotEnded,
    /// A Dutch auction takes no bids to accept.
    DutchAuction,
    /// Only the seller or the marketplace owner may delist.
    NotSellerOrOwner,
    /// Only the marketplace owner may change the settings.
    OwnerOnly,
    /// The approval notice came from the marketplace itself.
    NotCrossContract,
    /// The declared owner did not sign the transaction.
    OwnerNotSigner,
    /// The asset contract is not on the allow-list.
    ContractNotApproved,
    /// The approval notice's message does not hold the terms of a sale.
    InvalidMarketArgs,
    /// The terms of the sale name no price.
    PriceMissing,
    /// The window's start is not before its end.
    InvalidWindow,
    /// The window's end lies in the past.
    EndInPast,
    /// The end price is not below the starting price.
    EndPriceNotBelowPrice,
    /// The deposit is below the balance that one listing needs.
    DepositBelowMinimum,
    /// An amount does not fit the range of balances.
    ArithmeticOverflow,
}

} // verus!
