//! A marketplace for items owned by outside asset contracts: fixed-price
//! listings, ascending and Dutch auctions, and the two-step settlement that
//! pays out once the outcome of the item's transfer is known.
//!
//! The library decides; it never moves funds or touches storage itself. Each
//! operation takes the facts of the call as plain values and returns the new
//! state together with the transfers and notices that the caller must carry out.

pub mod auction;
pub mod bids;
pub mod collections;
pub mod events;
pub mod launchpad;
pub mod listing;
pub mod marketplace;
pub mod payout;
pub mod pricing;
pub mod trading;
pub mod types;
pub mod vault;

pub use events::{Effects, Event, Purchase};
pub use marketplace::Marketplace;
pub use types::{
    Bid, CallContext, ContractAndTokenId, MarketArgs, MarketData, MarketDataJson, MarketError,
    MarketplaceConfig, Payout, Share, TokenId, Transfer,
};
