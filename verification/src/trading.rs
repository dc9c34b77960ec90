//! The marketplace's operations on listings: admitting a listing, bidding,
//! buying, delisting, and settling a sale; and the accounts of prepaid
//! storage that admission depends on.

use crate::auction::{
    accept_refunds, accept_rejection, accept_top_bid, accepted_purchase, bid_refunds,
    bid_rejection, cancel_rejection, end_after_bid, evicted_by_bid, is_late, ledger_of,
    listing_after_bid, listing_after_cancel, place_bid, withdraw_bid, BidPlaced,
};
use crate::bids::refunds_of;
use crate::collections::StringSet;
use crate::events::{
    events_view, Effects, EffectsView, Event, EventView, Purchase, PurchaseView,
};
use crate::listing::{create_listing, created_listing, creation_rejection, key_of, listing_key};
use crate::marketplace::{
    balance_of, index_view, index_with, index_without, lemma_update_keeps_registry_ok,
    lemma_with_keeps_registry_ok, lemma_without_keeps_registry_ok, listings_view, no_effects,
    registry_ok, registry_updated, registry_with, registry_without, supply_of, Marketplace,
    MarketplaceView,
};
use crate::payout::{
    flat_payout_of, opt_payout_view, read_payout, reads_mapping, response_of, settle,
    settlement_of, Settlement, TransferOutcome, TransferOutcomeView,
};
use crate::types::{
    shares_view, CallContext, ListingView, MarketArgs, MarketData, MarketError, Payout, Share,
    Transfer, TransferView, STORAGE_ADD_MARKET_DATA,
};
use vstd::prelude::*;

verus! {

/// Why a purchase at the fixed price is refused, if it is.
pub open spec fn buy_rejection(
    state: MarketplaceView,
    key: Seq<char>,
    buyer: Seq<char>,
    attached: u128,
) -> Option<MarketError> {
    if !state.market.contains_key(key) {
        Some(MarketError::ListingNotFound)
    } else if state.market[key].owner_id == buyer {
        Some(MarketError::OwnSale)
    } else if attached != state.market[key].price {
        Some(MarketError::WrongDeposit)
    } else {
        None
    }
}

/// Why a bid on the listing under `key` is refused, if it is.
pub open spec fn add_bid_rejection(
    state: MarketplaceView,
    key: Seq<char>,
    bidder: Seq<char>,
    amount: u128,
    attached: u128,
    now: u64,
) -> Option<MarketError> {
    if !state.market.contains_key(key) {
        Some(MarketError::ListingNotFound)
    } else {
        bid_rejection(state.market[key], bidder, amount, attached, now)
    }
}

/// The notices of an accepted bid: the move of the window's end, where the
/// bid was late; the cancellation of the bidder whom it pushed out, if any;
/// and the bid itself.
pub open spec fn bid_events(
    listing: ListingView,
    contract: Seq<char>,
    token: Seq<char>,
    bidder: Seq<char>,
    amount: u128,
    now: u64,
) -> Seq<EventView> {
    let extension = if is_late(listing.ended_at.unwrap(), now) {
        seq![
            EventView::ExtendAuction {
                nft_contract_id: contract,
                token_id: token,
                ended_at: end_after_bid(listing.ended_at.unwrap(), now),
            },
        ]
    } else {
        Seq::empty()
    };
    let eviction = match evicted_by_bid(listing, bidder, amount, now) {
        Some(evicted) => seq![
            EventView::CancelBid { bidder_id: evicted, nft_contract_id: contract, token_id: token },
        ],
        None => Seq::empty(),
    };
    extension + eviction + seq![
        EventView::AddBid {
            bidder_id: bidder,
            nft_contract_id: contract,
            token_id: token,
            amount,
            time: now,
        },
    ]
}

/// Why the cancellation of a bid is refused, if it is.
pub open spec fn cancel_bid_rejection(
    state: MarketplaceView,
    key: Seq<char>,
    predecessor: Seq<char>,
    attached: u128,
    account: Seq<char>,
) -> Option<MarketError> {
    if attached != 1 {
        Some(MarketError::RequiresOneYocto)
    } else if !state.market.contains_key(key) {
        Some(MarketError::ListingNotFound)
    } else {
        cancel_rejection(state.market[key], state.owner_id, predecessor, account)
    }
}

/// Why the acceptance of the top bid is refused, if it is.
pub open spec fn accept_bid_rejection(
    state: MarketplaceView,
    key: Seq<char>,
    predecessor: Seq<char>,
    attached: u128,
    now: u64,
) -> Option<MarketError> {
    if attached != 1 {
        Some(MarketError::RequiresOneYocto)
    } else if !state.market.contains_key(key) {
        Some(MarketError::ListingNotFound)
    } else {
        accept_rejection(state.market[key], state.owner_id, predecessor, now)
    }
}

/// Why the withdrawal of a listing is refused, if it is. The seller may
/// delist at any time; the marketplace's owner may delist anything, but an
/// auction only after its end.
pub open spec fn delist_rejection(
    state: MarketplaceView,
    key: Seq<char>,
    predecessor: Seq<char>,
    attached: u128,
    now: u64,
) -> Option<MarketError> {
    if attached != 1 {
        Some(MarketError::RequiresOneYocto)
    } else if !state.market.contains_key(key) {
        Some(MarketError::ListingNotFound)
    } else {
        let listing = state.market[key];
        if predecessor != listing.owner_id && predecessor != state.owner_id {
            Some(MarketError::NotSellerOrOwner)
        } else if listing.is_auction.is_some() && predecessor == state.owner_id {
            if listing.ended_at.is_none() {
                Some(MarketError::NoEndTime)
            } else if now < listing.ended_at.unwrap() {
                Some(MarketError::AuctionNotEnded)
            } else {
                None
            }
        } else {
            None
        }
    }
}

/// Whether the balance that `seller` has prepaid covers one listing more
/// than the index holds for them.
pub open spec fn storage_covers(state: MarketplaceView, seller: Seq<char>) -> bool {
    balance_of(state.storage_deposits, seller) >= (supply_of(state.by_owner_id, seller) + 1)
        * STORAGE_ADD_MARKET_DATA
}

/// Why an approval notice is refused, if it is. It must come from another
/// contract, one on the allow-list; the declared owner must have signed; and
/// the message must hold terms with a price. Where the seller's prepaid
/// balance covers the listing, the terms must be those of a listing.
pub open spec fn approve_rejection(
    state: MarketplaceView,
    current: Seq<char>,
    predecessor: Seq<char>,
    signer: Seq<char>,
    owner: Seq<char>,
    args: Option<MarketArgs>,
    now: u64,
) -> Option<MarketError> {
    if current == predecessor {
        Some(MarketError::NotCrossContract)
    } else if owner != signer {
        Some(MarketError::OwnerNotSigner)
    } else if !state.approved_nft_contract_ids.contains(predecessor) {
        Some(MarketError::ContractNotApproved)
    } else if args.is_none() {
        Some(MarketError::InvalidMarketArgs)
    } else if args.unwrap().price.is_none() {
        Some(MarketError::PriceMissing)
    } else if storage_covers(state, signer) {
        creation_rejection(args.unwrap().price.unwrap(), args.unwrap(), now)
    } else {
        None
    }
}

/// The notice that a listing was created.
pub open spec fn created_event(listing: ListingView) -> EventView {
    EventView::AddMarketData {
        owner_id: listing.owner_id,
        approval_id: listing.approval_id,
        nft_contract_id: listing.nft_contract_id,
        token_id: listing.token_id,
        price: listing.price,
        started_at: listing.started_at,
        ended_at: listing.ended_at,
        end_price: listing.end_price,
        is_auction: listing.is_auction,
    }
}

/// Why a deposit for storage is refused, if it is.
pub open spec fn deposit_rejection(
    state: MarketplaceView,
    account: Seq<char>,
    attached: u128,
) -> Option<MarketError> {
    if attached < STORAGE_ADD_MARKET_DATA {
        Some(MarketError::DepositBelowMinimum)
    } else if balance_of(state.storage_deposits, account) + attached > u128::MAX {
        Some(MarketError::ArithmeticOverflow)
    } else {
        None
    }
}

/// The part of a seller's prepaid balance that their listings hold down.
pub open spec fn storage_held(state: MarketplaceView, account: Seq<char>) -> nat {
    supply_of(state.by_owner_id, account) * (STORAGE_ADD_MARKET_DATA as nat)
}

/// Why a withdrawal of prepaid storage is refused, if it is.
pub open spec fn withdraw_rejection(
    state: MarketplaceView,
    account: Seq<char>,
    attached: u128,
) -> Option<MarketError> {
    if attached != 1 {
        Some(MarketError::RequiresOneYocto)
    } else if storage_held(state, account) > balance_of(state.storage_deposits, account) {
        Some(MarketError::ArithmeticOverflow)
    } else {
        None
    }
}

impl Marketplace {
    /// Takes the listing of an item out of the registry and out of its
    /// seller's index, and hands it back.
    pub fn internal_delete_market_data(&mut self, nft_contract_id: &String, token_id: &String) -> (removed:
        Option<MarketData>)
        ensures
            registry_ok(old(self)@) ==> registry_ok(final(self)@),
            final(self)@ == registry_without(old(self)@, key_of(nft_contract_id@, token_id@)),
            match removed {
                Some(listing) => old(self)@.market.contains_key(
                    key_of(nft_contract_id@, token_id@),
                ) && listing@ == old(self)@.market[key_of(nft_contract_id@, token_id@)],
                None => !old(self)@.market.contains_key(key_of(nft_contract_id@, token_id@)),
            },
    {
        let key: String = listing_key(nft_contract_id, token_id);
        let ghost before = *self;
        proof {
            if registry_ok(before@) {
                lemma_without_keeps_registry_ok(before@, key@);
            }
        }
        let removed: Option<MarketData> = self.market.remove(&key);
        assert(listings_view(self.market@) =~= (if before@.market.contains_key(key@) {
            before@.market.remove(key@)
        } else {
            before@.market
        }));
        if let Some(listing) = &removed {
            let ghost owner = listing.owner_id@;
            let ghost index = before@.by_owner_id;
            if let Some(mut keys) = self.by_owner_id.remove(&listing.owner_id) {
                keys.remove(&key);
                if keys.is_empty() {
                    assert(index_view(self.by_owner_id@) =~= index_without(index, owner, key@));
                } else {
                    self.by_owner_id.insert(listing.owner_id.clone(), keys);
                    assert(index_view(self.by_owner_id@) =~= index_without(index, owner, key@));
                }
            } else {
                assert(index_view(self.by_owner_id@) =~= index_without(index, owner, key@));
            }
        }
        removed
    }

    /// Files a new listing under its key and indexes it under its seller;
    /// a listing that stood under the key leaves the registry and its own
    /// seller's index first.
    pub fn internal_add_market_data(
        &mut self,
        owner_id: String,
        approval_id: u64,
        nft_contract_id: String,
        token_id: String,
        price: u128,
        args: MarketArgs,
        now: u64,
    ) -> (result: Result<Event, MarketError>)
        ensures
            registry_ok(old(self)@) ==> registry_ok(final(self)@),
            match result {
                Ok(event) => {
                    let listing = created_listing(
                        owner_id@,
                        approval_id,
                        nft_contract_id@,
                        token_id@,
                        price,
                        args,
                        now,
                    );
                    &&& creation_rejection(price, args, now).is_none()
                    &&& final(self)@ == registry_with(
                        old(self)@,
                        key_of(nft_contract_id@, token_id@),
                        listing,
                    )
                    &&& event@ == created_event(listing)
                },
                Err(e) => creation_rejection(price, args, now) == Some(e) && final(self)@ == old(
                    self,
                )@,
            },
    {
        let listing: MarketData = create_listing(
            &owner_id,
            approval_id,
            &nft_contract_id,
            &token_id,
            price,
            args,
            now,
        )?;
        let key: String = listing_key(&nft_contract_id, &token_id);
        let event = Event::AddMarketData {
            owner_id: listing.owner_id.clone(),
            approval_id,
            nft_contract_id: listing.nft_contract_id.clone(),
            token_id: listing.token_id.clone(),
            price,
            started_at: listing.started_at,
            ended_at: listing.ended_at,
            end_price: listing.end_price,
            is_auction: listing.is_auction,
        };
        let ghost start = *self;
        let ghost filed = listing@;
        proof {
            if registry_ok(start@) {
                lemma_with_keeps_registry_ok(start@, key@, filed);
            }
        }
        let _ = self.internal_delete_market_data(&nft_contract_id, &token_id);
        let ghost before = *self;
        let mut keys: StringSet = match self.by_owner_id.remove(&owner_id) {
            Some(keys) => keys,
            None => StringSet::new(),
        };
        keys.insert(key.clone());
        self.by_owner_id.insert(owner_id, keys);
        self.market.insert(key, listing);
        proof {
            assert(listings_view(self.market@) =~= before@.market.insert(key@, filed));
            assert(index_view(self.by_owner_id@) =~= index_with(
                before@.by_owner_id,
                owner_id@,
                key@,
            ));
        }
        Ok(event)
    }

    /// Removes the listing of a sold item and draws up the sale.
    pub fn internal_process_purchase(
        &mut self,
        nft_contract_id: String,
        token_id: String,
        buyer_id: String,
        price: u128,
    ) -> (result: Result<Purchase, MarketError>)
        ensures
            registry_ok(old(self)@) ==> registry_ok(final(self)@),
            final(self)@ == registry_without(old(self)@, key_of(nft_contract_id@, token_id@)),
            match result {
                Ok(purchase) => old(self)@.market.contains_key(key_of(nft_contract_id@, token_id@))
                    && purchase@ == (PurchaseView {
                    nft_contract_id: nft_contract_id@,
                    token_id: token_id@,
                    buyer_id: buyer_id@,
                    price,
                    market_data: old(self)@.market[key_of(nft_contract_id@, token_id@)],
                }),
                Err(e) => e == MarketError::ListingNotFound && !old(self)@.market.contains_key(
                    key_of(nft_contract_id@, token_id@),
                ),
            },
    {
        match self.internal_delete_market_data(&nft_contract_id, &token_id) {
            Some(market_data) => Ok(
                Purchase { nft_contract_id, token_id, buyer_id, price, market_data },
            ),
            None => Err(MarketError::ListingNotFound),
        }
    }

    /// Buys a listed item at its fixed price. The listing leaves the
    /// registry at once; the sale it hands back is settled when the outcome
    /// of the item's transfer is known.
    pub fn buy(&mut self, ctx: &CallContext, nft_contract_id: String, token_id: String) -> (result:
        Result<Effects, MarketError>)
        ensures
            registry_ok(old(self)@) ==> registry_ok(final(self)@),
            ({
                let key = key_of(nft_contract_id@, token_id@);
                match result {
                    Ok(effects) => {
                        &&& buy_rejection(
                            old(self)@,
                            key,
                            ctx.predecessor_id@,
                            ctx.attached_deposit,
                        ).is_none()
                        &&& final(self)@ == registry_without(old(self)@, key)
                        &&& effects@ == (EffectsView {
                            transfers: Seq::empty(),
                            events: Seq::empty(),
                            purchase: Some(
                                PurchaseView {
                                    nft_contract_id: nft_contract_id@,
                                    token_id: token_id@,
                                    buyer_id: ctx.predecessor_id@,
                                    price: ctx.attached_deposit,
                                    market_data: old(self)@.market[key],
                                },
                            ),
                        })
                    },
                    Err(e) => buy_rejection(
                        old(self)@,
                        key,
                        ctx.predecessor_id@,
                        ctx.attached_deposit,
                    ) == Some(e) && final(self)@ == old(self)@,
                }
            }),
    {
        let key: String = listing_key(&nft_contract_id, &token_id);
        match self.market.get(&key) {
            Some(listing) => {
                if ctx.predecessor_id == listing.owner_id {
                    return Err(MarketError::OwnSale);
                }
                if ctx.attached_deposit != listing.price {
                    return Err(MarketError::WrongDeposit);
                }
            },
            None => {
                return Err(MarketError::ListingNotFound);
            },
        }
        let purchase: Purchase = self.internal_process_purchase(
            nft_contract_id,
            token_id,
            ctx.predecessor_id.clone(),
            ctx.attached_deposit,
        )?;
        let mut effects: Effects = no_effects();
        effects.purchase = Some(purchase);
        Ok(effects)
    }

    /// Places a bid on an auction.
    pub fn add_bid(
        &mut self,
        ctx: &CallContext,
        nft_contract_id: String,
        token_id: String,
        amount: u128,
    ) -> (result: Result<Effects, MarketError>)
        ensures
            registry_ok(old(self)@) ==> registry_ok(final(self)@),
            ({
                let key = key_of(nft_contract_id@, token_id@);
                let bidder = ctx.predecessor_id@;
                let now = ctx.block_timestamp;
                match result {
                    Ok(effects) => {
                        let listing = old(self)@.market[key];
                        &&& add_bid_rejection(
                            old(self)@,
                            key,
                            bidder,
                            amount,
                            ctx.attached_deposit,
                            now,
                        ).is_none()
                        &&& final(self)@ == (MarketplaceView {
                            market: old(self)@.market.insert(
                                key,
                                listing_after_bid(listing, bidder, amount, now),
                            ),
                            ..old(self)@
                        })
                        &&& effects@ == (EffectsView {
                            transfers: bid_refunds(listing, bidder, amount, now),
                            events: bid_events(
                                listing,
                                nft_contract_id@,
                                token_id@,
                                bidder,
                                amount,
                                now,
                            ),
                            purchase: None,
                        })
                    },
                    Err(e) => add_bid_rejection(
                        old(self)@,
                        key,
                        bidder,
                        amount,
                        ctx.attached_deposit,
                        now,
                    ) == Some(e) && final(self)@ == old(self)@,
                }
            }),
    {
        let key: String = listing_key(&nft_contract_id, &token_id);
        let ghost before = *self;
        let placed: BidPlaced = match self.market.get(&key) {
            Some(listing) => place_bid(
                listing,
                &ctx.predecessor_id,
                amount,
                ctx.attached_deposit,
                ctx.block_timestamp,
            )?,
            None => {
                return Err(MarketError::ListingNotFound);
            },
        };
        let ghost listing = before@.market[key@];
        let ghost stored = placed.listing@;
        let mut events: Vec<Event> = Vec::new();
        if let Some(ended_at) = placed.extended_to {
            events.push(
                Event::ExtendAuction {
                    nft_contract_id: nft_contract_id.clone(),
                    token_id: token_id.clone(),
                    ended_at,
                },
            );
        }
        if let Some(evicted) = placed.evicted {
            events.push(
                Event::CancelBid {
                    bidder_id: evicted,
                    nft_contract_id: nft_contract_id.clone(),
                    token_id: token_id.clone(),
                },
            );
        }
        events.push(
            Event::AddBid {
                bidder_id: ctx.predecessor_id.clone(),
                nft_contract_id,
                token_id,
                amount,
                time: ctx.block_timestamp,
            },
        );
        assert(events_view(events@) =~= bid_events(
            listing,
            nft_contract_id@,
            token_id@,
            ctx.predecessor_id@,
            amount,
            ctx.block_timestamp,
        ));
        proof {
            if registry_ok(before@) {
                lemma_update_keeps_registry_ok(before@, key@, stored);
            }
        }
        self.market.insert(key, placed.listing);
        assert(listings_view(self.market@) =~= before@.market.insert(key@, stored));
        assert(self@ == registry_updated(before@, key@, stored));
        Ok(Effects { transfers: placed.refunds, events, purchase: None })
    }

    /// Cancels the bids of `account_id` on an auction and refunds them.
    pub fn cancel_bid(
        &mut self,
        ctx: &CallContext,
        nft_contract_id: String,
        token_id: String,
        account_id: String,
    ) -> (result: Result<Effects, MarketError>)
        ensures
            registry_ok(old(self)@) ==> registry_ok(final(self)@),
            ({
                let key = key_of(nft_contract_id@, token_id@);
                match result {
                    Ok(effects) => {
                        let listing = old(self)@.market[key];
                        &&& cancel_bid_rejection(
                            old(self)@,
                            key,
                            ctx.predecessor_id@,
                            ctx.attached_deposit,
                            account_id@,
                        ).is_none()
                        &&& final(self)@ == (MarketplaceView {
                            market: old(self)@.market.insert(
                                key,
                                listing_after_cancel(listing, account_id@),
                            ),
                            ..old(self)@
                        })
                        &&& effects@ == (EffectsView {
                            transfers: refunds_of(ledger_of(listing), account_id@),
                            events: seq![
                                EventView::CancelBid {
                                    bidder_id: account_id@,
                                    nft_contract_id: nft_contract_id@,
                                    token_id: token_id@,
                                },
                            ],
                            purchase: None,
                        })
                    },
                    Err(e) => cancel_bid_rejection(
                        old(self)@,
                        key,
                        ctx.predecessor_id@,
                        ctx.attached_deposit,
                        account_id@,
                    ) == Some(e) && final(self)@ == old(self)@,
                }
            }),
    {
        if ctx.attached_deposit != 1 {
            return Err(MarketError::RequiresOneYocto);
        }
        let key: String = listing_key(&nft_contract_id, &token_id);
        let ghost before = *self;
        let (updated, refunds): (MarketData, Vec<Transfer>) = match self.market.get(&key) {
            Some(listing) => withdraw_bid(listing, &self.owner_id, &ctx.predecessor_id, &account_id)?,
            None => {
                return Err(MarketError::ListingNotFound);
            },
        };
        let ghost stored = updated@;
        let mut events: Vec<Event> = Vec::new();
        events.push(Event::CancelBid { bidder_id: account_id, nft_contract_id, token_id });
        assert(events_view(events@) =~= seq![
            EventView::CancelBid {
                bidder_id: account_id@,
                nft_contract_id: nft_contract_id@,
                token_id: token_id@,
            },
        ]);
        proof {
            if registry_ok(before@) {
                lemma_update_keeps_registry_ok(before@, key@, stored);
            }
        }
        self.market.insert(key, updated);
        assert(listings_view(self.market@) =~= before@.market.insert(key@, stored));
        assert(self@ == registry_updated(before@, key@, stored));
        Ok(Effects { transfers: refunds, events, purchase: None })
    }

    /// Accepts the top bid of an auction: every other bid is refunded, the
    /// listing leaves the registry, and the sale it hands back is settled when
    /// the outcome of the item's transfer is known.
    pub fn accept_bid(&mut self, ctx: &CallContext, nft_contract_id: String, token_id: String) -> (result:
        Result<Effects, MarketError>)
        ensures
            registry_ok(old(self)@) ==> registry_ok(final(self)@),
            ({
                let key = key_of(nft_contract_id@, token_id@);
                match result {
                    Ok(effects) => {
                        let listing = old(self)@.market[key];
                        &&& accept_bid_rejection(
                            old(self)@,
                            key,
                            ctx.predecessor_id@,
                            ctx.attached_deposit,
                            ctx.block_timestamp,
                        ).is_none()
                        &&& final(self)@ == registry_without(old(self)@, key)
                        &&& effects@ == (EffectsView {
                            transfers: accept_refunds(listing),
                            events: Seq::empty(),
                            purchase: Some(accepted_purchase(listing, token_id@)),
                        })
                    },
                    Err(e) => accept_bid_rejection(
                        old(self)@,
                        key,
                        ctx.predecessor_id@,
                        ctx.attached_deposit,
                        ctx.block_timestamp,
                    ) == Some(e) && final(self)@ == old(self)@,
                }
            }),
    {
        if ctx.attached_deposit != 1 {
            return Err(MarketError::RequiresOneYocto);
        }
        let key: String = listing_key(&nft_contract_id, &token_id);
        let (purchase, refunds): (Purchase, Vec<Transfer>) = match self.market.get(&key) {
            Some(listing) => accept_top_bid(
                listing,
                &token_id,
                &self.owner_id,
                &ctx.predecessor_id,
                ctx.block_timestamp,
            )?,
            None => {
                return Err(MarketError::ListingNotFound);
            },
        };
        let _ = self.internal_delete_market_data(&nft_contract_id, &token_id);
        let events: Vec<Event> = Vec::new();
        assert(events_view(events@) =~= Seq::empty());
        Ok(Effects { transfers: refunds, events, purchase: Some(purchase) })
    }

    /// Withdraws a listing from sale.
    pub fn delete_market_data(
        &mut self,
        ctx: &CallContext,
        nft_contract_id: String,
        token_id: String,
    ) -> (result: Result<Effects, MarketError>)
        ensures
            registry_ok(old(self)@) ==> registry_ok(final(self)@),
            ({
                let key = key_of(nft_contract_id@, token_id@);
                match result {
                    Ok(effects) => {
                        &&& delist_rejection(
                            old(self)@,
                            key,
                            ctx.predecessor_id@,
                            ctx.attached_deposit,
                            ctx.block_timestamp,
                        ).is_none()
                        &&& final(self)@ == registry_without(old(self)@, key)
                        &&& effects@ == (EffectsView {
                            transfers: Seq::empty(),
                            events: seq![
                                EventView::DeleteMarketData {
                                    owner_id: old(self)@.market[key].owner_id,
                                    nft_contract_id: nft_contract_id@,
                                    token_id: token_id@,
                                },
                            ],
                            purchase: None,
                        })
                    },
                    Err(e) => delist_rejection(
                        old(self)@,
                        key,
                        ctx.predecessor_id@,
                        ctx.attached_deposit,
                        ctx.block_timestamp,
                    ) == Some(e) && final(self)@ == old(self)@,
                }
            }),
    {
        if ctx.attached_deposit != 1 {
            return Err(MarketError::RequiresOneYocto);
        }
        let key: String = listing_key(&nft_contract_id, &token_id);
        let seller: String = match self.market.get(&key) {
            Some(listing) => {
                let by_owner: bool = ctx.predecessor_id == self.owner_id;
                if !(ctx.predecessor_id == listing.owner_id) && !by_owner {
                    return Err(MarketError::NotSellerOrOwner);
                }
                if listing.is_auction.is_some() && by_owner {
                    match listing.ended_at {
                        Some(end) => {
                            if ctx.block_timestamp < end {
                                return Err(MarketError::AuctionNotEnded);
                            }
                        },
                        None => {
                            return Err(MarketError::NoEndTime);
                        },
                    }
                }
                listing.owner_id.clone()
            },
            None => {
                return Err(MarketError::ListingNotFound);
            },
        };
        let _ = self.internal_delete_market_data(&nft_contract_id, &token_id);
        let mut effects: Effects = no_effects();
        effects.events.push(Event::DeleteMarketData { owner_id: seller, nft_contract_id, token_id });
        assert(effects@.events =~= seq![
            EventView::DeleteMarketData {
                owner_id: seller@,
                nft_contract_id: nft_contract_id@,
                token_id: token_id@,
            },
        ]);
        Ok(effects)
    }

    /// Settles a sale on the outcome of the item's transfer, at the
    /// marketplace's fee and to its treasury.
    pub fn resolve_with(
        &self,
        buyer_id: &String,
        market_data: &MarketData,
        price: u128,
        outcome: TransferOutcome,
    ) -> (settlement: Settlement)
        ensures
            settlement@ == settlement_of(
                buyer_id@,
                market_data@,
                price,
                self@.transaction_fee,
                self@.treasury_id,
                outcome@,
            ),
    {
        settle(buyer_id, market_data, price, self.transaction_fee, &self.treasury_id, outcome)
    }

    /// Settles a sale once the item's transfer has ended; whatever the
    /// transfer's outcome, the sale is settled. `payload` is what
    /// the asset contract answered, absent where the transfer failed, and
    /// `nested` is the payout that the answer holds one level down, where it
    /// has that shape. The registry is left as it is: a listing that was
    /// removed for this sale stays removed, whatever the outcome.
    pub fn resolve_purchase(
        &mut self,
        buyer_id: String,
        market_data: MarketData,
        price: u128,
        payload: Option<Vec<u8>>,
        nested: Option<Payout>,
    ) -> (settlement: Settlement)
        ensures
            registry_ok(old(self)@) ==> registry_ok(final(self)@),
            final(self)@ == old(self)@,
            payload.is_none() ==> settlement@ == settlement_of(
                buyer_id@,
                market_data@,
                price,
                old(self)@.transaction_fee,
                old(self)@.treasury_id,
                TransferOutcomeView::Failed,
            ),
            payload.is_some() ==> exists|flat: Option<Vec<Share>>|
                reads_mapping(flat, flat_payout_of(payload.unwrap()@)) && settlement@
                    == settlement_of(
                    buyer_id@,
                    market_data@,
                    price,
                    old(self)@.transaction_fee,
                    old(self)@.treasury_id,
                    TransferOutcomeView::Succeeded(
                        response_of(
                            match flat {
                                Some(shares) => Some(shares_view(shares@)),
                                None => None,
                            },
                            opt_payout_view(nested),
                        ),
                    ),
                ),
    {
        let outcome: TransferOutcome = match &payload {
            Some(bytes) => TransferOutcome::Succeeded(read_payout(bytes, nested)),
            None => TransferOutcome::Failed,
        };
        let ghost read = outcome@;
        let settlement = self.resolve_with(&buyer_id, &market_data, price, outcome);
        proof {
            if payload.is_some() {
                let flat: Option<Vec<Share>> = choose|flat: Option<Vec<Share>>|
                    reads_mapping(flat, flat_payout_of(payload.unwrap()@)) && read
                        == TransferOutcomeView::Succeeded(
                        response_of(
                            match flat {
                                Some(shares) => Some(shares_view(shares@)),
                                None => None,
                            },
                            opt_payout_view(nested),
                        ),
                    );
                assert(reads_mapping(flat, flat_payout_of(payload.unwrap()@)) && settlement@
                    == settlement_of(
                    buyer_id@,
                    market_data@,
                    price,
                    self@.transaction_fee,
                    self@.treasury_id,
                    TransferOutcomeView::Succeeded(
                        response_of(
                            match flat {
                                Some(shares) => Some(shares_view(shares@)),
                                None => None,
                            },
                            opt_payout_view(nested),
                        ),
                    ),
                ));
            }
        }
        settlement
    }

    /// Takes an asset contract's notice that the marketplace may sell an
    /// item, and lists the item on the terms that the notice carries; `args`
    /// is absent where the notice's message could not be read as terms. A
    /// seller whose prepaid balance does not cover the listing gets a notice
    /// of that, and nothing is listed.
    pub fn nft_on_approve(
        &mut self,
        ctx: &CallContext,
        token_id: String,
        owner_id: String,
        approval_id: u64,
        args: Option<MarketArgs>,
    ) -> (result: Result<Effects, MarketError>)
        ensures
            registry_ok(old(self)@) ==> registry_ok(final(self)@),
            ({
                let contract = ctx.predecessor_id@;
                let signer = ctx.signer_id@;
                let now = ctx.block_timestamp;
                let rejection = approve_rejection(
                    old(self)@,
                    ctx.current_id@,
                    contract,
                    signer,
                    owner_id@,
                    args,
                    now,
                );
                match result {
                    Ok(effects) => {
                        &&& rejection.is_none()
                        &&& storage_covers(old(self)@, signer) ==> {
                            let listing = created_listing(
                                owner_id@,
                                approval_id,
                                contract,
                                token_id@,
                                args.unwrap().price.unwrap(),
                                args.unwrap(),
                                now,
                            );
                            &&& final(self)@ == registry_with(
                                old(self)@,
                                key_of(contract, token_id@),
                                listing,
                            )
                            &&& effects@ == (EffectsView {
                                transfers: Seq::empty(),
                                events: seq![created_event(listing)],
                                purchase: None,
                            })
                        }
                        &&& !storage_covers(old(self)@, signer) ==> {
                            &&& final(self)@ == old(self)@
                            &&& supply_of(old(self)@.by_owner_id, signer) + 1 <= u128::MAX
                            &&& effects@ == (EffectsView {
                                transfers: Seq::empty(),
                                events: seq![
                                    EventView::InsufficientStorage {
                                        paid: balance_of(old(self)@.storage_deposits, signer),
                                        sales: (supply_of(old(self)@.by_owner_id, signer)
                                            + 1) as u128,
                                        rate: STORAGE_ADD_MARKET_DATA,
                                    },
                                ],
                                purchase: None,
                            })
                        }
                    },
                    Err(e) => rejection == Some(e) && final(self)@ == old(self)@,
                }
            }),
    {
        if ctx.current_id == ctx.predecessor_id {
            return Err(MarketError::NotCrossContract);
        }
        if !(owner_id == ctx.signer_id) {
            return Err(MarketError::OwnerNotSigner);
        }
        if !self.approved_nft_contract_ids.contains(&ctx.predecessor_id) {
            return Err(MarketError::ContractNotApproved);
        }
        let terms: MarketArgs = match args {
            Some(terms) => terms,
            None => {
                return Err(MarketError::InvalidMarketArgs);
            },
        };
        let price: u128 = match terms.price {
            Some(price) => price,
            None => {
                return Err(MarketError::PriceMissing);
            },
        };
        let paid: u128 = match self.storage_deposits.get(&ctx.signer_id) {
            Some(balance) => *balance,
            None => 0,
        };
        let supply: usize = match self.by_owner_id.get(&ctx.signer_id) {
            Some(keys) => keys.len(),
            None => 0,
        };
        let sales: u128 = supply as u128 + 1;
        let covered: bool = match sales.checked_mul(STORAGE_ADD_MARKET_DATA) {
            Some(required) => paid >= required,
            None => false,
        };
        let mut effects: Effects = no_effects();
        if !covered {
            effects.events.push(
                Event::InsufficientStorage { paid, sales, rate: STORAGE_ADD_MARKET_DATA },
            );
            assert(effects@.events =~= seq![
                EventView::InsufficientStorage { paid, sales, rate: STORAGE_ADD_MARKET_DATA },
            ]);
            return Ok(effects);
        }
        let event: Event = self.internal_add_market_data(
            owner_id,
            approval_id,
            ctx.predecessor_id.clone(),
            token_id,
            price,
            terms,
            ctx.block_timestamp,
        )?;
        let ghost created = event@;
        effects.events.push(event);
        assert(effects@.events =~= seq![created]);
        Ok(effects)
    }

    /// Adds the attached funds to the balance that an account has prepaid
    /// for storage: that of `account_id`, or the caller's own.
    pub fn storage_deposit(&mut self, ctx: &CallContext, account_id: Option<String>) -> (result:
        Result<(), MarketError>)
        ensures
            registry_ok(old(self)@) ==> registry_ok(final(self)@),
            ({
                let account = match account_id {
                    Some(id) => id@,
                    None => ctx.predecessor_id@,
                };
                let rejection = deposit_rejection(old(self)@, account, ctx.attached_deposit);
                match result {
                    Ok(_) => rejection.is_none() && final(self)@ == (MarketplaceView {
                        storage_deposits: old(self)@.storage_deposits.insert(
                            account,
                            (balance_of(old(self)@.storage_deposits, account)
                                + ctx.attached_deposit) as u128,
                        ),
                        ..old(self)@
                    }),
                    Err(e) => rejection == Some(e) && final(self)@ == old(self)@,
                }
            }),
    {
        let account: String = match account_id {
            Some(id) => id,
            None => ctx.predecessor_id.clone(),
        };
        if ctx.attached_deposit < STORAGE_ADD_MARKET_DATA {
            return Err(MarketError::DepositBelowMinimum);
        }
        let balance: u128 = match self.storage_deposits.get(&account) {
            Some(balance) => *balance,
            None => 0,
        };
        match balance.checked_add(ctx.attached_deposit) {
            Some(total) => {
                self.storage_deposits.insert(account, total);
                Ok(())
            },
            None => Err(MarketError::ArithmeticOverflow),
        }
    }

    /// Pays back the part of the caller's prepaid balance that their
    /// listings do not hold down.
    pub fn storage_withdraw(&mut self, ctx: &CallContext) -> (result: Result<Effects, MarketError>)
        ensures
            registry_ok(old(self)@) ==> registry_ok(final(self)@),
            ({
                let account = ctx.predecessor_id@;
                let rejection = withdraw_rejection(old(self)@, account, ctx.attached_deposit);
                let held = storage_held(old(self)@, account);
                let free = balance_of(old(self)@.storage_deposits, account) - held;
                match result {
                    Ok(effects) => {
                        &&& rejection.is_none()
                        &&& final(self)@ == (MarketplaceView {
                            storage_deposits: if held > 0 {
                                old(self)@.storage_deposits.insert(account, held as u128)
                            } else {
                                old(self)@.storage_deposits.remove(account)
                            },
                            ..old(self)@
                        })
                        &&& effects@ == (EffectsView {
                            transfers: if free > 0 {
                                seq![TransferView { receiver_id: account, amount: free as u128 }]
                            } else {
                                Seq::empty()
                            },
                            events: Seq::empty(),
                            purchase: None,
                        })
                    },
                    Err(e) => rejection == Some(e) && final(self)@ == old(self)@,
                }
            }),
    {
        if ctx.attached_deposit != 1 {
            return Err(MarketError::RequiresOneYocto);
        }
        let balance: u128 = match self.storage_deposits.get(&ctx.predecessor_id) {
            Some(balance) => *balance,
            None => 0,
        };
        let supply: usize = match self.by_owner_id.get(&ctx.predecessor_id) {
            Some(keys) => keys.len(),
            None => 0,
        };
        let held: u128 = match (supply as u128).checked_mul(STORAGE_ADD_MARKET_DATA) {
            Some(held) => held,
            None => {
                return Err(MarketError::ArithmeticOverflow);
            },
        };
        if held > balance {
            return Err(MarketError::ArithmeticOverflow);
        }
        let free: u128 = balance - held;
        let mut effects: Effects = no_effects();
        if free > 0 {
            effects.transfers.push(
                Transfer { receiver_id: ctx.predecessor_id.clone(), amount: free },
            );
            assert(effects@.transfers =~= seq![
                TransferView { receiver_id: ctx.predecessor_id@, amount: free },
            ]);
        }
        if held > 0 {
            self.storage_deposits.insert(ctx.predecessor_id.clone(), held);
        } else {
            let _ = self.storage_deposits.remove(&ctx.predecessor_id);
        }
        Ok(effects)
    }
}

} // verus!
