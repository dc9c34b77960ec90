use marketplace::events::{Effects, Event, Purchase};
use marketplace::types::{
    Bid, CallContext, MarketArgs, MarketData, MarketError, Transfer, FIVE_MINUTES,
    STORAGE_ADD_MARKET_DATA,
};
use marketplace::Marketplace;

const START: u64 = 1_000_000_000_000;
const END: u64 = START + 3_600_000_000_000;

fn s(text: &str) -> String {
    text.to_string()
}

fn call(predecessor: &str, attached_deposit: u128, block_timestamp: u64) -> CallContext {
    CallContext {
        predecessor_id: s(predecessor),
        signer_id: s(predecessor),
        current_id: s("market.near"),
        attached_deposit,
        block_timestamp,
    }
}

fn approval(signer: &str, now: u64) -> CallContext {
    CallContext {
        predecessor_id: s("nft.near"),
        signer_id: s(signer),
        current_id: s("market.near"),
        attached_deposit: 0,
        block_timestamp: now,
    }
}

/// A marketplace with one ascending auction of `seller.near`, starting price 100.
fn with_auction() -> Marketplace {
    let mut market =
        Marketplace::new(s("owner.near"), s("treasury.near"), Some(vec![s("nft.near")]), 250);
    market.storage_deposit(&call("seller.near", STORAGE_ADD_MARKET_DATA, START), None).unwrap();
    let args = MarketArgs {
        price: Some(100),
        started_at: None,
        ended_at: Some(END),
        is_auction: Some(true),
        end_price: None,
    };
    market.nft_on_approve(&approval("seller.near", START), s("token-1"), s("seller.near"), 7, Some(args))
        .unwrap();
    market
}

fn bid(market: &mut Marketplace, bidder: &str, amount: u128, now: u64) -> Result<Effects, MarketError> {
    market.add_bid(&call(bidder, amount, now), s("nft.near"), s("token-1"), amount)
}

fn listing(market: &Marketplace) -> &MarketData {
    market.market.get(&s("nft.near||token-1")).unwrap()
}

fn bids(market: &Marketplace) -> Vec<(String, u128)> {
    listing(market).bids.as_ref().unwrap().iter().map(|b| (b.bidder_id.clone(), b.price)).collect()
}

fn added(bidder: &str, amount: u128, time: u64) -> Event {
    Event::AddBid {
        bidder_id: s(bidder),
        nft_contract_id: s("nft.near"),
        token_id: s("token-1"),
        amount,
        time,
    }
}

fn refund(receiver: &str, amount: u128) -> Transfer {
    Transfer { receiver_id: s(receiver), amount }
}

#[test]
fn first_bid_at_the_starting_price_is_accepted_and_the_next_must_top_it_by_a_tenth() {
    let mut market = with_auction();
    let effects = bid(&mut market, "alice.near", 100, START + 1).unwrap();
    assert_eq!(
        effects,
        Effects { transfers: vec![], events: vec![added("alice.near", 100, START + 1)], purchase: None }
    );
    assert_eq!(bid(&mut market, "bob.near", 105, START + 2), Err(MarketError::BidTooLow));
    assert_eq!(bid(&mut market, "bob.near", 109, START + 2), Err(MarketError::BidTooLow));
    assert_eq!(bids(&market), vec![(s("alice.near"), 100)]);
    bid(&mut market, "bob.near", 110, START + 2).unwrap();
    assert_eq!(bids(&market), vec![(s("alice.near"), 100), (s("bob.near"), 110)]);
    assert_eq!(
        listing(&market).bids.as_ref().unwrap()[1],
        Bid { bidder_id: s("bob.near"), price: 110, time: START + 2 }
    );
}

#[test]
fn first_bid_below_the_starting_price_is_refused() {
    let mut market = with_auction();
    assert_eq!(bid(&mut market, "alice.near", 99, START + 1), Err(MarketError::BidTooLow));
    assert_eq!(bids(&market), vec![]);
}

#[test]
fn the_increment_is_a_tenth_rounded_down() {
    let mut market = with_auction();
    bid(&mut market, "alice.near", 109, START + 1).unwrap();
    // 109 + 109 / 10 = 119
    assert_eq!(bid(&mut market, "bob.near", 118, START + 2), Err(MarketError::BidTooLow));
    bid(&mut market, "bob.near", 119, START + 2).unwrap();
    assert_eq!(bids(&market), vec![(s("alice.near"), 109), (s("bob.near"), 119)]);
}

#[test]
fn a_bid_that_no_amount_can_top_ends_the_bidding() {
    let mut market = with_auction();
    bid(&mut market, "alice.near", u128::MAX, START + 1).unwrap();
    assert_eq!(bid(&mut market, "bob.near", u128::MAX, START + 2), Err(MarketError::BidTooLow));
}

#[test]
fn every_accepted_bid_tops_the_one_before_by_a_tenth() {
    let mut market = with_auction();
    let amounts: [u128; 6] = [100, 110, 500, 550, 605, 10_000];
    for (i, amount) in amounts.iter().enumerate() {
        bid(&mut market, &format!("bidder-{}.near", i), *amount, START + 1).unwrap();
    }
    let prices: Vec<u128> = bids(&market).iter().map(|b| b.1).collect();
    assert_eq!(prices, amounts.to_vec());
    for pair in prices.windows(2) {
        assert!(pair[1] >= pair[0] + pair[0] / 10);
        assert!(pair[1] >= pair[0]);
    }
}

#[test]
fn a_new_bid_replaces_and_refunds_the_bidders_earlier_bid() {
    let mut market = with_auction();
    bid(&mut market, "alice.near", 100, START + 1).unwrap();
    bid(&mut market, "bob.near", 110, START + 2).unwrap();
    let effects = bid(&mut market, "alice.near", 121, START + 3).unwrap();
    assert_eq!(
        effects,
        Effects {
            transfers: vec![refund("alice.near", 100)],
            events: vec![added("alice.near", 121, START + 3)],
            purchase: None,
        }
    );
    assert_eq!(bids(&market), vec![(s("bob.near"), 110), (s("alice.near"), 121)]);
}

#[test]
fn the_top_bidder_must_top_their_own_bid() {
    let mut market = with_auction();
    bid(&mut market, "alice.near", 100, START + 1).unwrap();
    assert_eq!(bid(&mut market, "alice.near", 105, START + 2), Err(MarketError::BidTooLow));
    let effects = bid(&mut market, "alice.near", 110, START + 2).unwrap();
    assert_eq!(effects.transfers, vec![refund("alice.near", 100)]);
    assert_eq!(bids(&market), vec![(s("alice.near"), 110)]);
}

#[test]
fn a_late_bid_moves_the_end_on_by_five_minutes() {
    let mut market = with_auction();
    let effects = bid(&mut market, "alice.near", 100, END - FIVE_MINUTES).unwrap();
    assert_eq!(
        effects.events,
        vec![
            Event::ExtendAuction {
                nft_contract_id: s("nft.near"),
                token_id: s("token-1"),
                ended_at: END + FIVE_MINUTES,
            },
            added("alice.near", 100, END - FIVE_MINUTES),
        ]
    );
    assert_eq!(listing(&market).ended_at, Some(END + FIVE_MINUTES));
    // the moved end is the one that counts from now on
    bid(&mut market, "bob.near", 110, END + 1).unwrap();
    assert_eq!(listing(&market).ended_at, Some(END + 2 * FIVE_MINUTES));
}

#[test]
fn a_bid_at_the_very_end_is_late() {
    let mut market = with_auction();
    bid(&mut market, "alice.near", 100, END).unwrap();
    assert_eq!(listing(&market).ended_at, Some(END + FIVE_MINUTES));
}

#[test]
fn an_early_bid_leaves_the_end_where_it_is() {
    let mut market = with_auction();
    let effects = bid(&mut market, "alice.near", 100, END - FIVE_MINUTES - 1).unwrap();
    assert_eq!(effects.events, vec![added("alice.near", 100, END - FIVE_MINUTES - 1)]);
    assert_eq!(listing(&market).ended_at, Some(END));
}

#[test]
fn a_refused_late_bid_moves_nothing() {
    let mut market = with_auction();
    assert_eq!(bid(&mut market, "alice.near", 99, END - 1), Err(MarketError::BidTooLow));
    assert_eq!(listing(&market).ended_at, Some(END));
}

#[test]
fn the_hundredth_bid_evicts_and_refunds_the_oldest() {
    let mut market = with_auction();
    let mut amount: u128 = 100;
    let mut first_amounts: Vec<u128> = vec![];
    for i in 0..99 {
        let effects = bid(&mut market, &format!("bidder-{}.near", i), amount, START + 1).unwrap();
        assert_eq!(effects.transfers, vec![]);
        first_amounts.push(amount);
        amount += amount / 10;
    }
    assert_eq!(bids(&market).len(), 99);
    let effects = bid(&mut market, "bidder-99.near", amount, START + 2).unwrap();
    assert_eq!(
        effects,
        Effects {
            transfers: vec![refund("bidder-0.near", 100)],
            events: vec![
                Event::CancelBid {
                    bidder_id: s("bidder-0.near"),
                    nft_contract_id: s("nft.near"),
                    token_id: s("token-1"),
                },
                added("bidder-99.near", amount, START + 2),
            ],
            purchase: None,
        }
    );
    let after = bids(&market);
    assert_eq!(after.len(), 99);
    assert_eq!(after[0], (s("bidder-1.near"), first_amounts[1]));
    assert_eq!(after[98], (s("bidder-99.near"), amount));
    // and so on: the count never passes the bound
    let next = amount + amount / 10;
    let effects = bid(&mut market, "bidder-100.near", next, START + 3).unwrap();
    assert_eq!(effects.transfers, vec![refund("bidder-1.near", first_amounts[1])]);
    assert_eq!(bids(&market).len(), 99);
}

#[test]
fn a_rebid_at_the_bound_evicts_nobody() {
    let mut market = with_auction();
    let mut amount: u128 = 100;
    for i in 0..99 {
        bid(&mut market, &format!("bidder-{}.near", i), amount, START + 1).unwrap();
        amount += amount / 10;
    }
    let effects = bid(&mut market, "bidder-5.near", amount, START + 2).unwrap();
    assert_eq!(effects.transfers.len(), 1);
    assert_eq!(effects.transfers[0].receiver_id, "bidder-5.near");
    assert_eq!(effects.events, vec![added("bidder-5.near", amount, START + 2)]);
    assert_eq!(bids(&market).len(), 99);
    assert_eq!(bids(&market)[0].0, "bidder-0.near");
}

#[test]
fn a_bid_on_a_missing_listing_is_refused() {
    let mut market = with_auction();
    assert_eq!(
        market.add_bid(&call("alice.near", 100, START + 1), s("nft.near"), s("token-2"), 100),
        Err(MarketError::ListingNotFound)
    );
}

#[test]
fn a_bid_before_the_start_is_refused() {
    let mut market = with_auction();
    assert_eq!(bid(&mut market, "alice.near", 100, START - 1), Err(MarketError::NotStarted));
    assert!(bid(&mut market, "alice.near", 100, START).is_ok());
}

#[test]
fn a_bid_after_the_end_is_refused() {
    let mut market = with_auction();
    assert_eq!(bid(&mut market, "alice.near", 100, END + 1), Err(MarketError::Ended));
}

#[test]
fn a_bid_on_a_listing_without_an_end_is_refused() {
    let mut market =
        Marketplace::new(s("owner.near"), s("treasury.near"), Some(vec![s("nft.near")]), 250);
    market.storage_deposit(&call("seller.near", STORAGE_ADD_MARKET_DATA, START), None).unwrap();
    let args =
        MarketArgs { price: Some(100), started_at: None, ended_at: None, is_auction: None, end_price: None };
    market.nft_on_approve(&approval("seller.near", START), s("token-1"), s("seller.near"), 7, Some(args))
        .unwrap();
    assert_eq!(bid(&mut market, "alice.near", 100, START + 1), Err(MarketError::NoEndTime));
}

#[test]
fn a_late_bid_whose_extension_passes_the_end_of_time_is_refused() {
    let mut market =
        Marketplace::new(s("owner.near"), s("treasury.near"), Some(vec![s("nft.near")]), 250);
    market.storage_deposit(&call("seller.near", STORAGE_ADD_MARKET_DATA, START), None).unwrap();
    let args = MarketArgs {
        price: Some(100),
        started_at: None,
        ended_at: Some(u64::MAX),
        is_auction: Some(true),
        end_price: None,
    };
    market.nft_on_approve(&approval("seller.near", START), s("token-1"), s("seller.near"), 7, Some(args))
        .unwrap();
    assert_eq!(bid(&mut market, "alice.near", 100, u64::MAX - 5), Err(MarketError::ArithmeticOverflow));
    assert!(bid(&mut market, "alice.near", 100, START + 5).is_ok());
}

#[test]
fn the_seller_cannot_bid() {
    let mut market = with_auction();
    assert_eq!(bid(&mut market, "seller.near", 100, START + 1), Err(MarketError::OwnerBid));
}

#[test]
fn a_bid_needs_its_amount_attached() {
    let mut market = with_auction();
    assert_eq!(
        market.add_bid(&call("alice.near", 99, START + 1), s("nft.near"), s("token-1"), 100),
        Err(MarketError::DepositBelowAmount)
    );
    assert!(market.add_bid(&call("alice.near", 101, START + 1), s("nft.near"), s("token-1"), 100).is_ok());
}

#[test]
fn a_bidder_cancels_their_bid_and_is_refunded() {
    let mut market = with_auction();
    bid(&mut market, "alice.near", 100, START + 1).unwrap();
    bid(&mut market, "bob.near", 110, START + 2).unwrap();
    let effects = market
        .cancel_bid(&call("alice.near", 1, START + 3), s("nft.near"), s("token-1"), s("alice.near"))
        .unwrap();
    assert_eq!(
        effects,
        Effects {
            transfers: vec![refund("alice.near", 100)],
            events: vec![Event::CancelBid {
                bidder_id: s("alice.near"),
                nft_contract_id: s("nft.near"),
                token_id: s("token-1"),
            }],
            purchase: None,
        }
    );
    assert_eq!(bids(&market), vec![(s("bob.near"), 110)]);
}

#[test]
fn the_owner_cancels_any_bid() {
    let mut market = with_auction();
    bid(&mut market, "alice.near", 100, START + 1).unwrap();
    let effects = market
        .cancel_bid(&call("owner.near", 1, START + 3), s("nft.near"), s("token-1"), s("alice.near"))
        .unwrap();
    assert_eq!(effects.transfers, vec![refund("alice.near", 100)]);
    assert_eq!(bids(&market), vec![]);
}

#[test]
fn nobody_else_cancels_a_bid() {
    let mut market = with_auction();
    bid(&mut market, "alice.near", 100, START + 1).unwrap();
    assert_eq!(
        market.cancel_bid(&call("bob.near", 1, START + 3), s("nft.near"), s("token-1"), s("alice.near")),
        Err(MarketError::NotBidderOrOwner)
    );
    assert_eq!(
        market.cancel_bid(&call("seller.near", 1, START + 3), s("nft.near"), s("token-1"), s("alice.near")),
        Err(MarketError::NotBidderOrOwner)
    );
    assert_eq!(bids(&market), vec![(s("alice.near"), 100)]);
}

#[test]
fn cancelling_the_bid_of_someone_who_has_none_changes_nothing() {
    let mut market = with_auction();
    bid(&mut market, "alice.near", 100, START + 1).unwrap();
    let effects = market
        .cancel_bid(&call("bob.near", 1, START + 3), s("nft.near"), s("token-1"), s("carol.near"))
        .unwrap();
    assert_eq!(effects.transfers, vec![]);
    assert_eq!(effects.events.len(), 1);
    assert_eq!(bids(&market), vec![(s("alice.near"), 100)]);
}

#[test]
fn cancelling_needs_bids_a_listing_and_one_unit_attached() {
    let mut market = with_auction();
    assert_eq!(
        market.cancel_bid(&call("alice.near", 1, START + 3), s("nft.near"), s("token-1"), s("alice.near")),
        Err(MarketError::NoBids)
    );
    assert_eq!(
        market.cancel_bid(&call("alice.near", 1, START + 3), s("nft.near"), s("token-2"), s("alice.near")),
        Err(MarketError::ListingNotFound)
    );
    assert_eq!(
        market.cancel_bid(&call("alice.near", 0, START + 3), s("nft.near"), s("token-2"), s("alice.near")),
        Err(MarketError::RequiresOneYocto)
    );
    assert_eq!(
        market.cancel_bid(&call("alice.near", 2, START + 3), s("nft.near"), s("token-1"), s("alice.near")),
        Err(MarketError::RequiresOneYocto)
    );
}

#[test]
fn the_seller_accepts_the_top_bid_after_the_end() {
    let mut market = with_auction();
    bid(&mut market, "alice.near", 100, START + 1).unwrap();
    bid(&mut market, "bob.near", 110, START + 2).unwrap();
    bid(&mut market, "carol.near", 200, START + 3).unwrap();
    let effects = market.accept_bid(&call("seller.near", 1, END), s("nft.near"), s("token-1")).unwrap();
    assert_eq!(
        effects,
        Effects {
            transfers: vec![refund("alice.near", 100), refund("bob.near", 110)],
            events: vec![],
            purchase: Some(Purchase {
                nft_contract_id: s("nft.near"),
                token_id: s("token-1"),
                buyer_id: s("carol.near"),
                price: 200,
                market_data: MarketData {
                    owner_id: s("seller.near"),
                    approval_id: 7,
                    nft_contract_id: s("nft.near"),
                    token_id: s("token-1"),
                    price: 100,
                    bids: Some(vec![]),
                    started_at: Some(START),
                    ended_at: Some(END),
                    end_price: None,
                    is_auction: Some(true),
                },
            }),
        }
    );
    assert!(!market.market.contains_key(&s("nft.near||token-1")));
    assert_eq!(market.get_supply_by_owner_id(s("seller.near")), 0);
    // a listing is settled at most once
    assert_eq!(
        market.accept_bid(&call("seller.near", 1, END), s("nft.near"), s("token-1")),
        Err(MarketError::ListingNotFound)
    );
}

#[test]
fn the_top_bidder_accepts_after_the_end() {
    let mut market = with_auction();
    bid(&mut market, "alice.near", 100, START + 1).unwrap();
    let effects = market.accept_bid(&call("alice.near", 1, END + 1), s("nft.near"), s("token-1")).unwrap();
    assert_eq!(effects.transfers, vec![]);
    assert_eq!(effects.purchase.unwrap().buyer_id, "alice.near");
}

#[test]
fn before_the_end_only_the_owner_accepts() {
    let mut market = with_auction();
    bid(&mut market, "alice.near", 100, START + 1).unwrap();
    assert_eq!(
        market.accept_bid(&call("seller.near", 1, END - 1), s("nft.near"), s("token-1")),
        Err(MarketError::AuctionNotEnded)
    );
    assert_eq!(
        market.accept_bid(&call("alice.near", 1, END - 1), s("nft.near"), s("token-1")),
        Err(MarketError::AuctionNotEnded)
    );
    assert_eq!(bids(&market), vec![(s("alice.near"), 100)]);
    let effects = market.accept_bid(&call("owner.near", 1, END - 1), s("nft.near"), s("token-1")).unwrap();
    assert_eq!(effects.purchase.unwrap().price, 100);
}

#[test]
fn a_bidder_who_is_not_on_top_cannot_accept() {
    let mut market = with_auction();
    bid(&mut market, "alice.near", 100, START + 1).unwrap();
    bid(&mut market, "bob.near", 110, START + 2).unwrap();
    assert_eq!(
        market.accept_bid(&call("alice.near", 1, END), s("nft.near"), s("token-1")),
        Err(MarketError::NotSellerOwnerOrTopBidder)
    );
    assert_eq!(
        market.accept_bid(&call("dave.near", 1, END), s("nft.near"), s("token-1")),
        Err(MarketError::NotSellerOwnerOrTopBidder)
    );
}

#[test]
fn accepting_needs_bids_a_listing_and_one_unit_attached() {
    let mut market = with_auction();
    assert_eq!(
        market.accept_bid(&call("seller.near", 1, END), s("nft.near"), s("token-1")),
        Err(MarketError::NoBids)
    );
    assert_eq!(
        market.accept_bid(&call("seller.near", 1, END), s("nft.near"), s("token-2")),
        Err(MarketError::ListingNotFound)
    );
    assert_eq!(
        market.accept_bid(&call("seller.near", 0, END), s("nft.near"), s("token-1")),
        Err(MarketError::RequiresOneYocto)
    );
}

#[test]
fn a_dutch_auction_takes_no_acceptance() {
    let mut market =
        Marketplace::new(s("owner.near"), s("treasury.near"), Some(vec![s("nft.near")]), 250);
    market.storage_deposit(&call("seller.near", STORAGE_ADD_MARKET_DATA, START), None).unwrap();
    let args = MarketArgs {
        price: Some(100),
        started_at: None,
        ended_at: Some(END),
        is_auction: Some(true),
        end_price: Some(10),
    };
    market.nft_on_approve(&approval("seller.near", START), s("token-1"), s("seller.near"), 7, Some(args))
        .unwrap();
    bid(&mut market, "alice.near", 100, START + 1).unwrap();
    assert_eq!(
        market.accept_bid(&call("seller.near", 1, END), s("nft.near"), s("token-1")),
        Err(MarketError::DutchAuction)
    );
    assert_eq!(bids(&market), vec![(s("alice.near"), 100)]);
}
