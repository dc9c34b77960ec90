use marketplace::auction::{accept_top_bid, place_bid, withdraw_bid, BidPlaced};
use marketplace::bids::{holds_bid_from, meets_required_bid, refund_all, remove_bidder};
use marketplace::types::{clone_bids, Bid, MarketData, MarketError, Transfer, FIVE_MINUTES};

fn s(text: &str) -> String {
    text.to_string()
}

fn bid(bidder: &str, price: u128, time: u64) -> Bid {
    Bid { bidder_id: s(bidder), price, time }
}

fn refund(receiver: &str, amount: u128) -> Transfer {
    Transfer { receiver_id: s(receiver), amount }
}

fn auction(bids: Option<Vec<Bid>>) -> MarketData {
    MarketData {
        owner_id: s("seller.near"),
        approval_id: 7,
        nft_contract_id: s("nft.near"),
        token_id: s("token-1"),
        price: 100,
        bids,
        started_at: Some(1000),
        ended_at: Some(10 * FIVE_MINUTES),
        end_price: None,
        is_auction: Some(true),
    }
}

#[test]
fn the_required_bid_is_the_starting_price_or_the_latest_bid_and_a_tenth() {
    assert!(meets_required_bid(&vec![], 100, 100));
    assert!(!meets_required_bid(&vec![], 100, 99));
    assert!(meets_required_bid(&vec![], 0, 0));
    let bids = vec![bid("a.near", 100, 1), bid("b.near", 250, 2)];
    assert!(meets_required_bid(&bids, 100, 275));
    assert!(!meets_required_bid(&bids, 100, 274));
    let bids = vec![bid("a.near", 9, 1)];
    assert!(meets_required_bid(&bids, 100, 9));
    assert!(!meets_required_bid(&bids, 100, 8));
    let bids = vec![bid("a.near", u128::MAX - 5, 1)];
    assert!(!meets_required_bid(&bids, 100, u128::MAX));
}

#[test]
fn looking_for_a_bidder() {
    let bids = vec![bid("a.near", 100, 1), bid("b.near", 250, 2)];
    assert!(holds_bid_from(&bids, &s("a.near")));
    assert!(holds_bid_from(&bids, &s("b.near")));
    assert!(!holds_bid_from(&bids, &s("c.near")));
    assert!(!holds_bid_from(&vec![], &s("a.near")));
}

#[test]
fn removing_a_bidder_keeps_the_others_in_order() {
    let bids =
        vec![bid("a.near", 100, 1), bid("b.near", 110, 2), bid("a.near", 121, 3), bid("c.near", 140, 4)];
    let (kept, refunds) = remove_bidder(&bids, &s("a.near"));
    assert_eq!(kept, vec![bid("b.near", 110, 2), bid("c.near", 140, 4)]);
    assert_eq!(refunds, vec![refund("a.near", 100), refund("a.near", 121)]);
    let (kept, refunds) = remove_bidder(&bids, &s("z.near"));
    assert_eq!(kept, bids);
    assert_eq!(refunds, vec![]);
    let (kept, refunds) = remove_bidder(&vec![], &s("a.near"));
    assert_eq!(kept, vec![]);
    assert_eq!(refunds, vec![]);
}

#[test]
fn refunding_every_bid() {
    let bids = vec![bid("a.near", 100, 1), bid("b.near", 110, 2)];
    assert_eq!(refund_all(&bids), vec![refund("a.near", 100), refund("b.near", 110)]);
    assert_eq!(refund_all(&vec![]), vec![]);
    assert_eq!(clone_bids(&bids), bids);
    assert_eq!(bids[0].clone(), bid("a.near", 100, 1));
    assert_eq!(auction(Some(bids)).clone(), auction(Some(vec![bid("a.near", 100, 1), bid("b.near", 110, 2)])));
}

#[test]
fn placing_a_bid_on_a_listing() {
    let listing = auction(Some(vec![bid("a.near", 100, 1000)]));
    let placed = place_bid(&listing, &s("b.near"), 110, 110, 2000).unwrap();
    assert_eq!(
        placed,
        BidPlaced {
            listing: auction(Some(vec![bid("a.near", 100, 1000), bid("b.near", 110, 2000)])),
            refunds: vec![],
            extended_to: None,
            evicted: None,
        }
    );
    assert_eq!(place_bid(&listing, &s("b.near"), 110, 110, 999), Err(MarketError::NotStarted));
    assert_eq!(place_bid(&listing, &s("b.near"), 110, 110, 10 * FIVE_MINUTES + 1), Err(MarketError::Ended));
    assert_eq!(place_bid(&listing, &s("seller.near"), 110, 110, 2000), Err(MarketError::OwnerBid));
    assert_eq!(place_bid(&listing, &s("b.near"), 110, 109, 2000), Err(MarketError::DepositBelowAmount));
    assert_eq!(place_bid(&listing, &s("b.near"), 109, 109, 2000), Err(MarketError::BidTooLow));
}

#[test]
fn a_first_bid_gives_a_listing_its_bid_history() {
    let placed = place_bid(&auction(None), &s("a.near"), 100, 100, 9 * FIVE_MINUTES).unwrap();
    let mut expected = auction(Some(vec![bid("a.near", 100, 9 * FIVE_MINUTES)]));
    expected.ended_at = Some(11 * FIVE_MINUTES);
    assert_eq!(placed.listing, expected);
    assert_eq!(placed.extended_to, Some(11 * FIVE_MINUTES));
    assert_eq!(place_bid(&auction(None), &s("a.near"), 99, 100, 2000), Err(MarketError::BidTooLow));
}

#[test]
fn withdrawing_a_bid_from_a_listing() {
    let listing = auction(Some(vec![bid("a.near", 100, 1), bid("b.near", 110, 2)]));
    let (updated, refunds) = withdraw_bid(&listing, &s("owner.near"), &s("b.near"), &s("b.near")).unwrap();
    assert_eq!(updated, auction(Some(vec![bid("a.near", 100, 1)])));
    assert_eq!(refunds, vec![refund("b.near", 110)]);
    assert_eq!(
        withdraw_bid(&listing, &s("owner.near"), &s("a.near"), &s("b.near")),
        Err(MarketError::NotBidderOrOwner)
    );
    assert_eq!(withdraw_bid(&auction(None), &s("owner.near"), &s("a.near"), &s("a.near")), Err(MarketError::NoBids));
    assert_eq!(
        withdraw_bid(&auction(Some(vec![])), &s("owner.near"), &s("a.near"), &s("a.near")),
        Err(MarketError::NoBids)
    );
}

#[test]
fn accepting_the_top_bid_of_a_listing() {
    let listing = auction(Some(vec![bid("a.near", 100, 1), bid("b.near", 110, 2)]));
    let (purchase, refunds) =
        accept_top_bid(&listing, &s("token-1"), &s("owner.near"), &s("seller.near"), 10 * FIVE_MINUTES).unwrap();
    assert_eq!(purchase.buyer_id, "b.near");
    assert_eq!(purchase.price, 110);
    assert_eq!(purchase.nft_contract_id, "nft.near");
    assert_eq!(purchase.token_id, "token-1");
    assert_eq!(purchase.market_data, auction(Some(vec![])));
    assert_eq!(refunds, vec![refund("a.near", 100)]);
    assert_eq!(
        accept_top_bid(&auction(None), &s("token-1"), &s("owner.near"), &s("seller.near"), 0),
        Err(MarketError::NoBids)
    );
    let mut open_ended = auction(Some(vec![bid("a.near", 100, 1)]));
    open_ended.ended_at = None;
    assert!(accept_top_bid(&open_ended, &s("token-1"), &s("owner.near"), &s("seller.near"), 0).is_ok());
}
