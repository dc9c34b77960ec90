use marketplace::listing::{create_listing, listing_key, quote_price};
use marketplace::pricing::{dutch_price, treasury_fee};
use marketplace::types::{MarketArgs, MarketData, MarketError};

fn terms(
    started_at: Option<u64>,
    ended_at: Option<u64>,
    is_auction: Option<bool>,
    end_price: Option<u128>,
) -> MarketArgs {
    MarketArgs { price: Some(1000), started_at, ended_at, is_auction, end_price }
}

fn listed(args: MarketArgs, now: u64) -> Result<MarketData, MarketError> {
    create_listing(
        &"seller.near".to_string(),
        7,
        &"nft.near".to_string(),
        &"token-1".to_string(),
        1000,
        args,
        now,
    )
}

#[test]
fn fee_of_a_thousand_at_two_and_a_half_percent_is_twenty_five() {
    assert_eq!(treasury_fee(1000, 250), Some(25));
}

#[test]
fn fee_is_rounded_down() {
    assert_eq!(treasury_fee(999, 250), Some(24));
    assert_eq!(treasury_fee(39, 250), Some(0));
    assert_eq!(treasury_fee(40, 250), Some(1));
    assert_eq!(treasury_fee(0, 10_000), Some(0));
    assert_eq!(treasury_fee(12_345, 0), Some(0));
}

#[test]
fn fee_of_the_largest_price_does_not_overflow() {
    assert_eq!(treasury_fee(u128::MAX, 10_000), Some(u128::MAX));
    assert_eq!(treasury_fee(u128::MAX, 5_000), Some(u128::MAX / 2));
    assert_eq!(treasury_fee(u128::MAX, 1), Some(u128::MAX / 10_000));
}

#[test]
fn fee_above_the_range_of_balances_is_none() {
    assert_eq!(treasury_fee(u128::MAX, 10_001), None);
    assert_eq!(treasury_fee(u128::MAX, u16::MAX), None);
}

#[test]
fn dutch_price_before_the_window_is_the_starting_price() {
    assert_eq!(dutch_price(1000, 100, 2000, 2900, 0), 1000);
    assert_eq!(dutch_price(1000, 100, 2000, 2900, 1999), 1000);
}

#[test]
fn dutch_price_after_the_window_is_the_end_price() {
    assert_eq!(dutch_price(1000, 100, 2000, 2900, 2901), 100);
    assert_eq!(dutch_price(1000, 100, 2000, 2900, u64::MAX), 100);
}

#[test]
fn dutch_price_falls_by_whole_steps() {
    assert_eq!(dutch_price(1000, 100, 2000, 2900, 2000), 1000);
    assert_eq!(dutch_price(1000, 100, 2000, 2900, 2300), 700);
    assert_eq!(dutch_price(1000, 100, 2000, 2900, 2900), 100);
    // a step of 900 / 7 = 128, so the price at the end of the window is still above the end price
    assert_eq!(dutch_price(1000, 100, 0, 7, 3), 1000 - 128 * 3);
    assert_eq!(dutch_price(1000, 100, 0, 7, 7), 1000 - 128 * 7);
    // a span shorter than the window gives a step of nothing
    assert_eq!(dutch_price(1000, 998, 0, 10, 5), 1000);
}

#[test]
fn dutch_price_never_rises_and_stays_within_its_bounds() {
    let mut last: u128 = u128::MAX;
    let mut now: u64 = 0;
    while now <= 120 {
        let price = dutch_price(5000, 1234, 10, 107, now);
        assert!(price <= last);
        assert!((1234..=5000).contains(&price));
        last = price;
        now += 1;
    }
    assert_eq!(last, 1234);
}

#[test]
fn key_is_contract_delimiter_item() {
    assert_eq!(listing_key(&"nft.near".to_string(), &"token-1".to_string()), "nft.near||token-1");
    assert_eq!(listing_key(&"".to_string(), &"".to_string()), "||");
}

#[test]
fn fixed_price_listing_has_no_bids_and_no_window() {
    let listing = listed(terms(None, None, None, None), 50).unwrap();
    assert_eq!(
        listing,
        MarketData {
            owner_id: "seller.near".to_string(),
            approval_id: 7,
            nft_contract_id: "nft.near".to_string(),
            token_id: "token-1".to_string(),
            price: 1000,
            bids: None,
            started_at: None,
            ended_at: None,
            end_price: None,
            is_auction: None,
        }
    );
}

#[test]
fn auction_starts_now_with_an_empty_bid_history() {
    let listing = listed(terms(None, Some(500), Some(true), None), 50).unwrap();
    assert_eq!(listing.bids, Some(vec![]));
    assert_eq!(listing.started_at, Some(50));
    assert_eq!(listing.ended_at, Some(500));
    assert_eq!(listing.is_auction, Some(true));
}

#[test]
fn a_start_in_the_past_becomes_now() {
    let listing = listed(terms(Some(10), Some(500), None, None), 50).unwrap();
    assert_eq!(listing.started_at, Some(50));
    let listing = listed(terms(Some(50), Some(500), None, None), 50).unwrap();
    assert_eq!(listing.started_at, Some(50));
    let listing = listed(terms(Some(51), Some(500), None, None), 50).unwrap();
    assert_eq!(listing.started_at, Some(51));
}

#[test]
fn a_listing_marked_as_no_auction_has_no_bid_history() {
    let listing = listed(terms(None, None, Some(false), None), 50).unwrap();
    assert_eq!(listing.bids, None);
    assert_eq!(listing.started_at, None);
}

#[test]
fn a_window_that_does_not_start_before_its_end_is_refused() {
    assert_eq!(listed(terms(Some(500), Some(500), None, None), 50), Err(MarketError::InvalidWindow));
    assert_eq!(listed(terms(Some(600), Some(500), None, None), 50), Err(MarketError::InvalidWindow));
    // the start is moved to now, which is not before the end
    assert_eq!(listed(terms(Some(10), Some(50), None, None), 50), Err(MarketError::InvalidWindow));
    // an auction without a start begins now, which is not before the end
    assert_eq!(listed(terms(None, Some(50), Some(true), None), 50), Err(MarketError::InvalidWindow));
}

#[test]
fn an_auction_without_an_end_is_refused() {
    assert_eq!(listed(terms(None, None, Some(true), None), 50), Err(MarketError::NoEndTime));
    assert_eq!(listed(terms(Some(60), None, Some(true), None), 50), Err(MarketError::NoEndTime));
}

#[test]
fn an_end_in_the_past_is_refused() {
    assert_eq!(listed(terms(None, Some(49), None, None), 50), Err(MarketError::EndInPast));
    assert_eq!(listed(terms(None, Some(49), Some(true), None), 50), Err(MarketError::EndInPast));
    assert!(listed(terms(None, Some(50), None, None), 50).is_ok());
}

#[test]
fn an_end_price_that_is_not_below_the_price_is_refused() {
    assert_eq!(
        listed(terms(None, None, None, Some(1000)), 50),
        Err(MarketError::EndPriceNotBelowPrice)
    );
    assert_eq!(
        listed(terms(None, None, None, Some(1001)), 50),
        Err(MarketError::EndPriceNotBelowPrice)
    );
    assert!(listed(terms(None, None, None, Some(999)), 50).is_ok());
}

#[test]
fn a_fixed_price_listing_asks_its_price() {
    let listing = listed(terms(None, None, None, None), 50).unwrap();
    assert_eq!(quote_price(&listing, 0), Ok(1000));
    assert_eq!(quote_price(&listing, u64::MAX), Ok(1000));
}

#[test]
fn an_end_price_and_a_window_make_a_dutch_auction_whatever_the_auction_flag() {
    for flag in [None, Some(false), Some(true)] {
        let listing = listed(terms(Some(2000), Some(2900), flag, Some(100)), 50).unwrap();
        assert_eq!(quote_price(&listing, 1500), Ok(1000));
        assert_eq!(quote_price(&listing, 2000), Ok(1000));
        assert_eq!(quote_price(&listing, 2300), Ok(700));
        assert_eq!(quote_price(&listing, 2900), Ok(100));
        assert_eq!(quote_price(&listing, 3000), Ok(100));
    }
}

#[test]
fn an_unflagged_listing_asks_its_end_price_after_the_window() {
    let listing = MarketData {
        owner_id: "seller.near".to_string(),
        approval_id: 7,
        nft_contract_id: "nft.near".to_string(),
        token_id: "token-1".to_string(),
        price: 1000,
        bids: None,
        started_at: Some(100),
        ended_at: Some(200),
        end_price: Some(500),
        is_auction: None,
    };
    assert_eq!(quote_price(&listing, 300), Ok(500));
    assert_eq!(quote_price(&listing, 99), Ok(1000));
    assert_eq!(quote_price(&listing, 100), Ok(1000));
    assert_eq!(quote_price(&listing, 150), Ok(750));
    assert_eq!(quote_price(&listing, 200), Ok(500));
    assert_eq!(quote_price(&listing, 201), Ok(500));
}

#[test]
fn an_unflagged_listing_without_a_whole_window_asks_its_price() {
    let listing = listed(terms(None, Some(2900), None, Some(100)), 50).unwrap();
    assert_eq!(quote_price(&listing, 3000), Ok(1000));
    let listing = listed(terms(Some(2000), None, None, Some(100)), 50).unwrap();
    assert_eq!(quote_price(&listing, 3000), Ok(1000));
    let listing = listed(terms(None, None, None, Some(100)), 50).unwrap();
    assert_eq!(quote_price(&listing, 3000), Ok(1000));
}

#[test]
fn a_dutch_auction_asks_the_falling_price() {
    let listing = listed(terms(Some(2000), Some(2900), Some(false), Some(100)), 50).unwrap();
    assert_eq!(quote_price(&listing, 1500), Ok(1000));
    assert_eq!(quote_price(&listing, 2000), Ok(1000));
    assert_eq!(quote_price(&listing, 2300), Ok(700));
    assert_eq!(quote_price(&listing, 2900), Ok(100));
    assert_eq!(quote_price(&listing, 3000), Ok(100));
}

#[test]
fn a_dutch_auction_without_a_window_cannot_be_quoted() {
    let listing = listed(terms(None, Some(2900), Some(false), Some(100)), 50).unwrap();
    assert_eq!(quote_price(&listing, 2300), Err(MarketError::NoStartTime));
    let listing = listed(terms(Some(2000), None, Some(false), Some(100)), 50).unwrap();
    assert_eq!(quote_price(&listing, 2300), Err(MarketError::NoEndTime));
}

#[test]
fn a_malformed_dutch_auction_cannot_be_quoted_inside_its_window() {
    let mut listing = listed(terms(Some(2000), Some(2900), Some(false), Some(100)), 50).unwrap();
    listing.ended_at = Some(2000);
    assert_eq!(quote_price(&listing, 2000), Err(MarketError::InvalidWindow));
    assert_eq!(quote_price(&listing, 1999), Ok(1000));
    assert_eq!(quote_price(&listing, 2001), Ok(100));
    listing.ended_at = Some(2900);
    listing.end_price = Some(1001);
    assert_eq!(quote_price(&listing, 2300), Err(MarketError::EndPriceNotBelowPrice));
}
