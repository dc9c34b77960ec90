//! A single listing: the key it is filed under, the rules that its terms
//! must meet when it is created, and the price it asks at a moment in time.

use crate::pricing::{dutch_price, dutch_price_at};
use crate::types::{Bid, BidView, ListingView, MarketArgs, MarketData, MarketError};
use vstd::prelude::*;
use vstd::string::StringExecFns;

verus! {

/// The delimiter between contract and item in a listing's key.
pub const DELIMETER: &'static str = "||";

/// The key under which the listing of item `token` of contract `contract` is
/// filed: the contract, the delimiter, the item.
pub open spec fn key_of(contract: Seq<char>, token: Seq<char>) -> Seq<char> {
    contract + seq!['|', '|'] + token
}

/// Two listings of contracts whose names hold no `|` are filed under the
/// same key only if they are listings of the same item of the same contract.
pub proof fn lemma_key_injective(c1: Seq<char>, t1: Seq<char>, c2: Seq<char>, t2: Seq<char>)
    requires
        !c1.contains('|'),
        !c2.contains('|'),
        key_of(c1, t1) == key_of(c2, t2),
    ensures
        c1 == c2,
        t1 == t2,
{
    let k1 = key_of(c1, t1);
    let k2 = key_of(c2, t2);
    assert(k1[c1.len() as int] == '|');
    assert(k2[c2.len() as int] == '|');
    if c1.len() < c2.len() {
        assert(k2[c1.len() as int] == c2[c1.len() as int]);
        assert(c2.contains(c2[c1.len() as int]));
    }
    if c2.len() < c1.len() {
        assert(k1[c2.len() as int] == c1[c2.len() as int]);
        assert(c1.contains(c1[c2.len() as int]));
    }
    assert forall|i: int| 0 <= i < c1.len() implies c1[i] == c2[i] by {
        assert(k1[i] == c1[i] && k2[i] == c2[i]);
    }
    assert(c1 =~= c2);
    assert(k1.len() == k2.len());
    assert forall|i: int| 0 <= i < t1.len() implies t1[i] == t2[i] by {
        assert(k1[c1.len() + 2 + i] == t1[i]);
        assert(k2[c2.len() + 2 + i] == t2[i]);
    }
    assert(t1 =~= t2);
}

/// Builds the key of a listing.
pub fn listing_key(nft_contract_id: &String, token_id: &String) -> (key: String)
    ensures
        key@ == key_of(nft_contract_id@, token_id@),
{
    proof {
        reveal_strlit("||");
    }
    let key: String = nft_contract_id.clone().concat(DELIMETER).concat(token_id.as_str());
    assert(key@ =~= key_of(nft_contract_id@, token_id@));
    key
}

/// What holds of every listing that the marketplace has created: an auction
/// has an end, a window's start lies before its end, and a Dutch auction ends
/// below the price it starts at.
pub open spec fn listing_ok(listing: ListingView) -> bool {
    &&& listing.is_auction == Some(true) ==> listing.ended_at.is_some()
    &&& listing.started_at.is_some() && listing.ended_at.is_some() ==> listing.started_at.unwrap()
        < listing.ended_at.unwrap()
    &&& listing.end_price.is_some() ==> listing.end_price.unwrap() < listing.price
}

/// The start of a new listing's window: a start that is given but not after
/// `now` becomes `now`, and an auction without a start begins at `now`.
pub open spec fn normalized_start(args: MarketArgs, now: u64) -> Option<u64> {
    match args.started_at {
        Some(start) => Some(if start <= now { now } else { start }),
        None => if args.is_auction == Some(true) {
            Some(now)
        } else {
            None
        },
    }
}

/// Why terms are refused as a new listing's, if they are.
pub open spec fn creation_rejection(price: u128, args: MarketArgs, now: u64) -> Option<
    MarketError,
> {
    let start = normalized_start(args, now);
    if args.started_at.is_some() && args.ended_at.is_some() && start.unwrap()
        >= args.ended_at.unwrap() {
        Some(MarketError::InvalidWindow)
    } else if args.is_auction == Some(true) && args.ended_at.is_none() {
        Some(MarketError::NoEndTime)
    } else if args.ended_at.is_some() && args.ended_at.unwrap() < now {
        Some(MarketError::EndInPast)
    } else if args.end_price.is_some() && args.end_price.unwrap() >= price {
        Some(MarketError::EndPriceNotBelowPrice)
    } else if start.is_some() && args.ended_at.is_some() && start.unwrap()
        >= args.ended_at.unwrap() {
        Some(MarketError::InvalidWindow)
    } else {
        None
    }
}

/// The listing that accepted terms create: an ascending auction starts with
/// an empty bid history, any other listing has none.
pub open spec fn created_listing(
    owner: Seq<char>,
    approval_id: u64,
    contract: Seq<char>,
    token: Seq<char>,
    price: u128,
    args: MarketArgs,
    now: u64,
) -> ListingView {
    ListingView {
        owner_id: owner,
        approval_id,
        nft_contract_id: contract,
        token_id: token,
        price,
        bids: if args.is_auction == Some(true) {
            Some(Seq::<BidView>::empty())
        } else {
            None
        },
        started_at: normalized_start(args, now),
        ended_at: args.ended_at,
        end_price: args.end_price,
        is_auction: args.is_auction,
    }
}

/// Every listing that is created is well formed.
pub proof fn lemma_created_listing_ok(
    owner: Seq<char>,
    approval_id: u64,
    contract: Seq<char>,
    token: Seq<char>,
    price: u128,
    args: MarketArgs,
    now: u64,
)
    requires
        creation_rejection(price, args, now).is_none(),
    ensures
        listing_ok(created_listing(owner, approval_id, contract, token, price, args, now)),
{
}

/// Makes a new listing out of the terms of a sale, or says why they are
/// refused.
pub fn create_listing(
    owner_id: &String,
    approval_id: u64,
    nft_contract_id: &String,
    token_id: &String,
    price: u128,
    args: MarketArgs,
    now: u64,
) -> (result: Result<MarketData, MarketError>)
    ensures
        match result {
            Ok(listing) => creation_rejection(price, args, now).is_none() && listing@
                == created_listing(
                owner_id@,
                approval_id,
                nft_contract_id@,
                token_id@,
                price,
                args,
                now,
            ),
            Err(e) => creation_rejection(price, args, now) == Some(e),
        },
{
    let start: Option<u64> = match args.started_at {
        Some(start) => Some(if start <= now { now } else { start }),
        None => match args.is_auction {
            Some(true) => Some(now),
            _ => None,
        },
    };
    let auction: bool = match args.is_auction {
        Some(true) => true,
        _ => false,
    };
    if let (Some(_), Some(s), Some(e)) = (args.started_at, start, args.ended_at) {
        if s >= e {
            return Err(MarketError::InvalidWindow);
        }
    }
    if auction && args.ended_at.is_none() {
        return Err(MarketError::NoEndTime);
    }
    if let Some(e) = args.ended_at {
        if e < now {
            return Err(MarketError::EndInPast);
        }
    }
    if let Some(p) = args.end_price {
        if p >= price {
            return Err(MarketError::EndPriceNotBelowPrice);
        }
    }
    if let (Some(s), Some(e)) = (start, args.ended_at) {
        if s >= e {
            return Err(MarketError::InvalidWindow);
        }
    }
    let bids: Option<Vec<Bid>> = if auction {
        Some(Vec::new())
    } else {
        None
    };
    let listing = MarketData {
        owner_id: owner_id.clone(),
        approval_id,
        nft_contract_id: nft_contract_id.clone(),
        token_id: token_id.clone(),
        price,
        bids,
        started_at: start,
        ended_at: args.ended_at,
        end_price: args.end_price,
        is_auction: args.is_auction,
    };
    assert(listing@.bids =~= created_listing(
        owner_id@,
        approval_id,
        nft_contract_id@,
        token_id@,
        price,
        args,
        now,
    ).bids) by {
        if auction {
            assert(crate::types::bids_view(listing.bids.unwrap()@) =~= Seq::<BidView>::empty());
        }
    }
    Ok(listing)
}

/// The price that a listing asks at time `now`. A listing with an end price
/// and both ends of a window is a Dutch auction: it asks its price before
/// the window, its end price after it, and inside it the price lowered by a
/// whole step for each unit of time since the start. Inside a window of no
/// length, or where the end price lies above the price, there is no such
/// price to quote. A listing with an end price that is marked as some kind
/// of auction but lacks an end of its window cannot be quoted either. Every
/// other listing asks its price as it stands.
pub open spec fn quoted_price(listing: ListingView, now: u64) -> Result<u128, MarketError> {
    if listing.end_price.is_some() && listing.started_at.is_some() && listing.ended_at.is_some() {
        if now < listing.started_at.unwrap() {
            Ok(listing.price)
        } else if now > listing.ended_at.unwrap() {
            Ok(listing.end_price.unwrap())
        } else if listing.started_at.unwrap() == listing.ended_at.unwrap() {
            Err(MarketError::InvalidWindow)
        } else if listing.end_price.unwrap() > listing.price {
            Err(MarketError::EndPriceNotBelowPrice)
        } else {
            Ok(
                dutch_price_at(
                    listing.price as nat,
                    listing.end_price.unwrap() as nat,
                    listing.started_at.unwrap() as nat,
                    listing.ended_at.unwrap() as nat,
                    now as nat,
                ) as u128,
            )
        }
    } else if listing.end_price.is_some() && listing.is_auction.is_some() {
        if listing.started_at.is_none() {
            Err(MarketError::NoStartTime)
        } else {
            Err(MarketError::NoEndTime)
        }
    } else {
        Ok(listing.price)
    }
}

/// The price of a well-formed listing with an end price and both ends of a
/// window can always be quoted, whether or not the listing is marked as an
/// auction: before the window it is the price, after the window the end
/// price, and inside the window the price less a whole step for each unit
/// of time since the start. It always lies between the end price and the
/// price.
pub proof fn lemma_quoted_price_of_dutch_auction(listing: ListingView, now: u64)
    requires
        listing_ok(listing),
        listing.end_price.is_some(),
        listing.started_at.is_some(),
        listing.ended_at.is_some(),
    ensures
        quoted_price(listing, now).is_ok(),
        now < listing.started_at.unwrap() ==> quoted_price(listing, now).unwrap() == listing.price,
        now > listing.ended_at.unwrap() ==> quoted_price(listing, now).unwrap()
            == listing.end_price.unwrap(),
        listing.started_at.unwrap() <= now <= listing.ended_at.unwrap() ==> quoted_price(
            listing,
            now,
        ).unwrap() == listing.price - ((listing.price - listing.end_price.unwrap()) / (
        listing.ended_at.unwrap() - listing.started_at.unwrap())) * (now
            - listing.started_at.unwrap()),
        listing.end_price.unwrap() <= quoted_price(listing, now).unwrap() <= listing.price,
{
    crate::pricing::lemma_dutch_price_within_bounds(
        listing.price as nat,
        listing.end_price.unwrap() as nat,
        listing.started_at.unwrap() as nat,
        listing.ended_at.unwrap() as nat,
        now as nat,
    );
}

/// The price of a well-formed listing never rises as time passes.
pub proof fn lemma_quoted_price_never_rises(listing: ListingView, earlier: u64, later: u64)
    requires
        listing_ok(listing),
        earlier <= later,
        quoted_price(listing, earlier).is_ok(),
        quoted_price(listing, later).is_ok(),
    ensures
        quoted_price(listing, later).unwrap() <= quoted_price(listing, earlier).unwrap(),
{
    if listing.end_price.is_some() && listing.started_at.is_some() && listing.ended_at.is_some() {
        lemma_quoted_price_of_dutch_auction(listing, earlier);
        lemma_quoted_price_of_dutch_auction(listing, later);
        crate::pricing::lemma_dutch_price_monotone(
            listing.price as nat,
            listing.end_price.unwrap() as nat,
            listing.started_at.unwrap() as nat,
            listing.ended_at.unwrap() as nat,
            earlier as nat,
            later as nat,
        );
    }
}

/// Quotes the price that a listing asks at time `now`.
pub fn quote_price(listing: &MarketData, now: u64) -> (result: Result<u128, MarketError>)
    ensures
        result == quoted_price(listing@, now),
{
    let end_price: u128 = match listing.end_price {
        Some(p) => p,
        None => {
            return Ok(listing.price);
        },
    };
    let (started_at, ended_at): (u64, u64) = match (listing.started_at, listing.ended_at) {
        (Some(s), Some(e)) => (s, e),
        (None, _) => {
            return if listing.is_auction.is_some() {
                Err(MarketError::NoStartTime)
            } else {
                Ok(listing.price)
            };
        },
        (Some(_), None) => {
            return if listing.is_auction.is_some() {
                Err(MarketError::NoEndTime)
            } else {
                Ok(listing.price)
            };
        },
    };
    if now < started_at {
        Ok(listing.price)
    } else if now > ended_at {
        Ok(end_price)
    } else if started_at == ended_at {
        Err(MarketError::InvalidWindow)
    } else if end_price > listing.price {
        Err(MarketError::EndPriceNotBelowPrice)
    } else {
        Ok(dutch_price(listing.price, end_price, started_at, ended_at, now))
    }
}

} // verus!
