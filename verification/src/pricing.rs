//! Fee and price arithmetic: the treasury's share of a sale and the asking
//! price of a Dutch auction at a moment in time.

use vstd::prelude::*;

verus! {

/// The denominator of the fee rate: fees are given in parts per ten thousand.
pub const FEE_DENOMINATOR: u128 = 10_000;

/// The treasury's share of `price` at a rate of `fee_bps` parts per ten
/// thousand, rounded down.
pub open spec fn fee_of(price: nat, fee_bps: nat) -> nat {
    price * fee_bps / 10_000
}

/// The asking price of a Dutch auction at time `now`: the starting price
/// before the window opens, the end price after it has closed, and in between
/// the starting price lowered by a whole per-unit-of-time step for each unit
/// of time elapsed.
pub open spec fn dutch_price_at(
    start_price: nat,
    end_price: nat,
    started_at: nat,
    ended_at: nat,
    now: nat,
) -> int {
    if now < started_at {
        start_price as int
    } else if now > ended_at {
        end_price as int
    } else {
        start_price - ((start_price - end_price) / (ended_at - started_at)) * (now - started_at)
    }
}

/// The total amount by which the price has dropped after `elapsed` units of
/// time never exceeds the whole span between starting and end price.
pub proof fn lemma_decay_bounded(span: int, duration: int, elapsed: int)
    requires
        0 <= span,
        0 < duration,
        0 <= elapsed <= duration,
    ensures
        0 <= (span / duration) * elapsed <= span,
{
    let step: int = span / duration;
    assert(0 <= step) by (nonlinear_arith)
        requires
            0 <= span,
            0 < duration,
            step == span / duration,
    ;
    assert(step * duration <= span) by (nonlinear_arith)
        requires
            0 <= span,
            0 < duration,
            step == span / duration,
    ;
    assert(0 <= step * elapsed <= step * duration) by (nonlinear_arith)
        requires
            0 <= step,
            0 <= elapsed <= duration,
    ;
}

/// A Dutch auction's price never leaves the interval between its end price
/// and its starting price.
pub proof fn lemma_dutch_price_within_bounds(
    start_price: nat,
    end_price: nat,
    started_at: nat,
    ended_at: nat,
    now: nat,
)
    requires
        end_price <= start_price,
        started_at < ended_at,
    ensures
        end_price <= dutch_price_at(start_price, end_price, started_at, ended_at, now)
            <= start_price,
{
    if started_at <= now <= ended_at {
        lemma_decay_bounded(start_price - end_price, ended_at - started_at, now - started_at);
    }
}

/// A Dutch auction's price never rises as time passes.
pub proof fn lemma_dutch_price_monotone(
    start_price: nat,
    end_price: nat,
    started_at: nat,
    ended_at: nat,
    earlier: nat,
    later: nat,
)
    requires
        end_price <= start_price,
        started_at < ended_at,
        earlier <= later,
    ensures
        dutch_price_at(start_price, end_price, started_at, ended_at, later) <= dutch_price_at(
            start_price,
            end_price,
            started_at,
            ended_at,
            earlier,
        ),
{
    lemma_dutch_price_within_bounds(start_price, end_price, started_at, ended_at, earlier);
    lemma_dutch_price_within_bounds(start_price, end_price, started_at, ended_at, later);
    if started_at <= earlier && later <= ended_at {
        let step: int = (start_price - end_price) / (ended_at - started_at);
        assert(0 <= step) by (nonlinear_arith)
            requires
                0 <= start_price - end_price,
                0 < ended_at - started_at,
                step == (start_price - end_price) / (ended_at - started_at),
        ;
        assert(step * (earlier - started_at) <= step * (later - started_at))
            by (nonlinear_arith)
            requires
                0 <= step,
                earlier <= later,
        ;
    }
}

/// Computes the treasury's share of a sale, or `None` where that share is
/// too large for 128 bits (which takes a rate above the whole).
pub fn treasury_fee(price: u128, fee_bps: u16) -> (fee: Option<u128>)
    ensures
        fee == (if fee_of(price as nat, fee_bps as nat) <= u128::MAX {
            Some(fee_of(price as nat, fee_bps as nat) as u128)
        } else {
            None
        }),
{
    let rate: u128 = fee_bps as u128;
    let whole: u128 = price / FEE_DENOMINATOR;
    let rest: u128 = price % FEE_DENOMINATOR;
    assert(rest * rate <= 10_000 * 65_535) by (nonlinear_arith)
        requires
            rest < 10_000,
            rate <= 65_535,
    ;
    let rest_fee: u128 = rest * rate / FEE_DENOMINATOR;
    proof {
        let p: int = price as int;
        let b: int = fee_bps as int;
        let q: int = p / 10_000;
        let r: int = p % 10_000;
        assert(p == q * 10_000 + r && 0 <= r < 10_000) by (nonlinear_arith)
            requires
                q == p / 10_000,
                r == p % 10_000,
        ;
        assert(p * b == (q * b) * 10_000 + r * b) by (nonlinear_arith)
            requires
                p == q * 10_000 + r,
        ;
        vstd::arithmetic::div_mod::lemma_div_multiples_vanish_fancy(q * b, 0, 10_000);
        vstd::arithmetic::div_mod::lemma_hoist_over_denominator(r * b, q * b, 10_000);
        assert((p * b) / 10_000 == q * b + (r * b) / 10_000);
        assert(0 <= (r * b) / 10_000 <= 65_535) by (nonlinear_arith)
            requires
                0 <= r < 10_000,
                0 <= b <= 65_535,
        ;
        assert(0 <= q * b) by (nonlinear_arith)
            requires
                0 <= q,
                0 <= b,
        ;
    }
    match whole.checked_mul(rate) {
        Some(whole_fee) => whole_fee.checked_add(rest_fee),
        None => None,
    }
}

/// The fee that a sale at `price` bears: the treasury's share, and never
/// more than the price itself, whatever the rate.
pub open spec fn sale_fee_of(price: u128, fee_bps: u16) -> u128 {
    if fee_of(price as nat, fee_bps as nat) > price {
        price
    } else {
        fee_of(price as nat, fee_bps as nat) as u128
    }
}

/// At a rate of no more than the whole, the fee of a sale is the treasury's
/// share as it stands.
pub proof fn lemma_sale_fee_at_a_proper_rate(price: u128, fee_bps: u16)
    requires
        fee_bps <= 10_000,
    ensures
        sale_fee_of(price, fee_bps) == fee_of(price as nat, fee_bps as nat),
{
    assert(price * fee_bps / 10_000 <= price) by (nonlinear_arith)
        requires
            0 <= price,
            0 <= fee_bps <= 10_000,
    ;
}

/// Computes the fee that a sale at `price` bears.
pub fn sale_fee(price: u128, fee_bps: u16) -> (fee: u128)
    ensures
        fee == sale_fee_of(price, fee_bps),
        fee <= price,
{
    match treasury_fee(price, fee_bps) {
        Some(fee) => if fee > price {
            price
        } else {
            fee
        },
        None => price,
    }
}

/// Computes the asking price of a Dutch auction at time `now`.
pub fn dutch_price(
    start_price: u128,
    end_price: u128,
    started_at: u64,
    ended_at: u64,
    now: u64,
) -> (price: u128)
    requires
        end_price <= start_price,
        started_at < ended_at,
    ensures
        price == dutch_price_at(
            start_price as nat,
            end_price as nat,
            started_at as nat,
            ended_at as nat,
            now as nat,
        ),
        end_price <= price <= start_price,
{
    proof {
        lemma_dutch_price_within_bounds(
            start_price as nat,
            end_price as nat,
            started_at as nat,
            ended_at as nat,
            now as nat,
        );
    }
    if now < started_at {
        start_price
    } else if now > ended_at {
        end_price
    } else {
        let elapsed: u128 = (now - started_at) as u128;
        let duration: u128 = (ended_at - started_at) as u128;
        let step: u128 = (start_price - end_price) / duration;
        proof {
            lemma_decay_bounded(
                start_price - end_price,
                ended_at - started_at,
                now - started_at,
            );
        }
        start_price - step * elapsed
    }
}

} // verus!
