//! Fee computation in basis points.

use vstd::prelude::*;

verus! {

/// One hundred percent, in basis points.
pub const BPS_DENOMINATOR: u32 = 10000;

/// Why a fee quote was refused.
#[derive(Copy, Clone, Debug, PartialEq, Eq, PartialOrd, Ord, Hash, Structural)]
pub enum FeeError {
    /// The principal is zero or negative.
    InvalidAmount,
    /// The two fees together reach or exceed the principal.
    FeeExceedsPrincipal,
}

/// The fee on `amount` at `bps` basis points, rounded down.
pub open spec fn fee_of(amount: int, bps: int) -> int {
    amount * bps / 10000
}

/// What `compute_fees` answers for each input.
pub open spec fn fee_quote(amount: int, platform_bps: int, merchant_bps: int) -> Result<
    (int, int),
    FeeError,
> {
    if amount <= 0 {
        Err(FeeError::InvalidAmount)
    } else if fee_of(amount, platform_bps) + fee_of(amount, merchant_bps) >= amount {
        Err(FeeError::FeeExceedsPrincipal)
    } else {
        Ok((fee_of(amount, platform_bps), fee_of(amount, merchant_bps)))
    }
}

/// A rate of a full hundred percent or more takes at least the whole principal.
pub proof fn lemma_full_rate_takes_all(amount: int, bps: int)
    requires
        amount > 0,
        bps >= 10000,
    ensures
        fee_of(amount, bps) >= amount,
{
    assert(amount * bps >= amount * 10000) by (nonlinear_arith)
        requires
            amount > 0,
            bps >= 10000,
    ;
    assert(amount * 10000 / 10000 == amount) by (nonlinear_arith);
    assert(amount * bps / 10000 >= amount * 10000 / 10000) by (nonlinear_arith)
        requires
            amount * bps >= amount * 10000,
    ;
}

/// Splitting the principal into whole ten-thousands and a remainder gives the
/// same fee as the direct product, without a wide intermediate.
pub proof fn lemma_fee_split(amount: int, bps: int)
    requires
        amount >= 0,
        bps >= 0,
    ensures
        fee_of(amount, bps) == (amount / 10000) * bps + (amount % 10000) * bps / 10000,
        0 <= (amount / 10000) * bps <= fee_of(amount, bps),
        0 <= (amount % 10000) * bps,
{
    let q = amount / 10000;
    let r = amount % 10000;
    assert(amount == q * 10000 + r && 0 <= r < 10000 && q >= 0) by (nonlinear_arith)
        requires
            amount >= 0,
            q == amount / 10000,
            r == amount % 10000,
    ;
    assert(amount * bps == (q * bps) * 10000 + r * bps) by (nonlinear_arith)
        requires
            amount == q * 10000 + r,
    ;
    assert(r * bps >= 0 && q * bps >= 0) by (nonlinear_arith)
        requires
            r >= 0,
            q >= 0,
            bps >= 0,
    ;
    assert(((q * bps) * 10000 + r * bps) / 10000 == q * bps + (r * bps) / 10000) by (nonlinear_arith)
        requires
            r * bps >= 0,
    ;
    assert((r * bps) / 10000 >= 0) by (nonlinear_arith)
        requires
            r * bps >= 0,
    ;
}

/// A fee never exceeds the principal while the rate stays within a hundred percent.
pub proof fn lemma_fee_bounds(amount: int, bps: int)
    requires
        amount >= 0,
        0 <= bps <= 10000,
    ensures
        0 <= fee_of(amount, bps) <= amount,
{
    assert(0 <= amount * bps <= amount * 10000) by (nonlinear_arith)
        requires
            amount >= 0,
            0 <= bps <= 10000,
    ;
    assert(amount * 10000 / 10000 == amount) by (nonlinear_arith);
    assert(0 <= amount * bps / 10000 <= amount * 10000 / 10000) by (nonlinear_arith)
        requires
            0 <= amount * bps <= amount * 10000,
    ;
}

/// Whenever the two rates together stay below a hundred percent, both fees are
/// non-negative, their sum is below the principal, and a quote is given.
pub proof fn lemma_fees_below_principal(amount: int, platform_bps: int, merchant_bps: int)
    requires
        amount > 0,
        platform_bps >= 0,
        merchant_bps >= 0,
        platform_bps + merchant_bps < 10000,
    ensures
        fee_of(amount, platform_bps) >= 0,
        fee_of(amount, merchant_bps) >= 0,
        fee_of(amount, platform_bps) + fee_of(amount, merchant_bps) < amount,
        fee_quote(amount, platform_bps, merchant_bps) == Ok::<(int, int), FeeError>(
            (fee_of(amount, platform_bps), fee_of(amount, merchant_bps)),
        ),
{
    let x = amount * platform_bps;
    let y = amount * merchant_bps;
    assert(x >= 0 && y >= 0 && x + y == amount * (platform_bps + merchant_bps)) by (nonlinear_arith)
        requires
            amount > 0,
            platform_bps >= 0,
            merchant_bps >= 0,
            x == amount * platform_bps,
            y == amount * merchant_bps,
    ;
    assert(x + y <= amount * 9999) by (nonlinear_arith)
        requires
            amount > 0,
            platform_bps + merchant_bps <= 9999,
            x + y == amount * (platform_bps + merchant_bps),
    ;
    assert(x / 10000 >= 0 && y / 10000 >= 0 && (x / 10000 + y / 10000) * 10000 <= x + y)
        by (nonlinear_arith)
        requires
            x >= 0,
            y >= 0,
    ;
    assert(x / 10000 + y / 10000 < amount) by (nonlinear_arith)
        requires
            (x / 10000 + y / 10000) * 10000 <= x + y,
            x + y <= amount * 9999,
            amount > 0,
    ;
}

/// Quotes the platform fee and the merchant fee on `amount`.
///
/// Each fee is `amount * bps / 10000` rounded down, computed exactly for every
/// 128-bit principal. The quote is refused when the principal is not positive
/// or when the fees together would reach it.
pub fn compute_fees(amount: i128, platform_bps: u32, merchant_bps: u32) -> (quote: Result<
    (i128, i128),
    FeeError,
>)
    ensures
        match fee_quote(amount as int, platform_bps as int, merchant_bps as int) {
            Ok((p, m)) => quote == Ok::<(i128, i128), FeeError>((p as i128, m as i128)) && 0 <= p
                < amount && 0 <= m < amount,
            Err(e) => quote == Err::<(i128, i128), FeeError>(e),
        },
{
    if amount <= 0 {
        return Err(FeeError::InvalidAmount);
    }
    if platform_bps >= 10000 || merchant_bps >= 10000 {
        proof {
            if platform_bps >= 10000 {
                lemma_full_rate_takes_all(amount as int, platform_bps as int);
                lemma_fee_split(amount as int, merchant_bps as int);
            } else {
                lemma_full_rate_takes_all(amount as int, merchant_bps as int);
                lemma_fee_split(amount as int, platform_bps as int);
            }
        }
        return Err(FeeError::FeeExceedsPrincipal);
    }
    let platform_fee = fee_at(amount, platform_bps);
    let merchant_fee = fee_at(amount, merchant_bps);
    if platform_fee >= amount - merchant_fee {
        Err(FeeError::FeeExceedsPrincipal)
    } else {
        Ok((platform_fee, merchant_fee))
    }
}

/// The fee on a non-negative `amount` at a rate of at most a hundred percent.
fn fee_at(amount: i128, bps: u32) -> (fee: i128)
    requires
        amount >= 0,
        bps <= 10000,
    ensures
        fee == fee_of(amount as int, bps as int),
        0 <= fee <= amount,
{
    let rate: i128 = bps as i128;
    let whole: i128 = amount / 10000;
    let rest: i128 = amount % 10000;
    proof {
        lemma_fee_split(amount as int, bps as int);
        lemma_fee_bounds(amount as int, bps as int);
        assert(0 <= rest < 10000);
        assert(rest * rate <= 10000 * 10000) by (nonlinear_arith)
            requires
                0 <= rest < 10000,
                0 <= rate <= 10000,
        ;
    }
    whole * rate + rest * rate / 10000
}

} // verus!
