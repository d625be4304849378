use vstd::prelude::*;

verus! {

/// Atomic units of one whole unit of a fixed-point rate (18 decimal places).
pub const DECIMAL_FRACTIONAL: u128 = 1_000_000_000_000_000_000;

/// The square of `DECIMAL_FRACTIONAL`; the numerator of a rate's inverse.
pub const DECIMAL_FRACTIONAL_SQUARED: u128 = 1_000_000_000_000_000_000_000_000_000_000_000_000;

/// `a * num / den`, floored, over the integers.
pub open spec fn ratio(a: int, num: int, den: int) -> int {
    a * num / den
}

/// An amount multiplied by a fixed-point rate given by its atomics, floored.
pub open spec fn rate_mul(amount: int, rate: int) -> int {
    ratio(amount, rate, DECIMAL_FRACTIONAL as int)
}

/// The multiplicative inverse of a non-zero fixed-point rate, floored.
pub open spec fn rate_inv(rate: int) -> int {
    DECIMAL_FRACTIONAL_SQUARED as int / rate
}

/// Relies on cosmwasm_std::Uint128::checked_multiply_ratio: `a * num / den`
/// floored, computed through a 256-bit product; an error for a zero
/// denominator or for a quotient that does not fit in 128 bits.
#[verifier::external_body]
fn checked_multiply_ratio(a: u128, num: u128, den: u128) -> (r: Option<u128>)
    ensures
        den == 0 ==> r is None,
        den > 0 ==> (r is Some <==> ratio(a as int, num as int, den as int) <= u128::MAX),
        r matches Some(v) ==> v == ratio(a as int, num as int, den as int),
{
    cosmwasm_std::Uint128::new(a).checked_multiply_ratio(num, den).ok().map(|v| v.u128())
}

/// `a * num / den` with a double-width intermediate product: `None` where the
/// denominator is zero or the quotient leaves 128 bits.
pub fn multiply_ratio(a: u128, num: u128, den: u128) -> (r: Option<u128>)
    ensures
        r is Some <==> (den > 0 && ratio(a as int, num as int, den as int) <= u128::MAX),
        r matches Some(v) ==> v == ratio(a as int, num as int, den as int),
{
    checked_multiply_ratio(a, num, den)
}

/// An amount times a fixed-point rate, floored; `None` where the product
/// does not fit back into 128 bits.
pub fn mul_rate(amount: u128, rate: u128) -> (r: Option<u128>)
    ensures
        r is Some <==> rate_mul(amount as int, rate as int) <= u128::MAX,
        r matches Some(v) ==> v == rate_mul(amount as int, rate as int),
{
    multiply_ratio(amount, rate, DECIMAL_FRACTIONAL)
}

/// The inverse of a fixed-point rate, or `None` for a zero rate.
pub fn inv_rate(rate: u128) -> (r: Option<u128>)
    ensures
        r is None <==> rate == 0,
        r matches Some(v) ==> v == rate_inv(rate as int),
{
    if rate == 0 {
        None
    } else {
        Some(DECIMAL_FRACTIONAL_SQUARED / rate)
    }
}

/// Multiplying by a rate preserves the order of amounts.
pub proof fn lemma_rate_mul_monotone(a: int, b: int, rate: int)
    requires
        0 <= a <= b,
        0 <= rate,
    ensures
        0 <= rate_mul(a, rate) <= rate_mul(b, rate),
{
    assert(0 <= a * rate <= b * rate) by (nonlinear_arith)
        requires
            0 <= a <= b,
            0 <= rate,
    ;
    vstd::arithmetic::div_mod::lemma_div_is_ordered(a * rate, b * rate, DECIMAL_FRACTIONAL as int);
    vstd::arithmetic::div_mod::lemma_div_pos_is_pos(a * rate, DECIMAL_FRACTIONAL as int);
}

} // verus!
