//! APXS amounts as text: atomic units shown as whole APXS with eight
//! decimals.

use vstd::prelude::*;

use crate::text::{decimal, push_char, push_decimal, push_zero_padded, zero_padded};

verus! {

/// Atomic units in one APXS.
pub const APXS_UNITS: u64 = 100_000_000;

/// `amount` atomic units as APXS: the whole part in decimal, a point, and
/// the fraction as exactly eight digits.
pub open spec fn apxs_text(amount: u64) -> Seq<char> {
    decimal((amount / APXS_UNITS) as nat) + seq!['.'] + zero_padded(
        decimal((amount % APXS_UNITS) as nat),
        8,
    )
}

/// `amount` atomic units as APXS text, e.g. `2500000000` as `25.00000000`.
pub fn apxs(amount: u64) -> (r: String)
    ensures
        r@ == apxs_text(amount),
{
    let whole = amount / APXS_UNITS;
    let fraction = amount % APXS_UNITS;
    let mut s = String::new();
    push_decimal(&mut s, whole);
    push_char(&mut s, '.');
    push_zero_padded(&mut s, fraction, 8);
    assert(s@ =~= apxs_text(amount));
    s
}

} // verus!
