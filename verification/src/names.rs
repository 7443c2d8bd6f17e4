//! Default names for unnamed animations and bones.

use vstd::prelude::*;

verus! {

/// The decimal digit character for `d`.
pub open spec fn digit_char(d: nat) -> char
    recommends
        d < 10,
{
    ((48 + d) as u8) as char
}

/// The decimal digits of `n`, most significant first.
pub open spec fn dec_digits(n: nat) -> Seq<char>
    decreases n,
{
    if n < 10 {
        seq![digit_char(n)]
    } else {
        dec_digits(n / 10).push(digit_char(n % 10))
    }
}

/// Relies on std's `format!` with the `Display` impl for `u64`, which
/// writes the number in decimal after the prefix.
#[verifier::external_body]
pub(crate) fn prefixed_decimal(prefix: &str, index: u64) -> (r: String)
    ensures
        r@ == prefix@ + dec_digits(index as nat),
{
    format!("{}{}", prefix, index)
}

} // verus!
