//! Sizes in bytes as people read them: with the prefixes of the SI system
//! and one decimal place.

use vstd::prelude::*;
use crate::text::{decimal, digit_char};

verus! {

/// How often `n` can be divided by 1000 before it falls below 1000.
pub open spec fn si_divisions(n: nat) -> nat
    decreases n,
{
    if n < 1000 {
        0
    } else {
        1 + si_divisions(n / 1000)
    }
}

/// 1000 to the power `d`.
pub open spec fn thousand_power(d: nat) -> nat
    decreases d,
{
    if d == 0 {
        1
    } else {
        1000 * thousand_power((d - 1) as nat)
    }
}

/// The SI prefix for 1000 to the power `d`.
pub open spec fn si_prefix(d: nat) -> Seq<char> {
    if d == 0 {
        Seq::empty()
    } else if d == 1 {
        seq!['k']
    } else if d == 2 {
        seq!['M']
    } else if d == 3 {
        seq!['G']
    } else if d == 4 {
        seq!['T']
    } else if d == 5 {
        seq!['P']
    } else if d == 6 {
        seq!['E']
    } else if d == 7 {
        seq!['Z']
    } else {
        seq!['Y']
    }
}

/// A size with its SI prefix: below 1000 the number itself; from there on
/// the number of whole units of the largest power of 1000 that fits, a
/// point, the first decimal digit, cut off and not rounded, and the prefix.
pub open spec fn si_size(bytes: u64) -> Seq<char> {
    let d = si_divisions(bytes as nat);
    let unit = thousand_power(d);
    if d == 0 {
        decimal(bytes as nat)
    } else {
        decimal(bytes as nat / unit) + seq!['.', digit_char((bytes as nat % unit) * 10 / unit)]
            + si_prefix(d)
    }
}

/// `size_format::SizeFormatterSI`, displayed at its default precision: the
/// text is `si_size` of the number. The crate divides by the largest power
/// of 1000 that does not exceed the number, prints the whole part, and, for
/// any prefix but the empty one, a point and one decimal digit that it cuts
/// off without rounding.
#[verifier::external_body]
pub(crate) fn format_bytes(bytes: u64) -> (out: String)
    ensures
        out@ == si_size(bytes),
{
    format!("{}", size_format::SizeFormatterSI::new(bytes))
}

} // verus!
