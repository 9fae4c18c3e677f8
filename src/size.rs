//! Byte counts as text in binary-scaled units, with two decimals.

use vstd::prelude::*;
use crate::text::{decimal, digit_char, digit_str, push_decimal};

verus! {

/// 1024 to the power `i`, for the unit indices 0 to 4.
pub open spec fn scale(i: nat) -> nat {
    if i == 0 { 1 }
    else if i == 1 { 1024 }
    else if i == 2 { 1048576 }
    else if i == 3 { 1073741824 }
    else { 1099511627776 }
}

/// The index in B, KB, MB, GB, TB of the unit that `b` bytes are shown in: the
/// largest whose scaled value is still at least 1, TB at most.
pub open spec fn unit_index(b: nat) -> nat {
    if b < 1024 { 0 }
    else if b < 1048576 { 1 }
    else if b < 1073741824 { 2 }
    else if b < 1099511627776 { 3 }
    else { 4 }
}

/// The symbol of the unit of index `i`.
pub open spec fn unit_symbol(i: nat) -> Seq<char> {
    if i == 0 { seq!['B'] }
    else if i == 1 { seq!['K', 'B'] }
    else if i == 2 { seq!['M', 'B'] }
    else if i == 3 { seq!['G', 'B'] }
    else { seq!['T', 'B'] }
}

/// `n / d` rounded to the nearest integer, a tie to the even one.
pub open spec fn round_half_even(n: nat, d: nat) -> nat {
    let q = n / d;
    let r = n % d;
    if 2 * r > d || (2 * r == d && q % 2 == 1) { q + 1 } else { q }
}

/// `b` bytes in the unit of `unit_index(b)`, in hundredths, rounded.
pub open spec fn hundredths(b: nat) -> nat {
    round_half_even(100 * b, scale(unit_index(b)))
}

/// The text of a value in hundredths, with exactly two decimals.
pub open spec fn two_decimals(h: nat) -> Seq<char> {
    decimal(h / 100) + seq!['.', digit_char(((h % 100) / 10) as int), digit_char((h % 10) as int)]
}

/// The text of `b` bytes: the scaled value with two decimals, a space, the unit.
pub open spec fn size_text(b: nat) -> Seq<char> {
    two_decimals(hundredths(b)) + seq![' '] + unit_symbol(unit_index(b))
}

/// The text of the unit of index `i`.
fn unit_str(i: u64) -> (r: &'static str)
    requires
        i <= 4,
    ensures
        r@ == unit_symbol(i as nat),
{
    proof {
        reveal_strlit("B");
        reveal_strlit("KB");
        reveal_strlit("MB");
        reveal_strlit("GB");
        reveal_strlit("TB");
    }
    if i == 0 { "B" }
    else if i == 1 { "KB" }
    else if i == 2 { "MB" }
    else if i == 3 { "GB" }
    else { "TB" }
}

/// Formats a byte count: the count scaled by 1024 until it is below 1024 or the
/// unit is TB, with two decimals (rounded, a tie to even), a space and the unit.
pub fn format_size(size: u64) -> (r: String)
    ensures
        r@ == size_text(size as nat),
{
    let (i, d): (u64, u128) = if size < 1024 {
        (0, 1)
    } else if size < 1048576 {
        (1, 1024)
    } else if size < 1073741824 {
        (2, 1048576)
    } else if size < 1099511627776 {
        (3, 1073741824)
    } else {
        (4, 1099511627776)
    };
    let n: u128 = 100 * (size as u128);
    let q: u128 = n / d;
    let rem: u128 = n % d;
    assert(q <= n) by (nonlinear_arith)
        requires
            d >= 1,
            q == n / d,
    ;
    let h: u128 = if 2 * rem > d || (2 * rem == d && q % 2 == 1) { q + 1 } else { q };
    assert(h == hundredths(size as nat));
    let whole: u64 = (h / 100) as u64;
    let frac: u64 = (h % 100) as u64;
    let mut s = String::new();
    push_decimal(&mut s, whole);
    proof { reveal_strlit("."); reveal_strlit(" "); }
    s.append(".");
    s.append(digit_str(frac / 10));
    s.append(digit_str(frac % 10));
    s.append(" ");
    s.append(unit_str(i));
    assert(s@ =~= size_text(size as nat));
    s
}

/// The shown value is below 1024 in every unit but TB, at least 1 in every unit
/// but B, and times the unit's size it is the byte count to within half a
/// hundredth of the unit.
pub proof fn lemma_size_scaling(b: u64)
    ensures
        unit_index(b as nat) <= 4,
        unit_index(b as nat) < 4 ==> b < 1024 * scale(unit_index(b as nat)),
        unit_index(b as nat) > 0 ==> b >= scale(unit_index(b as nat)),
        hundredths(b as nat) * scale(unit_index(b as nat)) <= 100 * b + scale(unit_index(b as nat)) / 2,
        100 * b <= hundredths(b as nat) * scale(unit_index(b as nat)) + scale(unit_index(b as nat)) / 2,
{
    let d = scale(unit_index(b as nat));
    let n = 100 * b as nat;
    let q = n / d;
    let r = n % d;
    assert(d == 1 || d % 2 == 0);
    assert(q * d + r == n && 0 <= r < d) by (nonlinear_arith)
        requires
            d >= 1,
            q == n / d,
            r == n % d,
    ;
    assert((q + 1) * d == q * d + d) by (nonlinear_arith);
}

} // verus!
