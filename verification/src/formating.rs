//! Adaptive display precision for solution values.
//!
//! A value is rendered with just enough decimals to reach the first nonzero
//! digit of its fractional part, plus one more digit. The input here is the
//! decimal rendering of the absolute fractional part, as characters
//! (`0.0031` say); the first two characters are the leading `0.` and the
//! scan runs over the rest. Producing that rendering, and formatting the
//! value with the chosen precision, is display work for the surrounding
//! program.

use vstd::prelude::*;

verus! {

/// Whether a character is the zero digit.
pub fn is_zero(ch: char) -> (r: bool)
    ensures
        r == (ch == '0'),
{
    match ch {
        '0' => true,
        _ => false,
    }
}

/// The scan over the digits from position `from` on: each leading zero digit
/// adds one to the precision, and the first nonzero digit adds two and ends
/// the scan.
pub open spec fn scan_from(digits: Seq<char>, from: int) -> int
    decreases digits.len() - from,
{
    if from >= digits.len() {
        from
    } else if digits[from] == '0' {
        scan_from(digits, from + 1)
    } else {
        from + 2
    }
}

/// The display precision for a fractional rendering `s`: the scan over the
/// digits after the leading `0.`. A rendering too short to hold any
/// fractional digit gets precision zero.
pub open spec fn display_precision_of(s: Seq<char>) -> int {
    if s.len() >= 2 {
        scan_from(s.skip(2), 0)
    } else {
        0
    }
}

/// Computes the display precision of a fractional rendering: the number of
/// decimals up to and one past the first nonzero fractional digit, or as
/// many decimals as there are when all of them are zero.
#[verifier::loop_isolation(false)]
pub fn display_precision(fraction_chars: &Vec<char>) -> (r: usize)
    ensures
        r as int == display_precision_of(fraction_chars@),
{
    let len = fraction_chars.len();
    if len < 2 {
        return 0;
    }
    let ghost tail = fraction_chars@.skip(2);
    let mut k: usize = 2;
    while k < len
        invariant
            2 <= k <= len,
            scan_from(tail, 0) == scan_from(tail, k - 2),
        decreases len - k,
    {
        if !is_zero(fraction_chars[k]) {
            assert(scan_from(tail, k - 2) == k);
            return k;
        }
        assert(tail[k - 2] == '0');
        k += 1;
    }
    assert(scan_from(tail, k - 2) == tail.len());
    len - 2
}

} // verus!
