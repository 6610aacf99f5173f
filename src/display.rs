//! The two numeric displays, as ASCII decimal text.
use vstd::prelude::*;

verus! {

/// The decimal ASCII digits of `n`, most significant first, with no
/// leading zero (zero itself is `"0"`).
pub open spec fn decimal(n: nat) -> Seq<u8>
    decreases n,
{
    if n < 10 {
        seq![(48 + n) as u8]
    } else {
        decimal(n / 10).push((48 + n % 10) as u8)
    }
}

pub fn decimal_digits(n: u64) -> (r: Vec<u8>)
    ensures
        r@ == decimal(n as nat),
    decreases n,
{
    if n < 10 {
        let mut v: Vec<u8> = Vec::new();
        v.push(48 + n as u8);
        assert(v@ =~= decimal(n as nat));
        v
    } else {
        let mut v: Vec<u8> = decimal_digits(n / 10);
        v.push(48 + (n % 10) as u8);
        v
    }
}

} // verus!
