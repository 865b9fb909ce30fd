//! Decimal rendering of unsigned integers, used in messages and parameters.

use vstd::prelude::*;

verus! {

/// One decimal digit as a character.
pub open spec fn spec_dec_digit(n: nat) -> char
    recommends
        n < 10,
{
    ((n + 48) as char)
}

/// The decimal rendering of a natural number, most significant digit first.
pub open spec fn dec_of(n: nat) -> Seq<char>
    decreases n,
{
    if n < 10 {
        seq![spec_dec_digit(n)]
    } else {
        dec_of(n / 10).push(spec_dec_digit(n % 10))
    }
}

/// One decimal digit as a character.
pub fn dec_digit(n: u64) -> (r: char)
    requires
        n < 10,
    ensures
        r == spec_dec_digit(n as nat),
{
    ((n + 48) as u8) as char
}

/// Render an unsigned integer in decimal notation.
pub fn u64_to_string(n: u64) -> (r: String)
    ensures
        r@ == dec_of(n as nat),
{
    let mut digits: Vec<char> = Vec::new();
    let mut m: u64 = n;
    while m >= 10
        invariant
            dec_of(n as nat) == dec_of(m as nat) + digits@.reverse(),
        decreases m,
    {
        let d = dec_digit(m % 10);
        proof {
            assert(dec_of(m as nat) == dec_of((m / 10) as nat).push(spec_dec_digit((m % 10) as nat)));
            assert(digits@.push(d).reverse() =~= seq![d] + digits@.reverse());
            assert(dec_of((m / 10) as nat) + digits@.push(d).reverse() =~= dec_of(m as nat)
                + digits@.reverse());
        }
        digits.push(d);
        m = m / 10;
    }
    let d = dec_digit(m);
    proof {
        assert(dec_of(m as nat) =~= seq![d]);
        assert(digits@.push(d).reverse() =~= seq![d] + digits@.reverse());
        assert(digits@.push(d).reverse() =~= dec_of(n as nat));
    }
    digits.push(d);
    let mut out = String::new();
    let mut j: usize = 0;
    let total = digits.len();
    while j < total
        invariant
            total == digits@.len(),
            j <= total,
            out@ == digits@.reverse().take(j as int),
        decreases total - j,
    {
        let c = digits[total - 1 - j];
        proof {
            assert(digits@.reverse()[j as int] == c);
            assert(digits@.reverse().take(j + 1) =~= digits@.reverse().take(j as int).push(c));
        }
        out.push(c);
        j = j + 1;
    }
    proof {
        assert(digits@.reverse().take(total as int) =~= digits@.reverse());
    }
    out
}

/// Render a machine-sized unsigned integer in decimal notation.
pub fn usize_to_string(n: usize) -> (r: String)
    ensures
        r@ == dec_of(n as nat),
{
    u64_to_string(n as u64)
}

} // verus!
