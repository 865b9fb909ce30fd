//! Percent-encoding and hexadecimal rendering used by the request signer.
//!
//! The strict percent-encoding variant required by the signing scheme leaves
//! only unreserved bytes (ASCII letters, digits, `-`, `.`, `_`, `~`)
//! unescaped; every other byte becomes `%` plus two uppercase hex digits.

use vstd::prelude::*;

verus! {

/// Bytes left untouched by the strict percent-encoding variant:
/// ASCII letters, digits, `-`, `.`, `_`, `~`.
pub open spec fn is_unreserved_byte(b: u8) -> bool {
    (65 <= b && b <= 90)  // A-Z
    || (97 <= b && b <= 122)  // a-z
    || (48 <= b && b <= 57)  // 0-9
    || b == 45  // -
    || b == 46  // .
    || b == 95  // _
    || b == 126  // ~
}

/// A nibble rendered as an uppercase hexadecimal digit.
pub open spec fn spec_hex_upper(n: u8) -> char
    recommends
        n < 16,
{
    if n < 10 {
        ((n + 48) as char)
    } else {
        ((n + 55) as char)
    }
}

/// A nibble rendered as a lowercase hexadecimal digit.
pub open spec fn spec_hex_lower(n: u8) -> char
    recommends
        n < 16,
{
    if n < 10 {
        ((n + 48) as char)
    } else {
        ((n + 87) as char)
    }
}

/// The percent-encoding of one byte: the byte itself when unreserved,
/// otherwise `%` followed by two uppercase hexadecimal digits.
pub open spec fn pct_byte(b: u8) -> Seq<char> {
    if is_unreserved_byte(b) {
        seq![b as char]
    } else {
        seq!['%', spec_hex_upper(b / 16), spec_hex_upper(b % 16)]
    }
}

/// The percent-encoding of a byte sequence, byte by byte.
pub open spec fn pct_of(s: Seq<u8>) -> Seq<char>
    decreases s.len(),
{
    if s.len() == 0 {
        Seq::empty()
    } else {
        pct_byte(s[0]) + pct_of(s.drop_first())
    }
}

/// The lowercase hexadecimal rendering of a byte sequence, two digits a byte.
pub open spec fn hex_of(s: Seq<u8>) -> Seq<char>
    decreases s.len(),
{
    if s.len() == 0 {
        Seq::empty()
    } else {
        seq![spec_hex_lower(s[0] / 16), spec_hex_lower(s[0] % 16)] + hex_of(s.drop_first())
    }
}

/// Percent-encoding distributes over concatenation.
pub proof fn lemma_pct_of_concat(a: Seq<u8>, b: Seq<u8>)
    ensures
        pct_of(a + b) == pct_of(a) + pct_of(b),
    decreases a.len(),
{
    if a.len() == 0 {
        assert(a + b =~= b);
        assert(pct_of(a) + pct_of(b) =~= pct_of(b));
    } else {
        assert((a + b).drop_first() =~= a.drop_first() + b);
        lemma_pct_of_concat(a.drop_first(), b);
        assert(pct_byte((a + b)[0]) == pct_byte(a[0]));
        assert(pct_byte(a[0]) + (pct_of(a.drop_first()) + pct_of(b)) =~= (pct_byte(a[0]) + pct_of(
            a.drop_first(),
        )) + pct_of(b));
    }
}

/// Hexadecimal rendering distributes over concatenation.
pub proof fn lemma_hex_of_concat(a: Seq<u8>, b: Seq<u8>)
    ensures
        hex_of(a + b) == hex_of(a) + hex_of(b),
    decreases a.len(),
{
    if a.len() == 0 {
        assert(a + b =~= b);
        assert(hex_of(a) + hex_of(b) =~= hex_of(b));
    } else {
        assert((a + b).drop_first() =~= a.drop_first() + b);
        lemma_hex_of_concat(a.drop_first(), b);
        let h = seq![spec_hex_lower(a[0] / 16), spec_hex_lower(a[0] % 16)];
        assert(h + (hex_of(a.drop_first()) + hex_of(b)) =~= (h + hex_of(a.drop_first())) + hex_of(
            b,
        ));
    }
}

/// An unreserved byte's character: ASCII letter, digit, `-`, `.`, `_`, `~`.
pub open spec fn is_unreserved_char(c: char) -> bool {
    (65 <= c as u32 && c as u32 <= 90) || (97 <= c as u32 && c as u32 <= 122) || (48 <= c as u32
        && c as u32 <= 57) || c == '-' || c == '.' || c == '_' || c == '~'
}

/// An uppercase hexadecimal digit.
pub open spec fn is_upper_hex(c: char) -> bool {
    (48 <= c as u32 && c as u32 <= 57) || (65 <= c as u32 && c as u32 <= 70)
}

/// Percent-encoded output holds only unreserved characters, escape marks
/// and uppercase hexadecimal digits; any other input byte stands as its
/// `%XX` escape, never as itself.
pub proof fn lemma_pct_char_classes(s: Seq<u8>)
    ensures
        forall|i: int|
            0 <= i < pct_of(s).len() ==> is_unreserved_char(#[trigger] pct_of(s)[i]) || pct_of(
                s,
            )[i] == '%' || is_upper_hex(pct_of(s)[i]),
    decreases s.len(),
{
    if s.len() > 0 {
        lemma_pct_char_classes(s.drop_first());
        let h = pct_byte(s[0]);
        assert(forall|i: int|
            0 <= i < h.len() ==> is_unreserved_char(#[trigger] h[i]) || h[i] == '%' || is_upper_hex(
                h[i],
            ));
        assert(forall|i: int|
            0 <= i < pct_of(s).len() ==> pct_of(s)[i] == if i < h.len() {
                h[i]
            } else {
                pct_of(s.drop_first())[i - h.len()]
            });
    }
}

/// A sequence of unreserved bytes is left entirely unescaped: its encoding
/// is the bytes themselves, read as characters.
pub proof fn lemma_pct_of_all_unreserved(s: Seq<u8>)
    requires
        forall|i: int| 0 <= i < s.len() ==> is_unreserved_byte(#[trigger] s[i]),
    ensures
        pct_of(s) == s.map(|i: int, b: u8| b as char),
    decreases s.len(),
{
    let m = s.map(|i: int, b: u8| b as char);
    if s.len() == 0 {
        assert(pct_of(s) =~= m);
    } else {
        assert(forall|i: int|
            0 <= i < s.drop_first().len() ==> is_unreserved_byte(#[trigger] s.drop_first()[i]));
        lemma_pct_of_all_unreserved(s.drop_first());
        assert(s.drop_first().map(|i: int, b: u8| b as char) =~= m.drop_first());
        assert(pct_of(s) =~= m);
    }
}

/// Whether this byte is left unchanged by percent-encoding.
pub fn unreserved(b: u8) -> (r: bool)
    ensures
        r == is_unreserved_byte(b),
{
    (65 <= b && b <= 90) || (97 <= b && b <= 122) || (48 <= b && b <= 57) || b == 45 || b == 46
        || b == 95 || b == 126
}

/// Uppercase hexadecimal digit for a nibble.
pub fn hex_upper(n: u8) -> (r: char)
    requires
        n < 16,
    ensures
        r == spec_hex_upper(n),
{
    if n < 10 {
        (n + 48) as char
    } else {
        (n + 55) as char
    }
}

/// Lowercase hexadecimal digit for a nibble.
pub fn hex_lower(n: u8) -> (r: char)
    requires
        n < 16,
    ensures
        r == spec_hex_lower(n),
{
    if n < 10 {
        (n + 48) as char
    } else {
        (n + 87) as char
    }
}

/// Percent-encode a byte sequence with the strict unreserved-only rule.
pub fn pct_encode(b: &[u8]) -> (r: String)
    ensures
        r@ == pct_of(b@),
{
    let mut out = String::new();
    let mut i: usize = 0;
    while i < b.len()
        invariant
            i <= b@.len(),
            out@ == pct_of(b@.take(i as int)),
        decreases b@.len() - i,
    {
        let x = b[i];
        if unreserved(x) {
            out.push(x as char);
        } else {
            out.push('%');
            out.push(hex_upper(x / 16));
            out.push(hex_upper(x % 16));
        }
        proof {
            assert(b@.take(i + 1) =~= b@.take(i as int) + seq![b@[i as int]]);
            lemma_pct_of_concat(b@.take(i as int), seq![b@[i as int]]);
            assert(seq![x].drop_first() =~= Seq::<u8>::empty());
            assert(pct_of(Seq::<u8>::empty()) =~= Seq::<char>::empty());
            assert(pct_of(seq![x]) =~= pct_byte(x));
            assert(out@ =~= pct_of(b@.take(i + 1)));
        }
        i = i + 1;
    }
    proof {
        assert(b@.take(b@.len() as int) =~= b@);
    }
    out
}

/// Render bytes as lowercase hexadecimal, two digits for each byte.
pub fn encode(bytes: &[u8]) -> (r: String)
    ensures
        r@ == hex_of(bytes@),
{
    let mut out = String::new();
    let mut i: usize = 0;
    while i < bytes.len()
        invariant
            i <= bytes@.len(),
            out@ == hex_of(bytes@.take(i as int)),
        decreases bytes@.len() - i,
    {
        let x = bytes[i];
        out.push(hex_lower(x / 16));
        out.push(hex_lower(x % 16));
        proof {
            assert(bytes@.take(i + 1) =~= bytes@.take(i as int) + seq![bytes@[i as int]]);
            lemma_hex_of_concat(bytes@.take(i as int), seq![bytes@[i as int]]);
            assert(seq![x].drop_first() =~= Seq::<u8>::empty());
            assert(hex_of(Seq::<u8>::empty()) =~= Seq::<char>::empty());
            assert(hex_of(seq![x]) =~= seq![spec_hex_lower(x / 16), spec_hex_lower(x % 16)]);
            assert(out@ =~= hex_of(bytes@.take(i + 1)));
        }
        i = i + 1;
    }
    proof {
        assert(bytes@.take(bytes@.len() as int) =~= bytes@);
    }
    out
}

} // verus!
