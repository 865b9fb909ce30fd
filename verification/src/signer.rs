//! The request signer: builds the one-time authorization header value from
//! method, URL and parameters, via the signature base string, a keyed
//! 160-bit digest and its base64 rendering.

use vstd::prelude::*;
use vstd::utf8::encode_utf8;
use crate::config::Config;
use crate::encoding::{hex_of, pct_of};
use crate::params::{bytes_lt, kb, spec_insert, Pair, ParamList};
use base64::Engine;
use hmac::{KeyInit, Mac, SimpleHmac};
use sha1::Sha1;

verus! {

/// The strict percent-encoding of a text: its UTF-8 bytes, encoded.
pub open spec fn pct(s: Seq<char>) -> Seq<char> {
    pct_of(encode_utf8(s))
}

/// What the keyed 160-bit digest of a key and a message is. Named, not
/// stated: only the outside implementation defines its value.
pub uninterp spec fn hmac_sha1_of(key: Seq<u8>, msg: Seq<u8>) -> Seq<u8>;

/// What the standard base64 rendering of a byte sequence is. Named, not
/// stated: only the outside implementation defines its value.
pub uninterp spec fn base64_of(bytes: Seq<u8>) -> Seq<char>;

/// Relies on hmac's `SimpleHmac` over sha1's `Sha1`: a 20-byte keyed digest,
/// a function of key and message alone; any key length is accepted.
#[verifier::external_body]
fn hmac_sha1(key: &[u8], msg: &[u8]) -> (r: Vec<u8>)
    ensures
        r@ == hmac_sha1_of(key@, msg@),
        r@.len() == 20,
{
    let mut mac = <SimpleHmac<Sha1> as KeyInit>::new_from_slice(key).expect(
        "any key length is accepted",
    );
    mac.update(msg);
    mac.finalize().into_bytes().to_vec()
}

/// Relies on base64's standard engine: padded standard-alphabet encoding,
/// a function of the input bytes alone.
#[verifier::external_body]
fn base64_encode(b: &[u8]) -> (r: String)
    ensures
        r@ == base64_of(b@),
{
    base64::engine::general_purpose::STANDARD.encode(b)
}

/// Relies on rand's thread-local generator to fill 16 bytes; nothing is
/// promised of the values, only of the count.
#[verifier::external_body]
fn random_bytes16() -> (r: Vec<u8>)
    ensures
        r@.len() == 16,
{
    let mut buf = [0u8; 16];
    rand::fill(&mut buf);
    buf.to_vec()
}

/// Relies on std's `SystemTime`: seconds since the Unix epoch per the system
/// clock (zero should the clock sit before the epoch); nothing is promised
/// of the value.
#[verifier::external_body]
fn unix_timestamp() -> (r: u64) {
    match std::time::SystemTime::now().duration_since(std::time::UNIX_EPOCH) {
        Ok(d) => d.as_secs(),
        Err(_) => 0,
    }
}

/// ASCII uppercase of one character; others are unchanged.
pub open spec fn upper_char(c: char) -> char {
    if 97 <= c as u32 && c as u32 <= 122 {
        (((c as u32) - 32) as u8) as char
    } else {
        c
    }
}

/// ASCII uppercase of a text.
pub open spec fn upper_of(s: Seq<char>) -> Seq<char> {
    Seq::new(s.len(), |i: int| upper_char(s[i]))
}

/// One `key=value` element of the signature base string's parameter segment.
pub open spec fn pair_chars(p: Pair) -> Seq<char> {
    pct(p.0) + seq!['='] + pct(p.1)
}

/// The parameter segment: `key=value` pairs joined with `&`, in the order
/// the (sorted) parameter list holds them.
pub open spec fn spec_param_segment(s: Seq<Pair>) -> Seq<char>
    decreases s.len(),
{
    if s.len() == 0 {
        Seq::empty()
    } else if s.len() == 1 {
        pair_chars(s[0])
    } else {
        pair_chars(s[0]) + seq!['&'] + spec_param_segment(s.drop_first())
    }
}

/// The signature base string: uppercase method, encoded URL and the encoded
/// parameter segment, joined with `&`.
pub open spec fn spec_base_string(method: Seq<char>, url: Seq<char>, params: Seq<Pair>) -> Seq<
    char,
> {
    upper_of(method) + seq!['&'] + pct(url) + seq!['&'] + pct(spec_param_segment(params))
}

/// The signing key: the two encoded secrets joined with `&` (an empty secret
/// keeps its empty-but-present segment).
pub open spec fn spec_signing_key(c: &Config) -> Seq<char> {
    pct(c.api_key_secret@) + seq!['&'] + pct(c.access_token_secret@)
}

/// The six fixed protocol parameters inserted over an empty list, in the
/// order the signer writes them.
pub open spec fn base_params(c: &Config, nonce: Seq<char>, ts: Seq<char>) -> Seq<Pair> {
    spec_insert(
        spec_insert(
            spec_insert(
                spec_insert(
                    spec_insert(
                        spec_insert(Seq::empty(), "oauth_consumer_key"@, c.api_key@),
                        "oauth_nonce"@,
                        nonce,
                    ),
                    "oauth_signature_method"@,
                    "HMAC-SHA1"@,
                ),
                "oauth_timestamp"@,
                ts,
            ),
            "oauth_token"@,
            c.access_token@,
        ),
        "oauth_version"@,
        "1.0"@,
    )
}

/// Folding a sequence of inserts over a parameter list, first item first,
/// so a caller-supplied pair wins over any colliding earlier one.
pub open spec fn fold_insert(s: Seq<Pair>, items: Seq<Pair>) -> Seq<Pair>
    decreases items.len(),
{
    if items.len() == 0 {
        s
    } else {
        fold_insert(spec_insert(s, items[0].0, items[0].1), items.drop_first())
    }
}

/// The full signed parameter set: the six fixed parameters, the caller's
/// extras layered over them.
pub open spec fn full_params(c: &Config, extra: Seq<Pair>, nonce: Seq<char>, ts: Seq<char>) -> Seq<
    Pair,
> {
    fold_insert(base_params(c, nonce, ts), extra)
}

/// The signature value: base64 of the keyed digest of the base string under
/// the signing key.
pub open spec fn spec_signature(
    c: &Config,
    method: Seq<char>,
    url: Seq<char>,
    extra: Seq<Pair>,
    nonce: Seq<char>,
    ts: Seq<char>,
) -> Seq<char> {
    base64_of(
        hmac_sha1_of(
            encode_utf8(spec_signing_key(c)),
            encode_utf8(spec_base_string(method, url, full_params(c, extra, nonce, ts))),
        ),
    )
}

/// A key of the fixed protocol family: it begins with `oauth_`.
pub open spec fn is_oauth_key(k: Seq<char>) -> bool {
    k.len() >= 6 && k[0] == 'o' && k[1] == 'a' && k[2] == 'u' && k[3] == 't' && k[4] == 'h' && k[5]
        == '_'
}

/// Only the protocol-family pairs, in order: body extras participate in the
/// signature but are excluded from the emitted header.
pub open spec fn oauth_only(s: Seq<Pair>) -> Seq<Pair>
    decreases s.len(),
{
    if s.len() == 0 {
        Seq::empty()
    } else if is_oauth_key(s[0].0) {
        seq![s[0]] + oauth_only(s.drop_first())
    } else {
        oauth_only(s.drop_first())
    }
}

/// One `key="value"` element of the header.
pub open spec fn quoted_pair(p: Pair) -> Seq<char> {
    pct(p.0) + seq!['=', '"'] + pct(p.1) + seq!['"']
}

/// The header elements joined with `, `.
pub open spec fn join_pairs(s: Seq<Pair>) -> Seq<char>
    decreases s.len(),
{
    if s.len() == 0 {
        Seq::empty()
    } else if s.len() == 1 {
        quoted_pair(s[0])
    } else {
        quoted_pair(s[0]) + seq![',', ' '] + join_pairs(s.drop_first())
    }
}

/// The emitted authorization value for given nonce and timestamp texts: the
/// scheme name, then the protocol parameters and the signature, sorted,
/// quoted and comma-joined.
pub open spec fn spec_header(
    c: &Config,
    method: Seq<char>,
    url: Seq<char>,
    extra: Seq<Pair>,
    nonce: Seq<char>,
    ts: Seq<char>,
) -> Seq<char> {
    "OAuth "@ + join_pairs(
        oauth_only(
            spec_insert(
                full_params(c, extra, nonce, ts),
                "oauth_signature"@,
                spec_signature(c, method, url, extra, nonce, ts),
            ),
        ),
    )
}

/// A lowercase hexadecimal digit.
pub open spec fn is_lower_hex(c: char) -> bool {
    (48 <= c as u32 && c as u32 <= 57) || (97 <= c as u32 && c as u32 <= 102)
}

/// A 32-character lowercase-hexadecimal text: the shape of every nonce.
pub open spec fn is_hex32(s: Seq<char>) -> bool {
    s.len() == 32 && forall|i: int| 0 <= i < 32 ==> is_lower_hex(#[trigger] s[i])
}

/// Hexadecimal renderings have twice the bytes' length and consist of
/// lowercase hexadecimal digits alone.
pub proof fn lemma_hex_of_shape(s: Seq<u8>)
    ensures
        hex_of(s).len() == 2 * s.len(),
        forall|i: int| 0 <= i < hex_of(s).len() ==> is_lower_hex(#[trigger] hex_of(s)[i]),
    decreases s.len(),
{
    if s.len() == 0 {
    } else {
        lemma_hex_of_shape(s.drop_first());
        let h = seq![
            crate::encoding::spec_hex_lower(s[0] / 16),
            crate::encoding::spec_hex_lower(s[0] % 16),
        ];
        assert(is_lower_hex(h[0]));
        assert(is_lower_hex(h[1]));
        assert(forall|i: int|
            0 <= i < hex_of(s).len() ==> hex_of(s)[i] == if i < 2 {
                h[i]
            } else {
                hex_of(s.drop_first())[i - 2]
            });
    }
}

/// Percent-encode a text with the strict unreserved-only rule.
pub fn pct_encode_str(s: &str) -> (r: String)
    ensures
        r@ == pct(s@),
{
    crate::encoding::pct_encode(s.as_bytes())
}

/// ASCII-uppercase a text.
pub fn ascii_upper(s: &str) -> (r: String)
    ensures
        r@ == upper_of(s@),
{
    let cs = crate::strutil::chars_vec(s);
    let mut out = String::new();
    let mut i: usize = 0;
    while i < cs.len()
        invariant
            cs@ == s@,
            i <= s@.len(),
            out@ == upper_of(s@).take(i as int),
        decreases s@.len() - i,
    {
        let c = cs[i];
        let u = c as u32;
        if 97 <= u && u <= 122 {
            out.push(((u - 32) as u8) as char);
        } else {
            out.push(c);
        }
        proof {
            assert(out@ =~= upper_of(s@).take(i + 1));
        }
        i = i + 1;
    }
    proof {
        assert(upper_of(s@).take(s@.len() as int) =~= upper_of(s@));
    }
    out
}

/// Appending a pair extends the parameter segment by a separator (when one
/// is owed) and the pair's element.
proof fn lemma_param_segment_snoc(s: Seq<Pair>, p: Pair)
    ensures
        spec_param_segment(s.push(p)) == if s.len() == 0 {
            pair_chars(p)
        } else {
            spec_param_segment(s) + seq!['&'] + pair_chars(p)
        },
    decreases s.len(),
{
    let t = s.push(p);
    if s.len() == 0 {
        assert(t.len() == 1);
        assert(t[0] == p);
    } else {
        assert(t.drop_first() =~= s.drop_first().push(p));
        lemma_param_segment_snoc(s.drop_first(), p);
        if s.len() == 1 {
            assert(spec_param_segment(t) == pair_chars(s[0]) + seq!['&'] + pair_chars(p));
        } else {
            assert(pair_chars(s[0]) + seq!['&'] + (spec_param_segment(s.drop_first()) + seq!['&']
                + pair_chars(p)) =~= (pair_chars(s[0]) + seq!['&'] + spec_param_segment(
                s.drop_first(),
            )) + seq!['&'] + pair_chars(p));
        }
    }
}

/// Appending a pair extends the joined header elements likewise.
proof fn lemma_join_pairs_snoc(s: Seq<Pair>, p: Pair)
    ensures
        join_pairs(s.push(p)) == if s.len() == 0 {
            quoted_pair(p)
        } else {
            join_pairs(s) + seq![',', ' '] + quoted_pair(p)
        },
    decreases s.len(),
{
    let t = s.push(p);
    if s.len() == 0 {
        assert(t.len() == 1);
        assert(t[0] == p);
    } else {
        assert(t.drop_first() =~= s.drop_first().push(p));
        lemma_join_pairs_snoc(s.drop_first(), p);
        if s.len() == 1 {
            assert(join_pairs(t) == quoted_pair(s[0]) + seq![',', ' '] + quoted_pair(p));
        } else {
            assert(quoted_pair(s[0]) + seq![',', ' '] + (join_pairs(s.drop_first()) + seq![',', ' ']
                + quoted_pair(p)) =~= (quoted_pair(s[0]) + seq![',', ' '] + join_pairs(
                s.drop_first(),
            )) + seq![',', ' '] + quoted_pair(p));
        }
    }
}

/// Appending a pair to the input extends the protocol-family selection by
/// that pair exactly when its key is of the family.
proof fn lemma_oauth_only_snoc(s: Seq<Pair>, p: Pair)
    ensures
        oauth_only(s.push(p)) == if is_oauth_key(p.0) {
            oauth_only(s).push(p)
        } else {
            oauth_only(s)
        },
    decreases s.len(),
{
    let t = s.push(p);
    if s.len() == 0 {
        assert(t.drop_first() =~= Seq::<Pair>::empty());
        assert(oauth_only(Seq::<Pair>::empty()) =~= Seq::<Pair>::empty());
        assert(t[0] == p);
        if is_oauth_key(p.0) {
            assert(oauth_only(t) =~= Seq::<Pair>::empty().push(p));
        }
    } else {
        assert(t.drop_first() =~= s.drop_first().push(p));
        lemma_oauth_only_snoc(s.drop_first(), p);
        if is_oauth_key(p.0) {
            if is_oauth_key(s[0].0) {
                assert(seq![s[0]] + oauth_only(s.drop_first()).push(p) =~= (seq![s[0]]
                    + oauth_only(s.drop_first())).push(p));
            }
        }
    }
}

/// Folding one more insert.
proof fn lemma_fold_insert_snoc(s: Seq<Pair>, items: Seq<Pair>, p: Pair)
    ensures
        fold_insert(s, items.push(p)) == spec_insert(fold_insert(s, items), p.0, p.1),
    decreases items.len(),
{
    let t = items.push(p);
    if items.len() == 0 {
        assert(t.drop_first() =~= Seq::<Pair>::empty());
        assert(t[0] == p);
        assert(fold_insert(s, Seq::<Pair>::empty()) == s);
        assert(fold_insert(spec_insert(s, p.0, p.1), Seq::<Pair>::empty()) == spec_insert(
            s,
            p.0,
            p.1,
        ));
    } else {
        assert(t[0] == items[0]);
        assert(t.drop_first() =~= items.drop_first().push(p));
        lemma_fold_insert_snoc(spec_insert(s, items[0].0, items[0].1), items.drop_first(), p);
    }
}

/// The parameter segment of the signature base string: sorted `key=value`
/// pairs, percent-encoded and `&`-joined.
pub fn param_segment(params: &ParamList) -> (r: String)
    ensures
        r@ == spec_param_segment(params@),
{
    let mut out = String::new();
    let n = params.len();
    let mut i: usize = 0;
    while i < n
        invariant
            n == params@.len(),
            i <= n,
            out@ == spec_param_segment(params@.take(i as int)),
        decreases n - i,
    {
        let (k, v) = params.get(i);
        if i > 0 {
            out.push('&');
        }
        out.push_str(pct_encode_str(k.as_str()).as_str());
        out.push('=');
        out.push_str(pct_encode_str(v.as_str()).as_str());
        proof {
            assert(params@.take(i + 1) =~= params@.take(i as int).push(params@[i as int]));
            lemma_param_segment_snoc(params@.take(i as int), params@[i as int]);
            assert(out@ =~= spec_param_segment(params@.take(i + 1)));
        }
        i = i + 1;
    }
    proof {
        assert(params@.take(params@.len() as int) =~= params@);
    }
    out
}

/// Build the signature base string from method, query-free URL and the full
/// parameter list.
pub fn signature_base_string(method: &str, url: &str, params: &ParamList) -> (r: String)
    ensures
        r@ == spec_base_string(method@, url@, params@),
{
    let seg = param_segment(params);
    let mut out = ascii_upper(method);
    out.push('&');
    out.push_str(pct_encode_str(url).as_str());
    out.push('&');
    out.push_str(pct_encode_str(seg.as_str()).as_str());
    out
}

/// Render the header value from the signed, sorted parameter list.
fn render_header(params: &ParamList) -> (r: String)
    ensures
        r@ == "OAuth "@ + join_pairs(oauth_only(params@)),
{
    let mut parts = String::new();
    let mut some = false;
    let ghost mut fseq: Seq<Pair> = Seq::empty();
    let n = params.len();
    let mut i: usize = 0;
    proof {
        assert(oauth_only(params@.take(0)) =~= Seq::<Pair>::empty());
    }
    while i < n
        invariant
            n == params@.len(),
            i <= n,
            fseq == oauth_only(params@.take(i as int)),
            some == (fseq.len() > 0),
            parts@ == join_pairs(fseq),
        decreases n - i,
    {
        let (k, v) = params.get(i);
        let cs = crate::strutil::chars_vec(k.as_str());
        let is_proto = cs.len() >= 6 && cs[0] == 'o' && cs[1] == 'a' && cs[2] == 'u' && cs[3] == 't'
            && cs[4] == 'h' && cs[5] == '_';
        proof {
            assert(is_proto == is_oauth_key(params@[i as int].0));
            assert(params@.take(i + 1) =~= params@.take(i as int).push(params@[i as int]));
            lemma_oauth_only_snoc(params@.take(i as int), params@[i as int]);
        }
        if is_proto {
            if some {
                parts.push(',');
                parts.push(' ');
            }
            parts.push_str(pct_encode_str(k.as_str()).as_str());
            parts.push('=');
            parts.push('"');
            parts.push_str(pct_encode_str(v.as_str()).as_str());
            parts.push('"');
            proof {
                lemma_join_pairs_snoc(fseq, params@[i as int]);
                fseq = fseq.push(params@[i as int]);
                assert(parts@ =~= join_pairs(fseq));
            }
            some = true;
        }
        i = i + 1;
    }
    proof {
        assert(params@.take(params@.len() as int) =~= params@);
    }
    let mut out = "OAuth ".to_owned();
    out.push_str(parts.as_str());
    out
}

/// Build the authorization value for a given nonce and timestamp text: the
/// deterministic part of signing, stated exactly.
pub fn oauth_header_with(
    config: &Config,
    method: &str,
    url: &str,
    extra: &ParamList,
    nonce: &str,
    timestamp: &str,
) -> (r: String)
    requires
        extra.wf(),
    ensures
        r@ == spec_header(config, method@, url@, extra@, nonce@, timestamp@),
{
    let mut params = ParamList::new();
    params.insert("oauth_consumer_key".to_owned(), config.api_key.clone());
    params.insert("oauth_nonce".to_owned(), nonce.to_owned());
    params.insert("oauth_signature_method".to_owned(), "HMAC-SHA1".to_owned());
    params.insert("oauth_timestamp".to_owned(), timestamp.to_owned());
    params.insert("oauth_token".to_owned(), config.access_token.clone());
    params.insert("oauth_version".to_owned(), "1.0".to_owned());
    proof {
        assert(params@ == base_params(config, nonce@, timestamp@));
    }
    let n = extra.len();
    let mut i: usize = 0;
    proof {
        assert(fold_insert(base_params(config, nonce@, timestamp@), extra@.take(0)) == params@);
    }
    while i < n
        invariant
            n == extra@.len(),
            i <= n,
            params.wf(),
            params@ == fold_insert(base_params(config, nonce@, timestamp@), extra@.take(i as int)),
        decreases n - i,
    {
        let (k, v) = extra.get(i);
        params.insert(k.clone(), v.clone());
        proof {
            assert(extra@.take(i + 1) =~= extra@.take(i as int).push(extra@[i as int]));
            lemma_fold_insert_snoc(
                base_params(config, nonce@, timestamp@),
                extra@.take(i as int),
                extra@[i as int],
            );
        }
        i = i + 1;
    }
    proof {
        assert(extra@.take(extra@.len() as int) =~= extra@);
        assert(params@ == full_params(config, extra@, nonce@, timestamp@));
    }
    let base = signature_base_string(method, url, &params);
    let mut key = pct_encode_str(config.api_key_secret.as_str());
    key.push('&');
    key.push_str(pct_encode_str(config.access_token_secret.as_str()).as_str());
    proof {
        assert(key@ =~= spec_signing_key(config));
    }
    let digest = hmac_sha1(key.as_str().as_bytes(), base.as_str().as_bytes());
    let signature = base64_encode(digest.as_slice());
    params.insert("oauth_signature".to_owned(), signature);
    render_header(&params)
}

/// The parameter segment of the base string is determined by the parameters
/// alone: two sorted lists holding the same pairs render one segment,
/// whatever order the pairs were inserted in.
pub proof fn lemma_param_segment_canonical(s1: Seq<Pair>, s2: Seq<Pair>)
    requires
        crate::params::sorted_strict(s1),
        crate::params::sorted_strict(s2),
        forall|p: Pair| s1.contains(p) <==> s2.contains(p),
    ensures
        spec_param_segment(s1) == spec_param_segment(s2),
{
    crate::params::lemma_sorted_same_elements(s1, s2);
}

/// A text of lowercase hexadecimal digits is ASCII.
proof fn lemma_hex_ascii(n: Seq<char>)
    requires
        forall|i: int| 0 <= i < n.len() ==> is_lower_hex(#[trigger] n[i]),
    ensures
        vstd::utf8::is_ascii_chars(n),
{
    assert forall|i: int| 0 <= i < n.len() implies '\0' <= #[trigger] n[i] <= '\u{7f}' by {
        let c = n[i];
        vstd::utf8::char_u32_cast(c, c as u32);
        assert('\0' <= ((c as u32) as char) <= '\u{7f}');
    }
}

/// Hexadecimal texts pass percent-encoding unchanged: every digit is an
/// unreserved byte.
pub proof fn lemma_pct_hex_identity(n: Seq<char>)
    requires
        forall|i: int| 0 <= i < n.len() ==> is_lower_hex(#[trigger] n[i]),
    ensures
        pct(n) == n,
{
    lemma_hex_ascii(n);
    vstd::utf8::is_ascii_chars_encode_utf8(n);
    let bytes = encode_utf8(n);
    assert(bytes.len() == n.len());
    assert forall|i: int|
        0 <= i < bytes.len() implies crate::encoding::is_unreserved_byte(
        #[trigger] bytes[i],
    ) by {
        let c = n[i];
        assert(is_lower_hex(c));
        assert(bytes[i] == c as u8);
        vstd::utf8::char_u32_cast(c, c as u32);
        assert('\0' <= ((c as u32) as char) <= '\u{7f}');
        assert(c as u8 == c as u32);
    }
    crate::encoding::lemma_pct_of_all_unreserved(bytes);
    let m = bytes.map(|j: int, b: u8| b as char);
    assert forall|i: int| 0 <= i < n.len() implies m[i] == n[i] by {
        let c = n[i];
        vstd::utf8::char_u32_cast(c, c as u32);
        assert('\0' <= ((c as u32) as char) <= '\u{7f}');
        assert(m[i] == ((c as u8) as char));
        assert(((c as u8) as char) == c);
    }
    assert(pct(n) =~= n);
}

/// The canonical byte order of the seven signed keys.
proof fn lemma_key_order()
    ensures
        bytes_lt(kb("oauth_consumer_key"@), kb("oauth_nonce"@)),
        bytes_lt(kb("oauth_consumer_key"@), kb("oauth_signature"@)),
        bytes_lt(kb("oauth_consumer_key"@), kb("oauth_signature_method"@)),
        bytes_lt(kb("oauth_consumer_key"@), kb("oauth_timestamp"@)),
        bytes_lt(kb("oauth_consumer_key"@), kb("oauth_token"@)),
        bytes_lt(kb("oauth_consumer_key"@), kb("oauth_version"@)),
        bytes_lt(kb("oauth_nonce"@), kb("oauth_signature"@)),
        bytes_lt(kb("oauth_nonce"@), kb("oauth_signature_method"@)),
        bytes_lt(kb("oauth_nonce"@), kb("oauth_timestamp"@)),
        bytes_lt(kb("oauth_nonce"@), kb("oauth_token"@)),
        bytes_lt(kb("oauth_nonce"@), kb("oauth_version"@)),
        bytes_lt(kb("oauth_signature"@), kb("oauth_signature_method"@)),
        bytes_lt(kb("oauth_signature_method"@), kb("oauth_timestamp"@)),
        bytes_lt(kb("oauth_signature_method"@), kb("oauth_token"@)),
        bytes_lt(kb("oauth_signature_method"@), kb("oauth_version"@)),
        bytes_lt(kb("oauth_timestamp"@), kb("oauth_token"@)),
        bytes_lt(kb("oauth_timestamp"@), kb("oauth_version"@)),
        bytes_lt(kb("oauth_token"@), kb("oauth_version"@)),
{
    reveal_strlit("oauth_consumer_key");
    reveal_strlit("oauth_nonce");
    reveal_strlit("oauth_signature");
    reveal_strlit("oauth_signature_method");
    reveal_strlit("oauth_timestamp");
    reveal_strlit("oauth_token");
    reveal_strlit("oauth_version");
    vstd::utf8::is_ascii_chars_encode_utf8("oauth_consumer_key"@);
    vstd::utf8::is_ascii_chars_encode_utf8("oauth_nonce"@);
    vstd::utf8::is_ascii_chars_encode_utf8("oauth_signature"@);
    vstd::utf8::is_ascii_chars_encode_utf8("oauth_signature_method"@);
    vstd::utf8::is_ascii_chars_encode_utf8("oauth_timestamp"@);
    vstd::utf8::is_ascii_chars_encode_utf8("oauth_token"@);
    vstd::utf8::is_ascii_chars_encode_utf8("oauth_version"@);
    let ck = kb("oauth_consumer_key"@);
    let no = kb("oauth_nonce"@);
    let si = kb("oauth_signature"@);
    let sm = kb("oauth_signature_method"@);
    let ti = kb("oauth_timestamp"@);
    let to = kb("oauth_token"@);
    let ve = kb("oauth_version"@);
    crate::params::lemma_bytes_lt_at(ck, no, 6);
    crate::params::lemma_bytes_lt_at(ck, si, 6);
    crate::params::lemma_bytes_lt_at(ck, sm, 6);
    crate::params::lemma_bytes_lt_at(ck, ti, 6);
    crate::params::lemma_bytes_lt_at(ck, to, 6);
    crate::params::lemma_bytes_lt_at(ck, ve, 6);
    crate::params::lemma_bytes_lt_at(no, si, 6);
    crate::params::lemma_bytes_lt_at(no, sm, 6);
    crate::params::lemma_bytes_lt_at(no, ti, 6);
    crate::params::lemma_bytes_lt_at(no, to, 6);
    crate::params::lemma_bytes_lt_at(no, ve, 6);
    crate::params::lemma_bytes_lt_at(si, sm, 15);
    crate::params::lemma_bytes_lt_at(sm, ti, 6);
    crate::params::lemma_bytes_lt_at(sm, to, 6);
    crate::params::lemma_bytes_lt_at(sm, ve, 6);
    crate::params::lemma_bytes_lt_at(ti, to, 7);
    crate::params::lemma_bytes_lt_at(ti, ve, 6);
    crate::params::lemma_bytes_lt_at(to, ve, 6);
}

/// The seven signed pairs, in canonical order.
spec fn seven_pairs(c: &Config, nonce: Seq<char>, ts: Seq<char>, sig: Seq<char>) -> Seq<Pair> {
    seq![
        ("oauth_consumer_key"@, c.api_key@),
        ("oauth_nonce"@, nonce),
        ("oauth_signature"@, sig),
        ("oauth_signature_method"@, "HMAC-SHA1"@),
        ("oauth_timestamp"@, ts),
        ("oauth_token"@, c.access_token@),
        ("oauth_version"@, "1.0"@),
    ]
}

/// With no extras, the signed parameter set is exactly the seven pairs in
/// canonical order.
proof fn lemma_signed_params_eval(c: &Config, n: Seq<char>, t: Seq<char>, sig: Seq<char>)
    ensures
        spec_insert(full_params(c, Seq::empty(), n, t), "oauth_signature"@, sig) == seven_pairs(
            c,
            n,
            t,
            sig,
        ),
{
    lemma_key_order();
    let e = Seq::<Pair>::empty();
    let p1 = spec_insert(e, "oauth_consumer_key"@, c.api_key@);
    assert(p1 =~= seq![("oauth_consumer_key"@, c.api_key@)]);
    let p2 = spec_insert(p1, "oauth_nonce"@, n);
    crate::params::lemma_spec_insert_prefix(p1, "oauth_nonce"@, n, 1);
    assert(p1.skip(1) =~= e);
    assert(p2 =~= p1 + seq![("oauth_nonce"@, n)]);
    let p3 = spec_insert(p2, "oauth_signature_method"@, "HMAC-SHA1"@);
    crate::params::lemma_spec_insert_prefix(p2, "oauth_signature_method"@, "HMAC-SHA1"@, 2);
    assert(p2.skip(2) =~= e);
    assert(p3 =~= p2 + seq![("oauth_signature_method"@, "HMAC-SHA1"@)]);
    let p4 = spec_insert(p3, "oauth_timestamp"@, t);
    crate::params::lemma_spec_insert_prefix(p3, "oauth_timestamp"@, t, 3);
    assert(p3.skip(3) =~= e);
    assert(p4 =~= p3 + seq![("oauth_timestamp"@, t)]);
    let p5 = spec_insert(p4, "oauth_token"@, c.access_token@);
    crate::params::lemma_spec_insert_prefix(p4, "oauth_token"@, c.access_token@, 4);
    assert(p4.skip(4) =~= e);
    assert(p5 =~= p4 + seq![("oauth_token"@, c.access_token@)]);
    let p6 = spec_insert(p5, "oauth_version"@, "1.0"@);
    crate::params::lemma_spec_insert_prefix(p5, "oauth_version"@, "1.0"@, 5);
    assert(p5.skip(5) =~= e);
    assert(p6 =~= p5 + seq![("oauth_version"@, "1.0"@)]);
    assert(p6 == base_params(c, n, t));
    assert(fold_insert(p6, e) == p6);
    let signed = spec_insert(p6, "oauth_signature"@, sig);
    crate::params::lemma_spec_insert_prefix(p6, "oauth_signature"@, sig, 2);
    let rest = p6.skip(2);
    assert(rest[0] == ("oauth_signature_method"@, "HMAC-SHA1"@));
    assert(bytes_lt(kb("oauth_signature"@), kb(rest[0].0)));
    assert(spec_insert(rest, "oauth_signature"@, sig) == seq![("oauth_signature"@, sig)] + rest);
    assert(signed =~= seven_pairs(c, n, t, sig));
}

/// The part of the header that precedes the nonce: it depends on the
/// credentials alone.
spec fn header_prefix(c: &Config) -> Seq<char> {
    "OAuth "@ + quoted_pair(("oauth_consumer_key"@, c.api_key@)) + seq![',', ' '] + pct(
        "oauth_nonce"@,
    ) + seq!['=', '"']
}

/// With no extras, the header carries the nonce in the clear, right after a
/// prefix that depends on the credentials alone.
proof fn lemma_header_shape(
    c: &Config,
    method: Seq<char>,
    url: Seq<char>,
    n: Seq<char>,
    t: Seq<char>,
)
    requires
        is_hex32(n),
    ensures
        ({
            let h = spec_header(c, method, url, Seq::empty(), n, t);
            let hp = header_prefix(c);
            h.len() >= hp.len() + 32 && h.subrange(hp.len() as int, hp.len() as int + 32) == n
        }),
{
    reveal_strlit("oauth_consumer_key");
    reveal_strlit("oauth_nonce");
    reveal_strlit("oauth_signature");
    reveal_strlit("oauth_signature_method");
    reveal_strlit("oauth_timestamp");
    reveal_strlit("oauth_token");
    reveal_strlit("oauth_version");
    let sig = spec_signature(c, method, url, Seq::empty(), n, t);
    let seven = seven_pairs(c, n, t, sig);
    lemma_signed_params_eval(c, n, t, sig);
    let h = spec_header(c, method, url, Seq::empty(), n, t);
    assert(h == "OAuth "@ + join_pairs(oauth_only(seven)));
    // the seven keys all carry the protocol prefix
    let r2 = seven.drop_first().drop_first();
    let r3 = r2.drop_first();
    let r4 = r3.drop_first();
    let r5 = r4.drop_first();
    let r6 = r5.drop_first();
    let r7 = r6.drop_first();
    assert(r7 =~= Seq::<Pair>::empty());
    assert(oauth_only(r7) =~= Seq::<Pair>::empty());
    assert(oauth_only(r6) =~= seq![r6[0]] + oauth_only(r7));
    assert(oauth_only(r5) =~= seq![r5[0]] + oauth_only(r6));
    assert(oauth_only(r4) =~= seq![r4[0]] + oauth_only(r5));
    assert(oauth_only(r3) =~= seq![r3[0]] + oauth_only(r4));
    assert(oauth_only(r2) =~= seq![r2[0]] + oauth_only(r3));
    assert(oauth_only(seven.drop_first()) =~= seq![seven[1]] + oauth_only(r2));
    assert(oauth_only(seven) =~= seq![seven[0]] + oauth_only(seven.drop_first()));
    assert(oauth_only(seven) =~= seven);
    // peel the first two joined elements off
    let rest1 = seven.drop_first();
    assert(join_pairs(seven) == quoted_pair(seven[0]) + seq![',', ' '] + join_pairs(rest1));
    assert(join_pairs(rest1) == quoted_pair(rest1[0]) + seq![',', ' '] + join_pairs(
        rest1.drop_first(),
    ));
    assert(rest1[0] == ("oauth_nonce"@, n));
    assert forall|i: int| 0 <= i < n.len() implies is_lower_hex(#[trigger] n[i]) by {}
    lemma_pct_hex_identity(n);
    let q1 = quoted_pair(("oauth_nonce"@, n));
    assert(q1 == pct("oauth_nonce"@) + seq!['=', '"'] + n + seq!['"']);
    let hp = header_prefix(c);
    let tail = seq!['"'] + seq![',', ' '] + join_pairs(rest1.drop_first());
    assert(h =~= hp + n + tail);
    assert(h.len() == hp.len() + 32 + tail.len());
    assert(h.subrange(hp.len() as int, hp.len() as int + 32) =~= n);
}

/// No signature reuse: with no extra parameters, two signings whose nonces
/// differ emit different authorization values — the nonce stands in the
/// clear at a fixed place after a prefix that depends on the credentials
/// alone.
pub proof fn lemma_distinct_nonce_distinct_header(
    c: &Config,
    method: Seq<char>,
    url: Seq<char>,
    n1: Seq<char>,
    t1: Seq<char>,
    n2: Seq<char>,
    t2: Seq<char>,
)
    requires
        is_hex32(n1),
        is_hex32(n2),
        n1 != n2,
    ensures
        spec_header(c, method, url, Seq::empty(), n1, t1) != spec_header(
            c,
            method,
            url,
            Seq::empty(),
            n2,
            t2,
        ),
{
    lemma_header_shape(c, method, url, n1, t1);
    lemma_header_shape(c, method, url, n2, t2);
    let h1 = spec_header(c, method, url, Seq::empty(), n1, t1);
    let h2 = spec_header(c, method, url, Seq::empty(), n2, t2);
    let hp = header_prefix(c);
    if h1 == h2 {
        assert(h1.subrange(hp.len() as int, hp.len() as int + 32) == h2.subrange(
            hp.len() as int,
            hp.len() as int + 32,
        ));
        assert(n1 == n2);
    }
}

/// A fresh nonce: 16 random bytes as 32 lowercase hexadecimal characters.
pub fn make_nonce() -> (r: String)
    ensures
        is_hex32(r@),
{
    let bytes = random_bytes16();
    let r = crate::encoding::encode(bytes.as_slice());
    proof {
        lemma_hex_of_shape(bytes@);
    }
    r
}

/// Build the authorization value with a fresh timestamp and nonce. The
/// nonce and timestamp are drawn anew on every call, never cached, so the
/// value is single-use by construction.
pub fn oauth_header(config: &Config, method: &str, url: &str, extra: &ParamList) -> (r: String)
    requires
        extra.wf(),
    ensures
        exists|nonce: Seq<char>, t: u64|
            is_hex32(nonce) && r@ == #[trigger] spec_header(
                config,
                method@,
                url@,
                extra@,
                nonce,
                crate::numbers::dec_of(t as nat),
            ),
{
    let nonce = make_nonce();
    let t = unix_timestamp();
    let ts = crate::numbers::u64_to_string(t);
    let r = oauth_header_with(config, method, url, extra, nonce.as_str(), ts.as_str());
    proof {
        assert(is_hex32(nonce@) && r@ == spec_header(
            config,
            method@,
            url@,
            extra@,
            nonce@,
            crate::numbers::dec_of(t as nat),
        ));
    }
    r
}

} // verus!
