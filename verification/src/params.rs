//! Request parameters: caller-facing inputs and the sorted parameter list
//! whose byte-ascending key order the signature base string depends on.

use vstd::prelude::*;
use vstd::utf8::encode_utf8;

verus! {

/// Input for posting a single message.
pub struct PostTweetParams {
    /// The message text (at most 280 characters).
    pub text: String,
    /// Optional local file path of an image to attach.
    pub image: Option<String>,
}

/// One item of a reply chain.
pub struct ThreadTweet {
    /// The message text (at most 280 characters).
    pub text: String,
    /// Optional local file path of an image to attach.
    pub image: Option<String>,
}

/// Input for posting a reply chain (at most 25 items).
pub struct PostThreadParams {
    /// The items to post, in order.
    pub tweets: Vec<ThreadTweet>,
}

/// The UTF-8 bytes of a character sequence; keys sort by these bytes.
pub open spec fn kb(s: Seq<char>) -> Seq<u8> {
    encode_utf8(s)
}

/// Strict lexicographic (byte-ascending) order on byte sequences.
pub open spec fn bytes_lt(a: Seq<u8>, b: Seq<u8>) -> bool
    decreases a.len(),
{
    if b.len() == 0 {
        false
    } else if a.len() == 0 {
        true
    } else if a[0] < b[0] {
        true
    } else if a[0] > b[0] {
        false
    } else {
        bytes_lt(a.drop_first(), b.drop_first())
    }
}

/// Exactly one of `a < b`, `b < a`, `a == b` holds.
pub proof fn lemma_bytes_lt_trichotomy(a: Seq<u8>, b: Seq<u8>)
    ensures
        bytes_lt(a, b) || bytes_lt(b, a) || a == b,
        !(bytes_lt(a, b) && bytes_lt(b, a)),
        bytes_lt(a, b) ==> a != b,
    decreases a.len(),
{
    if a.len() == 0 && b.len() == 0 {
        assert(a =~= b);
    } else if a.len() > 0 && b.len() > 0 {
        if a[0] == b[0] {
            lemma_bytes_lt_trichotomy(a.drop_first(), b.drop_first());
            if a.drop_first() == b.drop_first() {
                assert(a.len() == b.len());
                assert forall|i: int| 0 <= i < a.len() implies a[i] == b[i] by {
                    if i > 0 {
                        assert(a.drop_first()[i - 1] == a[i]);
                        assert(b.drop_first()[i - 1] == b[i]);
                    }
                }
                assert(a =~= b);
            }
            if a == b {
                assert(a.drop_first() =~= b.drop_first());
            }
        }
    }
}

/// Byte sequences that agree up to a position where the first either ends
/// or holds the smaller byte are ordered.
pub proof fn lemma_bytes_lt_at(a: Seq<u8>, b: Seq<u8>, d: int)
    requires
        0 <= d <= a.len(),
        d < b.len(),
        forall|j: int| 0 <= j < d ==> a[j] == b[j],
        d == a.len() || a[d] < b[d],
    ensures
        bytes_lt(a, b),
    decreases d,
{
    if d == 0 {
    } else {
        assert(a[0] == b[0]);
        assert(forall|j: int|
            0 <= j < d - 1 ==> a.drop_first()[j] == a[j + 1] && b.drop_first()[j] == b[j + 1]);
        if d < a.len() {
            assert(a.drop_first()[d - 1] == a[d]);
            assert(b.drop_first()[d - 1] == b[d]);
        }
        lemma_bytes_lt_at(a.drop_first(), b.drop_first(), d - 1);
    }
}

/// Byte-ascending order is transitive.
pub proof fn lemma_bytes_lt_trans(a: Seq<u8>, b: Seq<u8>, c: Seq<u8>)
    requires
        bytes_lt(a, b),
        bytes_lt(b, c),
    ensures
        bytes_lt(a, c),
    decreases a.len(),
{
    if a.len() > 0 && b.len() > 0 && c.len() > 0 {
        if a[0] == b[0] && b[0] == c[0] {
            lemma_bytes_lt_trans(a.drop_first(), b.drop_first(), c.drop_first());
        }
    }
}

/// Compare two byte slices in byte-ascending lexicographic order.
pub fn bytes_lt_exec(a: &[u8], b: &[u8]) -> (r: bool)
    ensures
        r == bytes_lt(a@, b@),
    decreases a@.len(),
{
    let mut i: usize = 0;
    proof {
        assert(a@.skip(0) =~= a@);
        assert(b@.skip(0) =~= b@);
    }
    loop
        invariant
            i <= a@.len(),
            i <= b@.len(),
            bytes_lt(a@, b@) == bytes_lt(a@.skip(i as int), b@.skip(i as int)),
        decreases a@.len() - i,
    {
        if i >= b.len() {
            proof {
                assert(b@.skip(i as int).len() == 0);
            }
            return false;
        }
        if i >= a.len() {
            proof {
                assert(a@.skip(i as int).len() == 0);
                assert(b@.skip(i as int).len() > 0);
            }
            return true;
        }
        let x = a[i];
        let y = b[i];
        proof {
            assert(a@.skip(i as int)[0] == a@[i as int]);
            assert(b@.skip(i as int)[0] == b@[i as int]);
        }
        if x < y {
            return true;
        }
        if x > y {
            return false;
        }
        proof {
            assert(a@.skip(i as int).drop_first() =~= a@.skip(i + 1));
            assert(b@.skip(i as int).drop_first() =~= b@.skip(i + 1));
        }
        i = i + 1;
    }
}

/// A key/value pair as the signer sees it: character sequences.
pub type Pair = (Seq<char>, Seq<char>);

/// Entries are strictly ascending by the bytes of their keys
/// (so keys are also unique).
pub open spec fn sorted_strict(s: Seq<Pair>) -> bool {
    forall|i: int, j: int|
        0 <= i < j < s.len() ==> bytes_lt(kb(#[trigger] s[i].0), kb(#[trigger] s[j].0))
}

/// Where an insert places or substitutes a pair in a sorted sequence;
/// a pair whose key has the same bytes is replaced (last write wins).
pub open spec fn spec_insert(s: Seq<Pair>, k: Seq<char>, v: Seq<char>) -> Seq<Pair>
    decreases s.len(),
{
    if s.len() == 0 {
        seq![(k, v)]
    } else if bytes_lt(kb(k), kb(s[0].0)) {
        seq![(k, v)] + s
    } else if kb(k) == kb(s[0].0) {
        seq![(k, v)] + s.drop_first()
    } else {
        seq![s[0]] + spec_insert(s.drop_first(), k, v)
    }
}

/// Inserting into a sorted sequence keeps it sorted: parameter order is a
/// property of the keys alone, never of insertion order.
pub proof fn lemma_spec_insert_sorted(s: Seq<Pair>, k: Seq<char>, v: Seq<char>)
    requires
        sorted_strict(s),
    ensures
        sorted_strict(spec_insert(s, k, v)),
    decreases s.len(),
{
    if s.len() == 0 {
    } else if bytes_lt(kb(k), kb(s[0].0)) {
        let r = seq![(k, v)] + s;
        assert forall|i: int, j: int| 0 <= i < j < r.len() implies bytes_lt(
            kb(#[trigger] r[i].0),
            kb(#[trigger] r[j].0),
        ) by {
            if i == 0 && j > 1 {
                lemma_bytes_lt_trans(kb(k), kb(s[0].0), kb(s[j - 1].0));
            }
        }
    } else if kb(k) == kb(s[0].0) {
        let r = seq![(k, v)] + s.drop_first();
        assert forall|i: int, j: int| 0 <= i < j < r.len() implies bytes_lt(
            kb(#[trigger] r[i].0),
            kb(#[trigger] r[j].0),
        ) by {
            if i == 0 {
                assert(r[j].0 == s[j].0);
            }
        }
    } else {
        lemma_bytes_lt_trichotomy(kb(k), kb(s[0].0));
        assert(sorted_strict(s.drop_first())) by {
            assert(forall|i: int, j: int|
                0 <= i < j < s.drop_first().len() ==> s.drop_first()[i] == s[i + 1]
                    && s.drop_first()[j] == s[j + 1]);
        }
        lemma_spec_insert_sorted(s.drop_first(), k, v);
        let t = spec_insert(s.drop_first(), k, v);
        let r = seq![s[0]] + t;
        assert forall|i: int, j: int| 0 <= i < j < r.len() implies bytes_lt(
            kb(#[trigger] r[i].0),
            kb(#[trigger] r[j].0),
        ) by {
            if i == 0 {
                lemma_spec_insert_head(s.drop_first(), k, v, kb(s[0].0));
            }
        }
    }
}

/// Every key of an insert's result is either the inserted key or one already
/// present; a lower bound on all of them carries over.
proof fn lemma_spec_insert_head(s: Seq<Pair>, k: Seq<char>, v: Seq<char>, lo: Seq<u8>)
    requires
        bytes_lt(lo, kb(k)),
        forall|i: int| 0 <= i < s.len() ==> bytes_lt(lo, kb(#[trigger] s[i].0)),
    ensures
        forall|i: int|
            0 <= i < spec_insert(s, k, v).len() ==> bytes_lt(
                lo,
                kb(#[trigger] spec_insert(s, k, v)[i].0),
            ),
    decreases s.len(),
{
    let r = spec_insert(s, k, v);
    if s.len() == 0 {
        assert(r[0] == (k, v));
    } else if bytes_lt(kb(k), kb(s[0].0)) {
        assert forall|i: int| 0 <= i < r.len() implies bytes_lt(lo, kb(#[trigger] r[i].0)) by {
            if i == 0 {
                assert(r[i].0 == k);
            } else {
                assert(r[i] == s[i - 1]);
            }
        }
    } else if kb(k) == kb(s[0].0) {
        assert forall|i: int| 0 <= i < r.len() implies bytes_lt(lo, kb(#[trigger] r[i].0)) by {
            if i == 0 {
                assert(r[i].0 == k);
            } else {
                assert(r[i] == s[i]);
            }
        }
    } else {
        assert(forall|i: int|
            0 <= i < s.drop_first().len() ==> bytes_lt(lo, kb(#[trigger] s.drop_first()[i].0)));
        lemma_spec_insert_head(s.drop_first(), k, v, lo);
        let t = spec_insert(s.drop_first(), k, v);
        assert forall|i: int| 0 <= i < r.len() implies bytes_lt(lo, kb(#[trigger] r[i].0)) by {
            if i == 0 {
                assert(r[i] == s[0]);
            } else {
                assert(r[i] == t[i - 1]);
            }
        }
    }
}

/// Two sorted parameter sequences holding the same pairs are one sequence:
/// the order is canonical, never a trace of how the pairs arrived.
pub proof fn lemma_sorted_same_elements(s1: Seq<Pair>, s2: Seq<Pair>)
    requires
        sorted_strict(s1),
        sorted_strict(s2),
        forall|p: Pair| s1.contains(p) <==> s2.contains(p),
    ensures
        s1 == s2,
    decreases s1.len(),
{
    if s1.len() == 0 {
        if s2.len() > 0 {
            assert(s2.contains(s2[0]));
            assert(s1.contains(s2[0]));
        }
        assert(s1 =~= s2);
    } else {
        assert(s1.contains(s1[0]));
        assert(s2.contains(s1[0]));
        let j = choose|j: int| 0 <= j < s2.len() && s2[j] == s1[0];
        assert(s2.contains(s2[0]));
        assert(s1.contains(s2[0]));
        let i = choose|i: int| 0 <= i < s1.len() && s1[i] == s2[0];
        if j > 0 {
            assert(bytes_lt(kb(s2[0].0), kb(s1[0].0)));
            if i > 0 {
                assert(bytes_lt(kb(s1[0].0), kb(s2[0].0)));
                lemma_bytes_lt_trichotomy(kb(s1[0].0), kb(s2[0].0));
                assert(false);
            } else {
                lemma_bytes_lt_trichotomy(kb(s2[0].0), kb(s1[0].0));
                assert(false);
            }
        }
        assert(s2[0] == s1[0]);
        let t1 = s1.drop_first();
        let t2 = s2.drop_first();
        assert(sorted_strict(t1)) by {
            assert(forall|a: int, b: int|
                0 <= a < b < t1.len() ==> t1[a] == s1[a + 1] && t1[b] == s1[b + 1]);
        }
        assert(sorted_strict(t2)) by {
            assert(forall|a: int, b: int|
                0 <= a < b < t2.len() ==> t2[a] == s2[a + 1] && t2[b] == s2[b + 1]);
        }
        assert forall|p: Pair| t1.contains(p) implies t2.contains(p) by {
            let a = choose|a: int| 0 <= a < t1.len() && t1[a] == p;
            assert(s1[a + 1] == p);
            assert(s1.contains(p));
            assert(s2.contains(p));
            let b = choose|b: int| 0 <= b < s2.len() && s2[b] == p;
            if b == 0 {
                assert(p == s1[0]);
                assert(bytes_lt(kb(s1[0].0), kb(s1[a + 1].0)));
                lemma_bytes_lt_trichotomy(kb(s1[0].0), kb(p.0));
                assert(false);
            }
            assert(t2[b - 1] == p);
        }
        assert forall|p: Pair| t2.contains(p) implies t1.contains(p) by {
            let a = choose|a: int| 0 <= a < t2.len() && t2[a] == p;
            assert(s2[a + 1] == p);
            assert(s2.contains(p));
            assert(s1.contains(p));
            let b = choose|b: int| 0 <= b < s1.len() && s1[b] == p;
            if b == 0 {
                assert(p == s2[0]);
                assert(bytes_lt(kb(s2[0].0), kb(s2[a + 1].0)));
                lemma_bytes_lt_trichotomy(kb(s2[0].0), kb(p.0));
                assert(false);
            }
            assert(t1[b - 1] == p);
        }
        lemma_sorted_same_elements(t1, t2);
        assert(s1.len() == s2.len());
        assert forall|x: int| 0 <= x < s1.len() implies s1[x] == s2[x] by {
            if x > 0 {
                assert(t1[x - 1] == s1[x]);
                assert(t2[x - 1] == s2[x]);
            }
        }
        assert(s1 =~= s2);
    }
}

/// An ordered mapping of request parameters, kept sorted by the bytes of
/// its keys, values unique per key (an insert on an existing key replaces).
pub struct ParamList {
    entries: Vec<(String, String)>,
}

impl ParamList {
    /// The pairs in storage order, as character sequences.
    pub closed spec fn view(&self) -> Seq<Pair> {
        self.entries@.map(|i: int, e: (String, String)| (e.0@, e.1@))
    }

    /// The list is sorted strictly ascending by key bytes.
    pub open spec fn wf(&self) -> bool {
        sorted_strict(self@)
    }

    /// An empty parameter list.
    pub fn new() -> (r: ParamList)
        ensures
            r.wf(),
            r@ == Seq::<Pair>::empty(),
    {
        let r = ParamList { entries: Vec::new() };
        proof {
            assert(r@ =~= Seq::<Pair>::empty());
        }
        r
    }

    /// How many parameters are held.
    pub fn len(&self) -> (n: usize)
        ensures
            n == self@.len(),
    {
        self.entries.len()
    }

    /// The pair at a position, in sorted order.
    pub fn get(&self, i: usize) -> (r: (&String, &String))
        requires
            i < self@.len(),
        ensures
            r.0@ == self@[i as int].0,
            r.1@ == self@[i as int].1,
    {
        let e = &self.entries[i];
        (&e.0, &e.1)
    }

    /// Insert a parameter at its sorted place; a pair under the same key
    /// bytes is replaced, so the newest write wins.
    pub fn insert(&mut self, k: String, v: String)
        requires
            old(self).wf(),
        ensures
            final(self).wf(),
            final(self)@ == spec_insert(old(self)@, k@, v@),
    {
        let ghost s0 = self@;
        let i = self.scan(&k);
        proof {
            lemma_spec_insert_prefix(s0, k@, v@, i as int);
        }
        if i == self.entries.len() {
            self.entries.push((k, v));
            proof {
                assert(spec_insert(s0.skip(i as int), k@, v@) =~= seq![(k@, v@)]);
                assert(self@ =~= s0.take(i as int) + seq![(k@, v@)]);
                assert(s0.take(i as int) =~= s0);
                lemma_spec_insert_sorted(s0, k@, v@);
            }
        } else {
            let same = !bytes_lt_exec(k.as_str().as_bytes(), self.entries[i].0.as_str().as_bytes());
            proof {
                lemma_bytes_lt_trichotomy(kb(k@), kb(s0[i as int].0));
                assert(s0.skip(i as int)[0] == s0[i as int]);
            }
            if same {
                // equal key bytes: replace the pair
                self.entries.remove(i);
                self.entries.insert(i, (k, v));
                proof {
                    assert(spec_insert(s0.skip(i as int), k@, v@) =~= seq![(k@, v@)] + s0.skip(
                        i as int,
                    ).drop_first());
                    assert(self@ =~= s0.take(i as int) + (seq![(k@, v@)] + s0.skip(
                        i as int,
                    ).drop_first()));
                    lemma_spec_insert_sorted(s0, k@, v@);
                }
            } else {
                self.entries.insert(i, (k, v));
                proof {
                    assert(spec_insert(s0.skip(i as int), k@, v@) =~= seq![(k@, v@)] + s0.skip(
                        i as int,
                    ));
                    assert(self@ =~= s0.take(i as int) + (seq![(k@, v@)] + s0.skip(i as int)));
                    lemma_spec_insert_sorted(s0, k@, v@);
                }
            }
        }
    }

    /// Position of the first key that does not sort strictly below `k`.
    fn scan(&self, k: &String) -> (i: usize)
        ensures
            i <= self@.len(),
            forall|j: int| 0 <= j < i ==> bytes_lt(kb(#[trigger] self@[j].0), kb(k@)),
            i < self@.len() ==> !bytes_lt(kb(self@[i as int].0), kb(k@)),
    {
        let mut i: usize = 0;
        loop
            invariant
                i <= self@.len(),
                forall|j: int| 0 <= j < i ==> bytes_lt(kb(#[trigger] self@[j].0), kb(k@)),
            decreases self@.len() - i,
        {
            if i >= self.entries.len() {
                return i;
            }
            if !bytes_lt_exec(self.entries[i].0.as_str().as_bytes(), k.as_str().as_bytes()) {
                return i;
            }
            i = i + 1;
        }
    }
}

/// When the first `i` keys all sort below the inserted key, the insert acts
/// past them: the result is the prefix plus an insert into the rest.
pub proof fn lemma_spec_insert_prefix(s: Seq<Pair>, k: Seq<char>, v: Seq<char>, i: int)
    requires
        0 <= i <= s.len(),
        forall|j: int| 0 <= j < i ==> bytes_lt(kb(#[trigger] s[j].0), kb(k)),
    ensures
        spec_insert(s, k, v) == s.take(i) + spec_insert(s.skip(i), k, v),
    decreases i,
{
    if i == 0 {
        assert(s.skip(0) =~= s);
        assert(s.take(0) + spec_insert(s, k, v) =~= spec_insert(s, k, v));
    } else {
        lemma_bytes_lt_trichotomy(kb(k), kb(s[0].0));
        assert(spec_insert(s, k, v) == seq![s[0]] + spec_insert(s.drop_first(), k, v));
        assert(forall|j: int|
            0 <= j < i - 1 ==> bytes_lt(kb(#[trigger] s.drop_first()[j].0), kb(k)));
        lemma_spec_insert_prefix(s.drop_first(), k, v, i - 1);
        assert(s.drop_first().take(i - 1) =~= s.take(i).drop_first());
        assert(s.drop_first().skip(i - 1) =~= s.skip(i));
        assert(seq![s[0]] + (s.take(i).drop_first() + spec_insert(s.skip(i), k, v)) =~= s.take(i)
            + spec_insert(s.skip(i), k, v));
    }
}

} // verus!
