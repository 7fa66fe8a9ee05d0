//! The order in which text keys are kept: byte-wise lexicographic order of
//! their UTF-8 encoding. Keyed containers of this crate hold their entries in
//! strictly ascending key order, so that a key occurs at most once and a
//! listing of a container is a function of its contents alone.

use vstd::prelude::*;
use vstd::utf8::encode_utf8;
use vstd::utf8::encode_utf8_decode_utf8;
use vstd::utf8::decode_utf8;
use vstd::string::StringSliceAdditionalSpecFns;

verus! {

/// Strict lexicographic order on byte sequences: a proper prefix comes first,
/// otherwise the first differing byte decides.
pub open spec fn bytes_lt(a: Seq<u8>, b: Seq<u8>) -> bool
    decreases a.len(),
{
    if b.len() == 0 {
        false
    } else if a.len() == 0 {
        true
    } else if a[0] != b[0] {
        a[0] < b[0]
    } else {
        bytes_lt(a.drop_first(), b.drop_first())
    }
}

/// Strict order on text keys: the byte order of their UTF-8 encodings.
pub open spec fn key_lt(a: Seq<char>, b: Seq<char>) -> bool {
    bytes_lt(encode_utf8(a), encode_utf8(b))
}

/// No byte sequence comes before itself.
pub proof fn lemma_bytes_lt_irreflexive(a: Seq<u8>)
    ensures
        !bytes_lt(a, a),
    decreases a.len(),
{
    if a.len() > 0 {
        lemma_bytes_lt_irreflexive(a.drop_first());
    }
}

/// The byte order is transitive.
pub proof fn lemma_bytes_lt_transitive(a: Seq<u8>, b: Seq<u8>, c: Seq<u8>)
    requires
        bytes_lt(a, b),
        bytes_lt(b, c),
    ensures
        bytes_lt(a, c),
    decreases a.len(),
{
    if a.len() > 0 && b.len() > 0 && c.len() > 0 && a[0] == b[0] && b[0] == c[0] {
        lemma_bytes_lt_transitive(a.drop_first(), b.drop_first(), c.drop_first());
    }
}

/// Two different byte sequences are ordered one way or the other.
pub proof fn lemma_bytes_lt_total(a: Seq<u8>, b: Seq<u8>)
    requires
        a != b,
    ensures
        bytes_lt(a, b) || bytes_lt(b, a),
    decreases a.len(),
{
    if a.len() > 0 && b.len() > 0 && a[0] == b[0] {
        let x = a.drop_first();
        let y = b.drop_first();
        if x == y {
            assert(a =~= seq![a[0]] + x);
            assert(b =~= seq![b[0]] + y);
        }
        lemma_bytes_lt_total(x, y);
    } else if a.len() == 0 && b.len() == 0 {
        assert(a =~= b);
    }
}

/// No key comes before itself.
pub proof fn lemma_key_lt_irreflexive(a: Seq<char>)
    ensures
        !key_lt(a, a),
{
    lemma_bytes_lt_irreflexive(encode_utf8(a));
}

/// A key never comes both before and after another.
pub proof fn lemma_key_lt_asymmetric(a: Seq<char>, b: Seq<char>)
    requires
        key_lt(a, b),
    ensures
        !key_lt(b, a),
{
    if key_lt(b, a) {
        lemma_bytes_lt_transitive(encode_utf8(a), encode_utf8(b), encode_utf8(a));
        lemma_bytes_lt_irreflexive(encode_utf8(a));
    }
}

/// The key order is transitive.
pub proof fn lemma_key_lt_transitive(a: Seq<char>, b: Seq<char>, c: Seq<char>)
    requires
        key_lt(a, b),
        key_lt(b, c),
    ensures
        key_lt(a, c),
{
    lemma_bytes_lt_transitive(encode_utf8(a), encode_utf8(b), encode_utf8(c));
}

/// Two different keys are ordered one way or the other.
pub proof fn lemma_key_lt_total(a: Seq<char>, b: Seq<char>)
    requires
        a != b,
    ensures
        key_lt(a, b) || key_lt(b, a),
{
    if encode_utf8(a) == encode_utf8(b) {
        encode_utf8_decode_utf8(a);
        encode_utf8_decode_utf8(b);
        assert(decode_utf8(encode_utf8(a)) == a);
        assert(decode_utf8(encode_utf8(b)) == b);
    }
    lemma_bytes_lt_total(encode_utf8(a), encode_utf8(b));
}

/// The keys stand in strictly ascending order.
pub open spec fn ascending(keys: Seq<Seq<char>>) -> bool {
    forall|i: int, j: int| 0 <= i < j < keys.len() ==> key_lt(#[trigger] keys[i], #[trigger] keys[j])
}

/// In an ascending sequence no key occurs twice.
pub proof fn lemma_ascending_distinct(keys: Seq<Seq<char>>, i: int, j: int)
    requires
        ascending(keys),
        0 <= i < keys.len(),
        0 <= j < keys.len(),
        keys[i] == keys[j],
    ensures
        i == j,
{
    lemma_key_lt_irreflexive(keys[i]);
}

/// An ascending sequence is determined by the keys that occur in it.
pub proof fn lemma_ascending_unique(a: Seq<Seq<char>>, b: Seq<Seq<char>>)
    requires
        ascending(a),
        ascending(b),
        a.to_set() == b.to_set(),
    ensures
        a == b,
    decreases a.len(),
{
    assert forall|i: int, j: int| 0 <= i < a.len() && 0 <= j < a.len() && i != j implies a[i]
        != a[j] by {
        if a[i] == a[j] {
            lemma_ascending_distinct(a, i, j);
        }
    }
    assert forall|i: int, j: int| 0 <= i < b.len() && 0 <= j < b.len() && i != j implies b[i]
        != b[j] by {
        if b[i] == b[j] {
            lemma_ascending_distinct(b, i, j);
        }
    }
    a.unique_seq_to_set();
    b.unique_seq_to_set();
    if a.len() > 0 {
        let x = a.last();
        let y = b.last();
        assert(a.contains(x));
        assert(b.contains(y));
        assert(b.to_set().contains(x));
        assert(a.to_set().contains(y));
        let j = choose|j: int| 0 <= j < a.len() && a[j] == y;
        let k = choose|k: int| 0 <= k < b.len() && b[k] == x;
        if x != y {
            assert(key_lt(a[j], a[a.len() - 1]));
            assert(key_lt(b[k], b[b.len() - 1]));
            lemma_key_lt_asymmetric(x, y);
        }
        let shorter_a = a.drop_last();
        let shorter_b = b.drop_last();
        assert forall|key: Seq<char>| shorter_a.contains(key) <==> shorter_b.contains(key) by {
            if shorter_a.contains(key) {
                let i = choose|i: int| 0 <= i < shorter_a.len() && shorter_a[i] == key;
                assert(a[i] == key);
                assert(a.contains(key));
                assert(b.to_set().contains(key));
                let m = choose|m: int| 0 <= m < b.len() && b[m] == key;
                if m == b.len() - 1 {
                    lemma_ascending_distinct(a, i, a.len() - 1);
                }
                assert(shorter_b[m] == key);
            }
            if shorter_b.contains(key) {
                let i = choose|i: int| 0 <= i < shorter_b.len() && shorter_b[i] == key;
                assert(b[i] == key);
                assert(b.contains(key));
                assert(a.to_set().contains(key));
                let m = choose|m: int| 0 <= m < a.len() && a[m] == key;
                if m == a.len() - 1 {
                    lemma_ascending_distinct(b, i, b.len() - 1);
                }
                assert(shorter_a[m] == key);
            }
        }
        assert(shorter_a.to_set() =~= shorter_b.to_set());
        lemma_ascending_unique(shorter_a, shorter_b);
        assert(a =~= shorter_a.push(x));
        assert(b =~= shorter_b.push(y));
    } else {
        assert(a =~= b);
    }
}

/// A key put between the keys below it and the keys above it leaves the
/// sequence ascending.
pub proof fn lemma_ascending_insert(keys: Seq<Seq<char>>, p: int, k: Seq<char>)
    requires
        ascending(keys),
        0 <= p <= keys.len(),
        forall|i: int| 0 <= i < p ==> key_lt(#[trigger] keys[i], k),
        p < keys.len() ==> key_lt(k, keys[p]),
    ensures
        ascending(keys.insert(p, k)),
{
    let out = keys.insert(p, k);
    assert forall|i: int, j: int| 0 <= i < j < out.len() implies key_lt(
        #[trigger] out[i],
        #[trigger] out[j],
    ) by {
        if j == p {
            assert(out[i] == keys[i]);
        } else if i == p {
            assert(out[j] == keys[j - 1]);
            if j - 1 > p {
                assert(key_lt(keys[p], keys[j - 1]));
                lemma_key_lt_transitive(k, keys[p], keys[j - 1]);
            }
        } else {
            let a = if i < p { i } else { i - 1 };
            let b = if j < p { j } else { j - 1 };
            assert(out[i] == keys[a]);
            assert(out[j] == keys[b]);
            assert(key_lt(keys[a], keys[b]));
        }
    }
}

/// Taking a key out leaves the sequence ascending.
pub proof fn lemma_ascending_remove(keys: Seq<Seq<char>>, p: int)
    requires
        ascending(keys),
        0 <= p < keys.len(),
    ensures
        ascending(keys.remove(p)),
{
    let out = keys.remove(p);
    assert forall|i: int, j: int| 0 <= i < j < out.len() implies key_lt(
        #[trigger] out[i],
        #[trigger] out[j],
    ) by {
        let a = if i < p { i } else { i + 1 };
        let b = if j < p { j } else { j + 1 };
        assert(out[i] == keys[a]);
        assert(out[j] == keys[b]);
        assert(key_lt(keys[a], keys[b]));
    }
}

/// Decides the byte order of two slices.
pub fn bytes_before(a: &[u8], b: &[u8]) -> (r: bool)
    ensures
        r == bytes_lt(a@, b@),
{
    let mut i: usize = 0;
    proof {
        assert(a@.skip(0) =~= a@);
        assert(b@.skip(0) =~= b@);
    }
    while i < a.len() && i < b.len()
        invariant
            i <= a@.len(),
            i <= b@.len(),
            bytes_lt(a@, b@) == bytes_lt(a@.skip(i as int), b@.skip(i as int)),
        decreases a@.len() - i,
    {
        let x: u8 = a[i];
        let y: u8 = b[i];
        proof {
            let sa = a@.skip(i as int);
            let sb = b@.skip(i as int);
            assert(sa[0] == x);
            assert(sb[0] == y);
            assert(sa.drop_first() =~= a@.skip(i + 1));
            assert(sb.drop_first() =~= b@.skip(i + 1));
        }
        if x != y {
            return x < y;
        }
        i = i + 1;
    }
    proof {
        let sa = a@.skip(i as int);
        let sb = b@.skip(i as int);
        assert(sa.len() == a@.len() - i);
        assert(sb.len() == b@.len() - i);
    }
    i < b.len()
}

/// Decides whether key `a` comes strictly before key `b`.
pub fn key_before(a: &String, b: &String) -> (r: bool)
    ensures
        r == key_lt(a@, b@),
{
    bytes_before(a.as_str().as_bytes(), b.as_str().as_bytes())
}

} // verus!
