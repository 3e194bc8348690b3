//! The order of device names: that of their bytes.

use vstd::prelude::*;

verus! {

/// Whether `a` comes before `b` in the lexicographic order of bytes.
pub open spec fn bytes_before(a: Seq<u8>, b: Seq<u8>) -> bool
    decreases a.len(),
{
    if b.len() == 0 {
        false
    } else if a.len() == 0 {
        true
    } else if a[0] != b[0] {
        a[0] < b[0]
    } else {
        bytes_before(a.drop_first(), b.drop_first())
    }
}

/// Whether the name `a` comes before the name `b`.
pub open spec fn name_before(a: Seq<char>, b: Seq<char>) -> bool {
    bytes_before(vstd::utf8::encode_utf8(a), vstd::utf8::encode_utf8(b))
}

/// Whether the name `a` comes before the name `b`.
pub fn comes_before(a: &str, b: &str) -> (before: bool)
    ensures
        before == name_before(a@, b@),
{
    let left: &[u8] = a.as_bytes();
    let right: &[u8] = b.as_bytes();
    let mut i: usize = 0;
    assert(left@.skip(0) =~= left@ && right@.skip(0) =~= right@);
    while i < left.len() && i < right.len()
        invariant
            left@ == vstd::utf8::encode_utf8(a@),
            right@ == vstd::utf8::encode_utf8(b@),
            i <= left@.len(),
            i <= right@.len(),
            name_before(a@, b@) == bytes_before(left@.skip(i as int), right@.skip(i as int)),
        decreases left@.len() - i,
    {
        if left[i] != right[i] {
            return left[i] < right[i];
        }
        assert(left@.skip(i as int).drop_first() =~= left@.skip(i + 1));
        assert(right@.skip(i as int).drop_first() =~= right@.skip(i + 1));
        i = i + 1;
    }
    i < right.len()
}

proof fn lemma_bytes_irreflexive(a: Seq<u8>)
    ensures
        !bytes_before(a, a),
    decreases a.len(),
{
    if a.len() > 0 {
        lemma_bytes_irreflexive(a.drop_first());
    }
}

proof fn lemma_bytes_transitive(a: Seq<u8>, b: Seq<u8>, c: Seq<u8>)
    requires
        bytes_before(a, b),
        bytes_before(b, c),
    ensures
        bytes_before(a, c),
    decreases a.len(),
{
    if a.len() > 0 && a[0] == b[0] && b[0] == c[0] {
        lemma_bytes_transitive(a.drop_first(), b.drop_first(), c.drop_first());
    }
}

proof fn lemma_bytes_total(a: Seq<u8>, b: Seq<u8>)
    ensures
        bytes_before(a, b) || a == b || bytes_before(b, a),
    decreases a.len(),
{
    if a.len() > 0 && b.len() > 0 && a[0] == b[0] {
        lemma_bytes_total(a.drop_first(), b.drop_first());
        if a.drop_first() == b.drop_first() {
            assert(a =~= seq![a[0]] + a.drop_first());
            assert(b =~= seq![b[0]] + b.drop_first());
        }
    } else if a.len() == 0 && b.len() == 0 {
        assert(a =~= b);
    }
}

/// The order of names is a strict total order: no name comes before itself, of two names one
/// comes before the other, and a name that comes before another also comes before those behind
/// that one.
pub proof fn law_names_are_ordered(a: Seq<char>, b: Seq<char>, c: Seq<char>)
    ensures
        !name_before(a, a),
        name_before(a, b) || a == b || name_before(b, a),
        name_before(a, b) && name_before(b, c) ==> name_before(a, c),
{
    let x = vstd::utf8::encode_utf8(a);
    let y = vstd::utf8::encode_utf8(b);
    let z = vstd::utf8::encode_utf8(c);
    lemma_bytes_irreflexive(x);
    lemma_bytes_total(x, y);
    if x == y {
        vstd::utf8::encode_utf8_decode_utf8(a);
        vstd::utf8::encode_utf8_decode_utf8(b);
    }
    if name_before(a, b) && name_before(b, c) {
        lemma_bytes_transitive(x, y, z);
    }
}

/// The first difference decides: of two names that share their first `k` bytes, the one with the
/// smaller byte there comes first, and one that ends there comes before one that goes on.
pub proof fn law_first_difference_decides(a: &str, b: &str, k: int, before: bool)
    requires
        call_ensures(comes_before, (a, b), before),
        0 <= k <= vstd::utf8::encode_utf8(a@).len(),
        k <= vstd::utf8::encode_utf8(b@).len(),
        vstd::utf8::encode_utf8(a@).take(k) == vstd::utf8::encode_utf8(b@).take(k),
    ensures
        ({
            let x = vstd::utf8::encode_utf8(a@);
            let y = vstd::utf8::encode_utf8(b@);
            &&& k < x.len() && k < y.len() && x[k] != y[k] ==> before == (x[k] < y[k])
            &&& k == x.len() ==> before == (k < y.len())
            &&& k == y.len() ==> !before
        }),
{
    let x = vstd::utf8::encode_utf8(a@);
    let y = vstd::utf8::encode_utf8(b@);
    lemma_common_prefix(x, y, k);
}

proof fn lemma_common_prefix(x: Seq<u8>, y: Seq<u8>, k: int)
    requires
        0 <= k <= x.len(),
        k <= y.len(),
        x.take(k) == y.take(k),
    ensures
        bytes_before(x, y) == bytes_before(x.skip(k), y.skip(k)),
    decreases k,
{
    if k == 0 {
        assert(x.skip(0) =~= x && y.skip(0) =~= y);
    } else {
        assert(x[0] == x.take(k)[0] && y[0] == y.take(k)[0]);
        let x1 = x.drop_first();
        let y1 = y.drop_first();
        assert(x1.take(k - 1) =~= x.take(k).drop_first());
        assert(y1.take(k - 1) =~= y.take(k).drop_first());
        lemma_common_prefix(x1, y1, k - 1);
        assert(x1.skip(k - 1) =~= x.skip(k));
        assert(y1.skip(k - 1) =~= y.skip(k));
    }
}

} // verus!
