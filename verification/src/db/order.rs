//! The order of keys: that of their bytes.

use vstd::prelude::*;
use vstd::utf8::{encode_utf8, encode_utf8_decode_utf8};

verus! {

/// The bytes of a key: its text in UTF-8.
pub open spec fn key_bytes(key: Seq<char>) -> Seq<u8> {
    encode_utf8(key)
}

/// `a` and `b` hold the same bytes before index `k`.
pub open spec fn agree_before(a: Seq<u8>, b: Seq<u8>, k: int) -> bool {
    &&& 0 <= k <= a.len()
    &&& k <= b.len()
    &&& forall|j: int| 0 <= j < k ==> a[j] == b[j]
}

/// `a` and `b` first differ at index `k`, where `a` ends or holds the smaller
/// byte.
pub open spec fn precedes_at(a: Seq<u8>, b: Seq<u8>, k: int) -> bool {
    &&& agree_before(a, b, k)
    &&& k < b.len()
    &&& k < a.len() ==> a[k] < b[k]
}

/// `a` comes before `b` in the order of byte strings: at the first index
/// where they differ `a` holds the smaller byte, or `a` ends there and `b`
/// goes on.
pub open spec fn precedes(a: Seq<u8>, b: Seq<u8>) -> bool {
    exists|k: int| precedes_at(a, b, k)
}

/// The keys of a list come in strictly ascending order.
pub open spec fn ascending(keys: Seq<Seq<char>>) -> bool {
    forall|i: int, j: int|
        0 <= i < j < keys.len() ==> precedes(key_bytes(#[trigger] keys[i]), key_bytes(#[trigger] keys[j]))
}

/// Nothing comes before itself.
pub proof fn precedes_irreflexive(a: Seq<u8>)
    ensures
        !precedes(a, a),
{
}

/// Of two byte strings at most one comes before the other.
pub proof fn precedes_asymmetric(a: Seq<u8>, b: Seq<u8>)
    requires
        precedes(a, b),
    ensures
        !precedes(b, a),
{
    let k = choose|k: int| precedes_at(a, b, k);
    if precedes(b, a) {
        let m = choose|m: int| precedes_at(b, a, m);
        if m < k {
            assert(a[m] == b[m]);
        } else if k < m {
            assert(b[k] == a[k]);
        }
    }
}

/// What comes before something that comes before a third comes before the
/// third.
pub proof fn precedes_transitive(a: Seq<u8>, b: Seq<u8>, c: Seq<u8>)
    requires
        precedes(a, b),
        precedes(b, c),
    ensures
        precedes(a, c),
{
    let k = choose|k: int| precedes_at(a, b, k);
    let m = choose|m: int| precedes_at(b, c, m);
    if k <= m {
        assert(precedes_at(a, c, k)) by {
            if k < m {
                assert(b[k] == c[k]);
            }
        }
    } else {
        assert(a[m] == b[m]);
        assert(precedes_at(a, c, m));
    }
}

/// Of two different byte strings one comes before the other.
pub proof fn precedes_total(a: Seq<u8>, b: Seq<u8>)
    ensures
        a == b || precedes(a, b) || precedes(b, a),
{
    if a != b {
        lemma_first_difference(a, b, 0);
    }
}

proof fn lemma_first_difference(a: Seq<u8>, b: Seq<u8>, k: int)
    requires
        agree_before(a, b, k),
        a != b,
    ensures
        precedes(a, b) || precedes(b, a),
    decreases a.len() - k,
{
    if k == a.len() {
        if k == b.len() {
            assert(a =~= b);
        } else {
            assert(precedes_at(a, b, k));
        }
    } else if k == b.len() {
        assert(agree_before(b, a, k));
        assert(precedes_at(b, a, k));
    } else if a[k] < b[k] {
        assert(precedes_at(a, b, k));
    } else if b[k] < a[k] {
        assert(agree_before(b, a, k));
        assert(precedes_at(b, a, k));
    } else {
        lemma_first_difference(a, b, k + 1);
    }
}

/// Keys with the same bytes are the same key.
pub proof fn key_bytes_injective(a: Seq<char>, b: Seq<char>)
    requires
        key_bytes(a) == key_bytes(b),
    ensures
        a == b,
{
    encode_utf8_decode_utf8(a);
    encode_utf8_decode_utf8(b);
}

/// How one key stands to another.
#[derive(Debug, Clone, Copy, PartialEq, Eq, Structural)]
pub enum KeyOrder {
    Before,
    Same,
    After,
}

/// The order of two keys given by their bytes.
pub open spec fn key_order(a: Seq<char>, b: Seq<char>) -> KeyOrder {
    if a == b {
        KeyOrder::Same
    } else if precedes(key_bytes(a), key_bytes(b)) {
        KeyOrder::Before
    } else {
        KeyOrder::After
    }
}

/// How `a` stands to `b` in the order of keys.
pub fn compare_keys(a: &str, b: &str) -> (r: KeyOrder)
    ensures
        r == key_order(a@, b@),
        r == KeyOrder::After ==> precedes(key_bytes(b@), key_bytes(a@)),
{
    let x = a.as_bytes();
    let y = b.as_bytes();
    let mut i: usize = 0;
    while i < x.len() && i < y.len()
        invariant
            agree_before(x@, y@, i as int),
            x@ == key_bytes(a@),
            y@ == key_bytes(b@),
        decreases x.len() - i,
    {
        if x[i] < y[i] {
            assert(precedes_at(x@, y@, i as int));
            proof {
                precedes_irreflexive(x@);
            }
            return KeyOrder::Before;
        }
        if x[i] > y[i] {
            assert(agree_before(y@, x@, i as int));
            assert(precedes_at(y@, x@, i as int));
            proof {
                precedes_asymmetric(y@, x@);
                precedes_irreflexive(x@);
            }
            return KeyOrder::After;
        }
        i += 1;
    }
    if i < y.len() {
        assert(precedes_at(x@, y@, i as int));
        proof {
            precedes_irreflexive(x@);
        }
        KeyOrder::Before
    } else if i < x.len() {
        assert(agree_before(y@, x@, i as int));
        assert(precedes_at(y@, x@, i as int));
        proof {
            precedes_asymmetric(y@, x@);
            precedes_irreflexive(x@);
        }
        KeyOrder::After
    } else {
        assert(x@ =~= y@);
        proof {
            key_bytes_injective(a@, b@);
        }
        KeyOrder::Same
    }
}

} // verus!
