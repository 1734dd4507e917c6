//! The rule by which a scene picks, among the surfaces that a ray strikes,
//! the one it reports: the nearest, and among equally near ones the first.
//!
//! Distances are compared through integer keys. A distance is handed over as
//! the bit pattern of a single-precision number; `distance_key` turns the
//! pattern into a key that grows as the number grows.

use vstd::prelude::*;

verus! {

/// The bit that holds the sign in a single-precision bit pattern.
pub const SIGN_BIT: u32 = 0x8000_0000u32;

/// The key of a bit pattern: a pattern with the sign set has every bit
/// flipped, one with the sign clear has the sign set.
pub open spec fn key_of(bits: u32) -> u32 {
    if bits & SIGN_BIT != 0 {
        !bits
    } else {
        bits | SIGN_BIT
    }
}

/// Whether `winner` is what a scene reports for the given candidates.
///
/// Entry `i` of `keys` is the distance key of the hit on surface `i`, or
/// `None` where the ray misses it. No winner means that the ray misses every
/// surface. A winner is a hit that no other hit is nearer than, and that
/// every earlier hit is strictly farther than.
pub open spec fn is_nearest(keys: Seq<Option<u32>>, winner: Option<int>) -> bool {
    match winner {
        None => forall|i: int| 0 <= i < keys.len() ==> (#[trigger] keys[i]) is None,
        Some(w) => {
            &&& 0 <= w < keys.len()
            &&& keys[w] is Some
            &&& forall|i: int|
                0 <= i < keys.len() && (#[trigger] keys[i]) is Some ==> keys[w].unwrap()
                    <= keys[i].unwrap()
            &&& forall|i: int|
                0 <= i < w && (#[trigger] keys[i]) is Some ==> keys[w].unwrap() < keys[i].unwrap()
        },
    }
}

/// The key that the winner holds, if there is a winner.
pub open spec fn winning_key(keys: Seq<Option<u32>>, winner: Option<int>) -> Option<u32> {
    match winner {
        None => None,
        Some(w) => keys[w],
    }
}

/// The order key of the distance whose single-precision bit pattern is
/// `bits`.
pub fn distance_key(bits: u32) -> (key: u32)
    ensures
        key == key_of(bits),
{
    if bits & SIGN_BIT != 0 {
        !bits
    } else {
        bits | SIGN_BIT
    }
}

/// The index of the nearest candidate, the first one among equally near
/// ones, or `None` where there is no candidate at all.
pub fn nearest(keys: &Vec<Option<u32>>) -> (winner: Option<usize>)
    ensures
        is_nearest(
            keys@,
            match winner {
                Some(w) => Some(w as int),
                None => None,
            },
        ),
{
    let mut best: Option<usize> = None;
    let mut best_key: u32 = 0;
    let mut i: usize = 0;
    while i < keys.len()
        invariant
            i <= keys@.len(),
            best matches Some(w) ==> w < i && keys@[w as int] == Some(best_key),
            is_nearest(
                keys@.subrange(0, i as int),
                match best {
                    Some(w) => Some(w as int),
                    None => None,
                },
            ),
        decreases keys@.len() - i,
    {
        let ghost before = keys@.subrange(0, i as int);
        let ghost after = keys@.subrange(0, i + 1);
        assert forall|j: int| 0 <= j < i implies #[trigger] after[j] == before[j] by {}
        match keys[i] {
            Some(k) => {
                if best.is_none() || k < best_key {
                    best = Some(i);
                    best_key = k;
                }
            },
            None => {},
        }
        i = i + 1;
    }
    assert(keys@.subrange(0, i as int) =~= keys@);
    best
}

/// Two different bit patterns never share a key.
pub proof fn lemma_key_is_one_to_one(a: u32, b: u32)
    requires
        key_of(a) == key_of(b),
    ensures
        a == b,
{
    assert(key_of(a) == key_of(b) ==> a == b) by (bit_vector);
}

/// Among patterns with the sign clear, the key grows exactly as the pattern
/// grows.
pub proof fn lemma_key_order_sign_clear(a: u32, b: u32)
    requires
        a & SIGN_BIT == 0,
        b & SIGN_BIT == 0,
    ensures
        key_of(a) < key_of(b) <==> a < b,
{
    assert((a & SIGN_BIT == 0 && b & SIGN_BIT == 0) ==> (key_of(a) < key_of(b) <==> a < b))
        by (bit_vector);
}

/// Among patterns with the sign set, the key falls exactly as the pattern
/// grows.
pub proof fn lemma_key_order_sign_set(a: u32, b: u32)
    requires
        a & SIGN_BIT != 0,
        b & SIGN_BIT != 0,
    ensures
        key_of(a) < key_of(b) <==> b < a,
{
    assert((a & SIGN_BIT != 0 && b & SIGN_BIT != 0) ==> (key_of(a) < key_of(b) <==> b < a))
        by (bit_vector);
}

/// A pattern with the sign set has a smaller key than any with the sign
/// clear.
pub proof fn lemma_key_order_mixed(a: u32, b: u32)
    requires
        a & SIGN_BIT != 0,
        b & SIGN_BIT == 0,
    ensures
        key_of(a) < key_of(b),
{
    assert((a & SIGN_BIT != 0 && b & SIGN_BIT == 0) ==> key_of(a) < key_of(b)) by (bit_vector);
}

/// A ray that misses every surface hits nothing; so does any ray in a scene
/// without surfaces.
pub proof fn lemma_all_missed(keys: Seq<Option<u32>>, winner: Option<int>)
    requires
        forall|i: int| 0 <= i < keys.len() ==> (#[trigger] keys[i]) is None,
        is_nearest(keys, winner),
    ensures
        winner is None,
{
    if let Some(w) = winner {
        assert(keys[w] is None);
    }
}

/// The candidates decide the winner: no list has two.
pub proof fn lemma_nearest_is_unique(keys: Seq<Option<u32>>, first: Option<int>, second: Option<int>)
    requires
        is_nearest(keys, first),
        is_nearest(keys, second),
    ensures
        first == second,
{
    match (first, second) {
        (Some(a), Some(b)) => {
            assert(keys[a] is Some);
            assert(keys[b] is Some);
            if a < b {
                assert(keys[b].unwrap() < keys[a].unwrap());
            } else if b < a {
                assert(keys[a].unwrap() < keys[b].unwrap());
            }
        },
        (Some(a), None) => {
            assert(keys[a] is Some);
        },
        (None, Some(b)) => {
            assert(keys[b] is Some);
        },
        (None, None) => {},
    }
}

/// The order of the surfaces does not change how near the reported hit is:
/// two lists that hold the same candidates have winners with the same key.
pub proof fn lemma_order_is_irrelevant(
    a: Seq<Option<u32>>,
    b: Seq<Option<u32>>,
    in_a: Option<int>,
    in_b: Option<int>,
)
    requires
        forall|i: int| 0 <= i < a.len() ==> b.contains(#[trigger] a[i]),
        forall|j: int| 0 <= j < b.len() ==> a.contains(#[trigger] b[j]),
        is_nearest(a, in_a),
        is_nearest(b, in_b),
    ensures
        winning_key(a, in_a) == winning_key(b, in_b),
{
    match in_a {
        Some(wa) => {
            assert(b.contains(a[wa]));
            let j = choose|j: int| 0 <= j < b.len() && b[j] == a[wa];
            assert(b[j] is Some);
            match in_b {
                Some(wb) => {
                    assert(a.contains(b[wb]));
                    let i = choose|i: int| 0 <= i < a.len() && a[i] == b[wb];
                    assert(a[i] is Some);
                    assert(a[wa].unwrap() <= a[i].unwrap());
                    assert(b[wb].unwrap() <= b[j].unwrap());
                },
                None => {},
            }
        },
        None => {
            match in_b {
                Some(wb) => {
                    assert(a.contains(b[wb]));
                    let i = choose|i: int| 0 <= i < a.len() && a[i] == b[wb];
                    assert(a[i] is None);
                },
                None => {},
            }
        },
    }
}

} // verus!
