//! Choosing one position of a sequence: the first eligible position whose key is
//! least. With a constant key it is the first eligible position.

use vstd::prelude::*;

verus! {

/// Whether `k` is the position chosen among `0..len`: it is eligible, no eligible
/// position has a smaller key, and every eligible position before it has a greater
/// key.
pub open spec fn is_first_least(
    len: int,
    eligible: spec_fn(int) -> bool,
    key: spec_fn(int) -> int,
    k: int,
) -> bool {
    &&& 0 <= k < len
    &&& eligible(k)
    &&& forall|j: int| 0 <= j < len && #[trigger] eligible(j) ==> key(k) <= key(j)
    &&& forall|j: int| 0 <= j < k && #[trigger] eligible(j) ==> key(k) < key(j)
}

/// The position chosen among `0..len`, or `None` where no position is eligible.
pub open spec fn first_least(
    len: int,
    eligible: spec_fn(int) -> bool,
    key: spec_fn(int) -> int,
) -> Option<int> {
    if exists|k: int| is_first_least(len, eligible, key, k) {
        Some(choose|k: int| is_first_least(len, eligible, key, k))
    } else {
        None
    }
}

/// The key that is the same for every position.
pub open spec fn no_key() -> spec_fn(int) -> int {
    |k: int| 0
}

/// At most one position is chosen.
pub proof fn lemma_first_least_unique(
    len: int,
    eligible: spec_fn(int) -> bool,
    key: spec_fn(int) -> int,
    a: int,
    b: int,
)
    requires
        is_first_least(len, eligible, key, a),
        is_first_least(len, eligible, key, b),
    ensures
        a == b,
{
    if a < b {
        assert(key(b) < key(a));
        assert(key(a) <= key(b));
    } else if b < a {
        assert(key(a) < key(b));
        assert(key(b) <= key(a));
    }
}

/// A position that meets the description is the chosen one.
pub proof fn lemma_first_least_found(
    len: int,
    eligible: spec_fn(int) -> bool,
    key: spec_fn(int) -> int,
    k: int,
)
    requires
        is_first_least(len, eligible, key, k),
    ensures
        first_least(len, eligible, key) == Some(k),
{
    let chosen = choose|c: int| is_first_least(len, eligible, key, c);
    lemma_first_least_unique(len, eligible, key, chosen, k);
}

/// Where no position is eligible, none is chosen.
pub proof fn lemma_first_least_absent(
    len: int,
    eligible: spec_fn(int) -> bool,
    key: spec_fn(int) -> int,
)
    requires
        forall|j: int| 0 <= j < len ==> !#[trigger] eligible(j),
    ensures
        first_least(len, eligible, key).is_none(),
{
}

/// Where a position is chosen it meets the description; where none is, no position is
/// eligible.
pub proof fn lemma_first_least_meaning(
    len: int,
    eligible: spec_fn(int) -> bool,
    key: spec_fn(int) -> int,
)
    ensures
        match first_least(len, eligible, key) {
            Some(k) => is_first_least(len, eligible, key, k),
            None => forall|j: int| 0 <= j < len ==> !#[trigger] eligible(j),
        },
    decreases len,
{
    if first_least(len, eligible, key).is_none() {
        if exists|j: int| 0 <= j < len && #[trigger] eligible(j) {
            let k = lemma_some_first_least(len, eligible, key);
            assert(false);
        }
    }
}

/// Where some position is eligible, one is chosen.
pub proof fn lemma_some_first_least(
    len: int,
    eligible: spec_fn(int) -> bool,
    key: spec_fn(int) -> int,
) -> (k: int)
    requires
        exists|j: int| 0 <= j < len && #[trigger] eligible(j),
    ensures
        is_first_least(len, eligible, key, k),
    decreases len,
{
    let last = len - 1;
    if exists|j: int| 0 <= j < last && #[trigger] eligible(j) {
        let before = lemma_some_first_least(last, eligible, key);
        if eligible(last) && key(last) < key(before) {
            last
        } else {
            before
        }
    } else {
        let witness = choose|j: int| 0 <= j < len && #[trigger] eligible(j);
        assert(witness == last);
        last
    }
}

} // verus!
