//! Arranging selected records by an integer key.
//!
//! Records are given by position. A record takes part if it has a key; the
//! arrangement lists the positions of those that take part, smallest key
//! first, and among equal keys the earlier position first.

use vstd::prelude::*;

verus! {

/// The key at a position, or 0 where there is none.
pub open spec fn key_at(keys: Seq<Option<i64>>, position: int) -> int {
    match keys[position] {
        Some(key) => key as int,
        None => 0,
    }
}

/// Where a record with key `key` goes into `arranged`, looking back from
/// `end`: behind every record whose key is not larger.
pub open spec fn insertion_point(
    arranged: Seq<int>,
    keys: Seq<Option<i64>>,
    key: int,
    end: int,
) -> int
    decreases end,
{
    if end > 0 && key_at(keys, arranged[end - 1]) > key {
        insertion_point(arranged, keys, key, end - 1)
    } else {
        end
    }
}

/// The arrangement of the first `n` positions.
pub open spec fn arrangement_upto(keys: Seq<Option<i64>>, n: int) -> Seq<int>
    decreases n,
{
    if n <= 0 {
        Seq::empty()
    } else {
        let before = arrangement_upto(keys, n - 1);
        match keys[n - 1] {
            None => before,
            Some(key) => before.insert(
                insertion_point(before, keys, key as int, before.len() as int),
                n - 1,
            ),
        }
    }
}

/// The positions that have a key, by ascending key and then by position.
pub open spec fn arrangement(keys: Seq<Option<i64>>) -> Seq<int> {
    arrangement_upto(keys, keys.len() as int)
}

/// Whether position `a` comes before position `b`: by key, then by position.
pub open spec fn comes_before(keys: Seq<Option<i64>>, a: int, b: int) -> bool {
    key_at(keys, a) < key_at(keys, b) || (key_at(keys, a) == key_at(keys, b) && a < b)
}

/// Whether `arranged` lists exactly the positions below `n` that have a key,
/// each once, in ascending order.
pub open spec fn is_arrangement(arranged: Seq<int>, keys: Seq<Option<i64>>, n: int) -> bool {
    &&& forall|k: int|
        0 <= k < arranged.len() ==> 0 <= #[trigger] arranged[k] < n && keys[arranged[k]] is Some
    &&& forall|i: int|
        0 <= i < n && (#[trigger] keys[i]) is Some ==> exists|k: int|
            0 <= k < arranged.len() && arranged[k] == i
    &&& forall|a: int, b: int|
        0 <= a < b < arranged.len() ==> comes_before(
            keys,
            #[trigger] arranged[a],
            #[trigger] arranged[b],
        )
}

/// The insertion point is in range; the records from it on have larger keys
/// and the record just before it, if any, has not.
pub proof fn lemma_insertion_point(arranged: Seq<int>, keys: Seq<Option<i64>>, key: int, end: int)
    requires
        0 <= end <= arranged.len(),
    ensures
        0 <= insertion_point(arranged, keys, key, end) <= end,
        forall|k: int|
            insertion_point(arranged, keys, key, end) <= k < end ==> key_at(
                keys,
                #[trigger] arranged[k],
            ) > key,
        insertion_point(arranged, keys, key, end) > 0 ==> key_at(
            keys,
            arranged[insertion_point(arranged, keys, key, end) - 1],
        ) <= key,
    decreases end,
{
    if end > 0 && key_at(keys, arranged[end - 1]) > key {
        lemma_insertion_point(arranged, keys, key, end - 1);
    }
}

/// The arrangement of the first `n` positions lists exactly the positions
/// below `n` that have a key, each once, by ascending key and then by
/// position.
pub proof fn lemma_arrangement_upto(keys: Seq<Option<i64>>, n: int)
    requires
        0 <= n <= keys.len(),
    ensures
        is_arrangement(arrangement_upto(keys, n), keys, n),
    decreases n,
{
    if n > 0 {
        lemma_arrangement_upto(keys, n - 1);
        let before = arrangement_upto(keys, n - 1);
        let after = arrangement_upto(keys, n);
        match keys[n - 1] {
            None => {
                assert(after == before);
            },
            Some(key) => {
                let p = insertion_point(before, keys, key as int, before.len() as int);
                lemma_insertion_point(before, keys, key as int, before.len() as int);
                assert(after == before.insert(p, n - 1));
                assert forall|k: int| 0 <= k < after.len() implies 0 <= #[trigger] after[k] < n
                    && keys[after[k]] is Some by {
                    if k < p {
                        assert(after[k] == before[k]);
                    } else if k > p {
                        assert(after[k] == before[k - 1]);
                    }
                }
                assert forall|i: int| 0 <= i < n && (#[trigger] keys[i]) is Some implies exists|
                    k: int,
                | 0 <= k < after.len() && after[k] == i by {
                    if i == n - 1 {
                        assert(after[p] == i);
                    } else {
                        let k0 = choose|k: int| 0 <= k < before.len() && before[k] == i;
                        if k0 < p {
                            assert(after[k0] == i);
                        } else {
                            assert(after[k0 + 1] == i);
                        }
                    }
                }
                assert forall|a: int, b: int| 0 <= a < b < after.len() implies comes_before(
                    keys,
                    #[trigger] after[a],
                    #[trigger] after[b],
                ) by {
                    if b < p {
                        assert(after[a] == before[a] && after[b] == before[b]);
                    } else if a > p {
                        assert(after[a] == before[a - 1] && after[b] == before[b - 1]);
                    } else if a == p {
                        assert(after[b] == before[b - 1]);
                        assert(key_at(keys, before[b - 1]) > key);
                    } else if b == p {
                        assert(after[a] == before[a]);
                        assert(before[a] < n - 1);
                        if a < p - 1 {
                            assert(comes_before(keys, before[a], before[p - 1]));
                        }
                    } else {
                        assert(after[a] == before[a] && after[b] == before[b - 1]);
                    }
                }
            },
        }
    }
}

/// The arrangement lists exactly the positions that have a key, each once,
/// by ascending key and then by position.
pub proof fn lemma_arrangement(keys: Seq<Option<i64>>)
    ensures
        is_arrangement(arrangement(keys), keys, keys.len() as int),
{
    lemma_arrangement_upto(keys, keys.len() as int);
}

/// Only one sequence is the arrangement of given keys.
pub proof fn lemma_arrangement_unique(
    first: Seq<int>,
    second: Seq<int>,
    keys: Seq<Option<i64>>,
    n: int,
)
    requires
        is_arrangement(first, keys, n),
        is_arrangement(second, keys, n),
        n <= keys.len(),
    ensures
        first == second,
    decreases first.len() + second.len(),
{
    if first.len() == 0 {
        if second.len() > 0 {
            let i = second[0];
            assert(keys[i] is Some);
            let k = choose|k: int| 0 <= k < first.len() && first[k] == i;
        }
        assert(first =~= second);
    } else if second.len() == 0 {
        let i = first[0];
        assert(keys[i] is Some);
        let k = choose|k: int| 0 <= k < second.len() && second[k] == i;
    } else {
        // Both start with the position that comes before all others.
        let f = first[0];
        let s = second[0];
        assert(keys[f] is Some);
        assert(keys[s] is Some);
        let kf = choose|k: int| 0 <= k < second.len() && second[k] == f;
        let ks = choose|k: int| 0 <= k < first.len() && first[k] == s;
        if kf > 0 {
            assert(comes_before(keys, second[0], second[kf]));
        }
        if ks > 0 {
            assert(comes_before(keys, first[0], first[ks]));
        }
        assert(f == s);
        let keys_rest = keys.update(f, None);
        let first_rest = first.subrange(1, first.len() as int);
        let second_rest = second.subrange(1, second.len() as int);
        lemma_rest_is_arrangement(first, keys, n);
        lemma_rest_is_arrangement(second, keys, n);
        lemma_arrangement_unique(first_rest, second_rest, keys_rest, n);
        assert(first =~= seq![f] + first_rest);
        assert(second =~= seq![s] + second_rest);
    }
}

/// Without its first position, an arrangement is the arrangement of the
/// keys without that position's key.
proof fn lemma_rest_is_arrangement(arranged: Seq<int>, keys: Seq<Option<i64>>, n: int)
    requires
        is_arrangement(arranged, keys, n),
        arranged.len() > 0,
        n <= keys.len(),
    ensures
        is_arrangement(
            arranged.subrange(1, arranged.len() as int),
            keys.update(arranged[0], None),
            n,
        ),
{
    let rest = arranged.subrange(1, arranged.len() as int);
    let first = arranged[0];
    let keys_rest = keys.update(first, None);
    assert forall|k: int| 0 <= k < rest.len() implies 0 <= #[trigger] rest[k] < n
        && keys_rest[rest[k]] is Some by {
        assert(rest[k] == arranged[k + 1]);
        assert(comes_before(keys, arranged[0], arranged[k + 1]));
    }
    assert forall|i: int| 0 <= i < n && (#[trigger] keys_rest[i]) is Some implies exists|k: int|
        0 <= k < rest.len() && rest[k] == i by {
        assert(keys[i] is Some);
        let k0 = choose|k: int| 0 <= k < arranged.len() && arranged[k] == i;
        assert(rest[k0 - 1] == i);
    }
    assert forall|a: int, b: int| 0 <= a < b < rest.len() implies comes_before(
        keys_rest,
        #[trigger] rest[a],
        #[trigger] rest[b],
    ) by {
        assert(rest[a] == arranged[a + 1] && rest[b] == arranged[b + 1]);
        assert(comes_before(keys, arranged[a + 1], arranged[b + 1]));
        assert(comes_before(keys, arranged[0], arranged[a + 1]));
        assert(comes_before(keys, arranged[0], arranged[b + 1]));
    }
}

/// The positions held in a vector, as integers.
pub open spec fn positions(held: Seq<usize>) -> Seq<int> {
    Seq::new(held.len(), |k: int| held[k] as int)
}

/// Arranges the positions that have a key by ascending key, and those with
/// equal keys by position.
pub fn arrange(keys: &Vec<Option<i64>>) -> (arranged: Vec<usize>)
    ensures
        positions(arranged@) == arrangement(keys@),
        is_arrangement(positions(arranged@), keys@, keys@.len() as int),
{
    let mut arranged: Vec<usize> = Vec::new();
    let mut n: usize = 0;
    while n < keys.len()
        invariant
            n <= keys.len(),
            positions(arranged@) =~= arrangement_upto(keys@, n as int),
            arranged@.len() <= n,
        decreases keys.len() - n,
    {
        if let Some(key) = keys[n] {
            let ghost before = positions(arranged@);
            let mut at: usize = arranged.len();
            proof {
                lemma_arrangement_upto(keys@, n as int);
            }
            while at > 0 && key_of(keys, arranged[at - 1]) > key
                invariant
                    at <= arranged@.len(),
                    n < keys.len(),
                    before == positions(arranged@),
                    is_arrangement(before, keys@, n as int),
                    insertion_point(before, keys@, key as int, before.len() as int)
                        == insertion_point(before, keys@, key as int, at as int),
                decreases at,
            {
                proof {
                    assert(before[at - 1] == arranged@[at - 1] as int);
                }
                at = at - 1;
            }
            proof {
                if at > 0 {
                    assert(before[at - 1] == arranged@[at - 1] as int);
                }
            }
            arranged.insert(at, n);
            proof {
                assert(positions(arranged@) =~= before.insert(at as int, n as int));
            }
        }
        n = n + 1;
    }
    proof {
        lemma_arrangement(keys@);
    }
    arranged
}

/// The key at a position that has one.
fn key_of(keys: &Vec<Option<i64>>, position: usize) -> (key: i64)
    requires
        position < keys@.len(),
        keys@[position as int] is Some,
    ensures
        key as int == key_at(keys@, position as int),
{
    match keys[position] {
        Some(key) => key,
        None => 0,
    }
}

} // verus!
