//! Finding records by their textual key.

use vstd::prelude::*;

verus! {

/// A piece of text as a sequence of characters.
pub type Text = Seq<char>;

/// The first position at or after `from` whose key equals `key`.
pub open spec fn position_from(keys: Seq<Text>, key: Text, from: int) -> Option<int>
    decreases keys.len() - from,
{
    if from >= keys.len() {
        None
    } else if keys[from] == key {
        Some(from)
    } else {
        position_from(keys, key, from + 1)
    }
}

/// The first position whose key equals `key`, if any key does.
pub open spec fn position_of(keys: Seq<Text>, key: Text) -> Option<int> {
    position_from(keys, key, 0)
}

/// What `position_from` finds is in range, holds the key, and is preceded
/// (from `from` on) only by other keys; it finds nothing only if no key from
/// `from` on matches.
pub proof fn lemma_position_from(keys: Seq<Text>, key: Text, from: int)
    requires
        0 <= from,
    ensures
        match position_from(keys, key, from) {
            Some(i) => from <= i < keys.len() && keys[i] == key && forall|j: int|
                from <= j < i ==> keys[j] != key,
            None => forall|j: int| from <= j < keys.len() ==> keys[j] != key,
        },
    decreases keys.len() - from,
{
    if from < keys.len() && keys[from] != key {
        lemma_position_from(keys, key, from + 1);
    }
}

/// A key is found exactly when it occurs, and then at its first occurrence.
pub proof fn lemma_position_of(keys: Seq<Text>, key: Text)
    ensures
        match position_of(keys, key) {
            Some(i) => 0 <= i < keys.len() && keys[i] == key && forall|j: int|
                0 <= j < i ==> keys[j] != key,
            None => forall|j: int| 0 <= j < keys.len() ==> keys[j] != key,
        },
{
    lemma_position_from(keys, key, 0);
}

} // verus!
