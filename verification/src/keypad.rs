//! The keypad as the engine sees it: sixteen keys, each down or up, and
//! the question a cycle may put to them.

use vstd::prelude::*;

verus! {

/// What a cycle asks of the keypad.
#[derive(Clone, Copy, Debug, PartialEq, Eq, Structural)]
pub enum KeyQuery {
    /// The cycle does not look at the keys.
    Nothing,
    /// The cycle looks at this one key.
    Key(u8),
    /// The cycle waits for any key to be down.
    AnyKey,
}

/// The lowest key at or above `from` that is down, or the number of keys when
/// there is none.
pub open spec fn lowest_key_down(keys: Seq<bool>, from: int) -> int
    decreases keys.len() - from,
{
    if from < 0 || from >= keys.len() {
        keys.len() as int
    } else if keys[from] {
        from
    } else {
        lowest_key_down(keys, from + 1)
    }
}

/// What `lowest_key_down` finds: a key that is down with none below it down,
/// or, when no key from `from` on is down, the number of keys.
pub proof fn lemma_lowest_key_down(keys: Seq<bool>, from: int)
    requires
        0 <= from <= keys.len(),
    ensures
        from <= lowest_key_down(keys, from) <= keys.len(),
        lowest_key_down(keys, from) < keys.len() ==> keys[lowest_key_down(keys, from)],
        forall|key: int| from <= key < lowest_key_down(keys, from) ==> !keys[key],
    decreases keys.len() - from,
{
    if from < keys.len() && !keys[from] {
        lemma_lowest_key_down(keys, from + 1);
    }
}

} // verus!
