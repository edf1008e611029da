//! The keys the editor listens to, and how a held key becomes one key press.

use vstd::prelude::*;

verus! {

/// A key that the editor recognises. Any other key never reaches the library.
#[derive(Clone, Copy, Debug, PartialEq, Eq, Structural)]
pub enum Key {
    X,
    Y,
    Z,
    Key0,
    Key1,
    Key2,
    Key3,
    Key4,
    Key5,
    Key6,
    Key7,
    Key8,
    Key9,
    Numpad0,
    Numpad1,
    Numpad2,
    Numpad3,
    Numpad4,
    Numpad5,
    Numpad6,
    Numpad7,
    Numpad8,
    Numpad9,
    Dot,
    Minus,
    NumpadSubtract,
    Enter,
    Q,
    N,
    Backspace,
    C,
    P,
    B,
    L,
}

impl Key {
    /// The character that the key types into the pending text, for the keys that type one.
    pub open spec fn typed(self) -> Option<char> {
        match self {
            Key::Key0 | Key::Numpad0 => Some('0'),
            Key::Key1 | Key::Numpad1 => Some('1'),
            Key::Key2 | Key::Numpad2 => Some('2'),
            Key::Key3 | Key::Numpad3 => Some('3'),
            Key::Key4 | Key::Numpad4 => Some('4'),
            Key::Key5 | Key::Numpad5 => Some('5'),
            Key::Key6 | Key::Numpad6 => Some('6'),
            Key::Key7 | Key::Numpad7 => Some('7'),
            Key::Key8 | Key::Numpad8 => Some('8'),
            Key::Key9 | Key::Numpad9 => Some('9'),
            Key::Minus | Key::NumpadSubtract => Some('-'),
            Key::Dot => Some('.'),
            _ => None,
        }
    }
}

/// The first key of `held` that `previous` does not hold: the one key press of a tick.
pub open spec fn first_new(held: Seq<Key>, previous: Seq<Key>) -> Option<Key>
    decreases held.len(),
{
    if held.len() == 0 {
        None
    } else if !previous.contains(held[0]) {
        Some(held[0])
    } else {
        first_new(held.skip(1), previous)
    }
}

/// Whether `key` is among `keys`.
pub fn holds(keys: &[Key], key: Key) -> (found: bool)
    ensures
        found == keys@.contains(key),
{
    let mut at: usize = 0;
    while at < keys.len()
        invariant
            at <= keys.len(),
            forall|i: int| 0 <= i < at ==> keys@[i] != key,
        decreases keys.len() - at,
    {
        if keys[at] == key {
            return true;
        }
        at = at + 1;
    }
    false
}

/// The key that went down between two snapshots of the keyboard: the first key of `held`
/// that was not held in `previous`.
pub fn pressed(held: &[Key], previous: &[Key]) -> (key: Option<Key>)
    ensures
        key == first_new(held@, previous@),
{
    let mut at: usize = 0;
    proof {
        assert(held@.skip(0) =~= held@);
    }
    while at < held.len()
        invariant
            at <= held.len(),
            first_new(held@, previous@) == first_new(held@.skip(at as int), previous@),
        decreases held.len() - at,
    {
        if !holds(previous, held[at]) {
            return Some(held[at]);
        }
        proof {
            assert(held@.skip(at as int).skip(1) =~= held@.skip(at + 1));
        }
        at = at + 1;
    }
    None
}

/// What a key press is: a key that is held now, was not held before, and is preceded
/// in the snapshot only by keys that were. There is none exactly when every held key
/// was held before.
pub proof fn lemma_first_new(held: Seq<Key>, previous: Seq<Key>)
    ensures
        match first_new(held, previous) {
            Some(key) => exists|i: int|
                0 <= i < held.len() && held[i] == key && !previous.contains(key) && forall|j: int|
                    0 <= j < i ==> previous.contains(#[trigger] held[j]),
            None => forall|i: int| 0 <= i < held.len() ==> previous.contains(#[trigger] held[i]),
        },
    decreases held.len(),
{
    if held.len() > 0 && previous.contains(held[0]) {
        let rest = held.skip(1);
        lemma_first_new(rest, previous);
        match first_new(rest, previous) {
            Some(key) => {
                let i = choose|i: int|
                    0 <= i < rest.len() && rest[i] == key && !previous.contains(key)
                        && forall|j: int| 0 <= j < i ==> previous.contains(#[trigger] rest[j]);
                assert forall|j: int| 0 <= j < i + 1 implies previous.contains(
                    #[trigger] held[j],
                ) by {
                    if j > 0 {
                        assert(held[j] == rest[j - 1]);
                    }
                }
            },
            None => {
                assert forall|i: int| 0 <= i < held.len() implies previous.contains(
                    #[trigger] held[i],
                ) by {
                    if i > 0 {
                        assert(held[i] == rest[i - 1]);
                    }
                }
            },
        }
    }
}

/// A key that stays down is pressed once. Take a key that was up, then is held through
/// the snapshots `ticks`, each compared with the one before it. No tick after the first
/// reports it; the first reports it, provided that no other key went down ahead of it
/// in that snapshot.
pub proof fn lemma_held_key_fires_once(before: Seq<Key>, ticks: Seq<Seq<Key>>, key: Key)
    requires
        ticks.len() >= 1,
        !before.contains(key),
        forall|t: int| 0 <= t < ticks.len() ==> (#[trigger] ticks[t]).contains(key),
    ensures
        forall|t: int| 1 <= t < ticks.len() ==> first_new(#[trigger] ticks[t], ticks[t - 1])
            != Some(key),
        (exists|i: int|
            0 <= i < ticks[0].len() && ticks[0][i] == key && forall|j: int|
                0 <= j < i ==> before.contains(#[trigger] ticks[0][j])) ==> first_new(
            ticks[0],
            before,
        ) == Some(key),
{
    assert forall|t: int| 1 <= t < ticks.len() implies first_new(#[trigger] ticks[t], ticks[t - 1])
        != Some(key) by {
        lemma_first_new(ticks[t], ticks[t - 1]);
    }
    if exists|i: int|
        0 <= i < ticks[0].len() && ticks[0][i] == key && forall|j: int|
            0 <= j < i ==> before.contains(#[trigger] ticks[0][j]) {
        let i = choose|i: int|
            0 <= i < ticks[0].len() && ticks[0][i] == key && forall|j: int|
                0 <= j < i ==> before.contains(#[trigger] ticks[0][j]);
        lemma_first_new(ticks[0], before);
        if let Some(other) = first_new(ticks[0], before) {
            // Of two keys that went down, the first in the snapshot is the one pressed.
            let k = choose|k: int|
                0 <= k < ticks[0].len() && ticks[0][k] == other && !before.contains(other)
                    && forall|j: int| 0 <= j < k ==> before.contains(#[trigger] ticks[0][j]);
            assert(k == i);
        }
    }
}

} // verus!
