//! The sixteen-key keypad: which physical keys stand for which of its keys,
//! and the questions that instructions ask of a snapshot of it.

use vstd::prelude::*;

verus! {

/// Keys of the keypad.
pub const KEY_COUNT: usize = 16;

/// A physical key that the input device reports as held down.
#[derive(Clone, Copy, Debug, PartialEq, Eq, Structural)]
pub enum Key {
    Num1,
    Num2,
    Num3,
    Num4,
    Q,
    W,
    E,
    R,
    A,
    S,
    D,
    F,
    Y,
    Z,
    X,
    C,
    V,
    /// Any key that stands for no key of the keypad.
    Other,
}

/// The key of the keypad that a physical key stands for, if any.
pub open spec fn keypad_index(key: Key) -> Option<usize> {
    match key {
        Key::Num1 => Some(0x0usize),
        Key::Num2 => Some(0x1usize),
        Key::Num3 => Some(0x2usize),
        Key::Num4 => Some(0xCusize),
        Key::Q => Some(0x4usize),
        Key::W => Some(0x5usize),
        Key::E => Some(0x6usize),
        Key::R => Some(0xDusize),
        Key::A => Some(0x7usize),
        Key::S => Some(0x8usize),
        Key::D => Some(0x9usize),
        Key::F => Some(0xEusize),
        Key::Y => Some(0xAusize),
        Key::Z => Some(0xAusize),
        Key::X => Some(0x0usize),
        Key::C => Some(0xBusize),
        Key::V => Some(0xFusize),
        Key::Other => None,
    }
}

/// Whether one of `keys` stands for key `k` of the keypad.
pub open spec fn names_key(keys: Seq<Key>, k: int) -> bool {
    exists|j: int| 0 <= j < keys.len() && #[trigger] keypad_index(keys[j]) == Some(k as usize)
}

/// The snapshot `keypad` with the keys that `keys` stand for held down as
/// well.
pub open spec fn pressed(keypad: Seq<bool>, keys: Seq<Key>) -> Seq<bool> {
    Seq::new(keypad.len(), |k: int| keypad[k] || names_key(keys, k))
}

/// The snapshot with no key held down.
pub open spec fn released() -> Seq<bool> {
    Seq::new(KEY_COUNT as nat, |k: int| false)
}

/// Whether any key of the snapshot is held down.
pub open spec fn any_key_down(keypad: Seq<bool>) -> bool {
    exists|k: int| 0 <= k < keypad.len() && #[trigger] keypad[k]
}

/// Whether `k` is held down and no key before it is.
pub open spec fn is_lowest_down(keypad: Seq<bool>, k: int) -> bool {
    &&& 0 <= k < keypad.len()
    &&& keypad[k]
    &&& forall|j: int| 0 <= j < k ==> !#[trigger] keypad[j]
}

/// The first key of the snapshot that is held down.
pub open spec fn lowest_down(keypad: Seq<bool>) -> int {
    choose|k: int| is_lowest_down(keypad, k)
}

/// The first key held down is the only one that is held down with no key
/// before it held down.
pub proof fn lemma_lowest_down_unique(keypad: Seq<bool>, k: int)
    requires
        is_lowest_down(keypad, k),
    ensures
        lowest_down(keypad) == k,
        any_key_down(keypad),
{
    let m = lowest_down(keypad);
    assert(is_lowest_down(keypad, m));
    if m < k {
        assert(!keypad[m]);
    } else if k < m {
        assert(!keypad[k]);
    }
}

/// Holds down, in the snapshot `keypad`, every key that one of `keys`
/// stands for; keys held down before stay so.
pub fn press_keys(keypad: &mut [bool; 16], keys: &Vec<Key>)
    ensures
        final(keypad)@ == pressed(old(keypad)@, keys@),
{
    let mut j: usize = 0;
    while j < keys.len()
        invariant
            j <= keys.len(),
            keypad@ == pressed(old(keypad)@, keys@.take(j as int)),
        decreases keys.len() - j,
    {
        let ghost before = keypad@;
        let ghost seen = keys@.take(j as int);
        let ghost next = keys@.take(j as int + 1);
        match keys[j].index() {
            Some(k) => {
                keypad[k] = true;
            },
            None => {},
        }
        proof {
            assert(next == seen.push(keys@[j as int]));
            assert forall|k: int| 0 <= k < 16 implies keypad@[k] == (old(keypad)@[k] || names_key(
                next,
                k,
            )) by {
                if names_key(seen, k) {
                    let w = choose|w: int|
                        0 <= w < seen.len() && #[trigger] keypad_index(seen[w]) == Some(k as usize);
                    assert(keypad_index(next[w]) == Some(k as usize));
                }
                if keypad_index(keys@[j as int]) == Some(k as usize) {
                    assert(keypad_index(next[j as int]) == Some(k as usize));
                }
                if names_key(next, k) {
                    let w = choose|w: int|
                        0 <= w < next.len() && #[trigger] keypad_index(next[w]) == Some(k as usize);
                    if w < j {
                        assert(keypad_index(seen[w]) == Some(k as usize));
                    }
                }
            }
            assert(keypad@ =~= pressed(old(keypad)@, next));
        }
        j += 1;
    }
    proof {
        assert(keys@.take(keys.len() as int) == keys@);
    }
}

/// The first key of the snapshot that is held down, if any is.
pub fn first_key_down(keypad: &[bool; 16]) -> (key: Option<u8>)
    ensures
        key is Some == any_key_down(keypad@),
        key matches Some(k) ==> k as int == lowest_down(keypad@) && k < KEY_COUNT,
{
    let mut k: u8 = 0;
    while k < 16
        invariant
            k <= 16,
            forall|j: int| 0 <= j < k ==> !#[trigger] keypad@[j],
        decreases 16 - k,
    {
        if keypad[k as usize] {
            proof {
                lemma_lowest_down_unique(keypad@, k as int);
            }
            return Some(k);
        }
        k += 1;
    }
    None
}

impl Key {
    /// The key of the keypad that this physical key stands for, if any.
    pub fn index(self) -> (index: Option<usize>)
        ensures
            index == keypad_index(self),
            index matches Some(k) ==> k < KEY_COUNT,
    {
        match self {
            Key::Num1 => Some(0x0),
            Key::Num2 => Some(0x1),
            Key::Num3 => Some(0x2),
            Key::Num4 => Some(0xC),
            Key::Q => Some(0x4),
            Key::W => Some(0x5),
            Key::E => Some(0x6),
            Key::R => Some(0xD),
            Key::A => Some(0x7),
            Key::S => Some(0x8),
            Key::D => Some(0x9),
            Key::F => Some(0xE),
            Key::Y | Key::Z => Some(0xA),
            Key::X => Some(0x0),
            Key::C => Some(0xB),
            Key::V => Some(0xF),
            Key::Other => None,
        }
    }
}

} // verus!
