//! The sixteen-key input device: a level-triggered mask of pressed keys.

use vstd::prelude::*;
use crate::bits::{bit16, lemma_bit16_clear, lemma_bit16_set, lemma_bit16_zero};

verus! {

/// Number of keys on the keypad.
pub const KEY_COUNT: usize = 16;

/// The pressed state of the sixteen keys, one bit per key: bit `i` of `keys`
/// is set exactly while key `i` is held down.
pub struct Keypad {
    /// The mask of pressed keys.
    pub keys: u16,
}

impl View for Keypad {
    type V = Seq<bool>;

    /// The keypad as sixteen booleans, entry `i` telling whether key `i` is
    /// pressed.
    open spec fn view(&self) -> Seq<bool> {
        Seq::new(16, |i: int| bit16(self.keys, i as u16))
    }
}

/// The keypad on which no key is pressed.
pub open spec fn all_released() -> Seq<bool> {
    Seq::new(16, |i: int| false)
}

/// The lowest pressed key of `keys` among those numbered `from` and above,
/// if there is one.
pub open spec fn lowest_pressed_from(keys: Seq<bool>, from: int) -> Option<int>
    decreases 16 - from,
{
    if from >= 16 {
        None
    } else if keys[from] {
        Some(from)
    } else {
        lowest_pressed_from(keys, from + 1)
    }
}

/// The lowest pressed key of `keys`, if any key is pressed.
pub open spec fn lowest_pressed(keys: Seq<bool>) -> Option<int> {
    lowest_pressed_from(keys, 0)
}

/// The lowest pressed key at or above `from` is pressed, lies in range, and no
/// key between `from` and it is pressed; there is none only if no key from
/// `from` on is pressed.
pub proof fn lemma_lowest_pressed_from(keys: Seq<bool>, from: int)
    requires
        0 <= from,
    ensures
        match lowest_pressed_from(keys, from) {
            Some(k) => from <= k < 16 && keys[k] && forall|j: int| from <= j < k ==> !keys[j],
            None => forall|j: int| from <= j < 16 ==> !keys[j],
        },
    decreases 16 - from,
{
    if from < 16 && !keys[from] {
        lemma_lowest_pressed_from(keys, from + 1);
    }
}

impl Keypad {
    /// A keypad with every key released.
    pub fn new() -> (keypad: Keypad)
        ensures
            keypad@ == all_released(),
            keypad.keys == 0,
    {
        let keypad = Keypad { keys: 0 };
        proof {
            assert forall|i: int| 0 <= i < 16 implies !keypad@[i] by {
                lemma_bit16_zero(i as u16);
            }
        }
        keypad
    }

    /// Releases every key.
    pub fn clear(&mut self)
        ensures
            final(self)@ == all_released(),
            final(self).keys == 0,
    {
        self.keys = 0;
        proof {
            assert forall|i: int| 0 <= i < 16 implies !self@[i] by {
                lemma_bit16_zero(i as u16);
            }
        }
    }

    /// Tells whether key `index` is pressed. An index that names no key is
    /// never pressed.
    pub fn is_pressed(&self, index: usize) -> (pressed: bool)
        ensures
            pressed == (index < 16 && self@[index as int]),
    {
        index < KEY_COUNT && (self.keys & (1 << index)) != 0
    }

    /// The lowest-indexed pressed key, or `None` while no key is pressed.
    pub fn poll_key(&self) -> (key: Option<usize>)
        ensures
            match key {
                Some(i) => lowest_pressed(self@) == Some(i as int) && i < 16 && self@[i as int]
                    && forall|j: int| 0 <= j < i ==> !self@[j],
                None => lowest_pressed(self@) == None::<int> && forall|j: int|
                    0 <= j < 16 ==> !self@[j],
            },
    {
        let mut i: usize = 0;
        while i < KEY_COUNT
            invariant
                i <= 16,
                forall|j: int| 0 <= j < i ==> !self@[j],
                lowest_pressed(self@) == lowest_pressed_from(self@, i as int),
            decreases 16 - i,
        {
            if self.is_pressed(i) {
                return Some(i);
            }
            i += 1;
        }
        None
    }

    /// Marks key `index` as pressed; pressing a pressed key changes nothing.
    pub fn press_key(&mut self, index: usize)
        requires
            index < 16,
        ensures
            final(self)@ == old(self)@.update(index as int, true),
    {
        self.keys |= 1 << index;
        proof {
            assert forall|j: int| 0 <= j < 16 implies self@[j] == old(self)@.update(
                index as int,
                true,
            )[j] by {
                lemma_bit16_set(old(self).keys, index as u16, j as u16);
            }
        }
    }

    /// Marks key `index` as released; releasing a released key changes
    /// nothing.
    pub fn release_key(&mut self, index: usize)
        requires
            index < 16,
        ensures
            final(self)@ == old(self)@.update(index as int, false),
    {
        self.keys &= !(1 << index);
        proof {
            assert forall|j: int| 0 <= j < 16 implies self@[j] == old(self)@.update(
                index as int,
                false,
            )[j] by {
                lemma_bit16_clear(old(self).keys, index as u16, j as u16);
            }
        }
    }
}

} // verus!
