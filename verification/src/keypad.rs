//! The 16-key input latch.
//!
//! The host shell records the state of the hexadecimal keypad here before
//! each batch of execution steps; the engine only reads it, for the
//! key-skip and key-wait instructions.

use vstd::prelude::*;

verus! {

/// Number of keys on the CHIP-8 keypad.
pub const NUM_KEYS: usize = 16;

/// The smallest pressed key of a latch state, or `None` when no key is
/// pressed. This is the key a key-wait instruction observes.
pub open spec fn first_pressed_spec(keys: Seq<bool>) -> Option<usize> {
    if exists|k: int| 0 <= k < NUM_KEYS && keys[k] {
        let k = choose|k: int|
            0 <= k < NUM_KEYS && keys[k] && forall|j: int| 0 <= j < k ==> !keys[j];
        Some(k as usize)
    } else {
        None
    }
}

/// A latch holding the pressed/released state of the 16 keys.
///
/// The view of a `Keypad` is the sequence of its 16 key states,
/// indexed by key value `0x0..=0xF`.
pub struct Keypad {
    keys: Vec<bool>,
}

impl View for Keypad {
    type V = Seq<bool>;

    closed spec fn view(&self) -> Seq<bool> {
        self.keys@
    }
}

impl Keypad {
    /// Well-formedness: the latch always holds exactly one flag per key.
    pub open spec fn wf(&self) -> bool {
        self@.len() == NUM_KEYS
    }

    /// A latch with every key released.
    pub fn new() -> (kp: Keypad)
        ensures
            kp.wf(),
            forall|k: int| 0 <= k < NUM_KEYS ==> !kp@[k],
    {
        let mut keys: Vec<bool> = Vec::new();
        let mut i: usize = 0;
        while i < NUM_KEYS
            invariant
                i <= NUM_KEYS,
                keys@.len() == i,
                forall|k: int| 0 <= k < i ==> !keys@[k],
            decreases NUM_KEYS - i,
        {
            keys.push(false);
            i = i + 1;
        }
        Keypad { keys }
    }

    /// Record the state of one key.
    pub fn set_key(&mut self, key: usize, pressed: bool)
        requires
            old(self).wf(),
            key < NUM_KEYS,
        ensures
            final(self).wf(),
            final(self)@ == old(self)@.update(key as int, pressed),
    {
        self.keys.set(key, pressed);
    }

    /// Query the state of one key.
    pub fn is_pressed(&self, key: usize) -> (r: bool)
        requires
            self.wf(),
            key < NUM_KEYS,
        ensures
            r == self@[key as int],
    {
        self.keys[key]
    }

    /// Whether at least one key is pressed.
    pub fn any_pressed(&self) -> (r: bool)
        requires
            self.wf(),
        ensures
            r == exists|k: int| 0 <= k < NUM_KEYS && self@[k],
    {
        let mut i: usize = 0;
        while i < NUM_KEYS
            invariant
                self.wf(),
                i <= NUM_KEYS,
                forall|k: int| 0 <= k < i ==> !self@[k],
            decreases NUM_KEYS - i,
        {
            if self.keys[i] {
                return true;
            }
            i = i + 1;
        }
        false
    }

    /// The smallest pressed key, or `None` when no key is pressed.
    pub fn first_pressed(&self) -> (r: Option<usize>)
        requires
            self.wf(),
        ensures
            r == first_pressed_spec(self@),
            r matches Some(k) ==> k < NUM_KEYS && self@[k as int],
            r is None ==> forall|k: int| 0 <= k < NUM_KEYS ==> !self@[k],
    {
        let mut i: usize = 0;
        while i < NUM_KEYS
            invariant
                self.wf(),
                i <= NUM_KEYS,
                forall|k: int| 0 <= k < i ==> !self@[k],
            decreases NUM_KEYS - i,
        {
            if self.keys[i] {
                proof {
                    let k = choose|k: int| 0 <= k < NUM_KEYS && self@[k] && forall|j: int| 0 <= j < k ==> !self@[j];
                    assert(self@[i as int]);
                    assert(k == i as int);
                }
                return Some(i);
            }
            i = i + 1;
        }
        None
    }
}

} // verus!
