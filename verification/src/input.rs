//! The keyboard as the rules see it: which keys are held down in a tick, and
//! which of them went down in that very tick.

use vstd::prelude::*;

verus! {

/// A key that some rule asks about.
#[derive(Debug, Clone, Copy, PartialEq, Eq, Hash, Structural)]
pub enum Key {
    A,
    D,
    S,
    W,
    X,
    L,
    Tab,
    Escape,
}

/// The state of the keyboard in one tick.
#[derive(Debug)]
pub struct Keyboard {
    /// The keys that are held down.
    pub held: Vec<Key>,
    /// The keys that went down in this tick.
    pub fresh: Vec<Key>,
}

impl Keyboard {
    /// Whether `key` is held down.
    pub open spec fn is_pressed(&self, key: Key) -> bool {
        self.held@.contains(key)
    }

    /// Whether `key` went down in this tick.
    pub open spec fn is_just_pressed(&self, key: Key) -> bool {
        self.fresh@.contains(key)
    }

    /// A keyboard that nobody touches.
    pub fn new() -> (keyboard: Keyboard)
        ensures
            forall|key: Key| !keyboard.is_pressed(key) && !keyboard.is_just_pressed(key),
    {
        Keyboard { held: Vec::new(), fresh: Vec::new() }
    }

    /// Whether `key` is held down.
    pub fn pressed(&self, key: Key) -> (down: bool)
        ensures
            down == self.is_pressed(key),
    {
        among(&self.held, key)
    }

    /// Whether `key` went down in this tick.
    pub fn just_pressed(&self, key: Key) -> (down: bool)
        ensures
            down == self.is_just_pressed(key),
    {
        among(&self.fresh, key)
    }
}

/// Whether `key` is one of `keys`.
fn among(keys: &Vec<Key>, key: Key) -> (found: bool)
    ensures
        found == keys@.contains(key),
{
    let mut i: usize = 0;
    while i < keys.len()
        invariant
            i <= keys.len(),
            forall|j: int| 0 <= j < i ==> keys@[j] != key,
        decreases keys.len() - i,
    {
        if keys[i] == key {
            return true;
        }
        i = i + 1;
    }
    false
}

} // verus!
