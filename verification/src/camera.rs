//! The camera that follows the player.

use vstd::prelude::*;
use crate::input::Key;
use crate::input::Keyboard;

verus! {

/// Height that the camera looks down from.
pub const Z_CAM: i32 = 100;

/// Whether the zoom of the camera is held fast against the scroll wheel.
#[derive(Debug, Clone, Copy, PartialEq, Eq, Structural)]
pub struct CamScrollLock(pub bool);

/// The lock after a tick: `L` flips it in every tick in which it is held.
pub open spec fn relocked(keyboard: &Keyboard, lock: CamScrollLock) -> CamScrollLock {
    CamScrollLock(lock.0 != keyboard.is_pressed(Key::L))
}

/// Reads the lock key. The zoom follows the scroll wheel only while the
/// returned lock is open.
pub fn scroll_lock(keyboard_input: &Keyboard, lock: CamScrollLock) -> (after: CamScrollLock)
    ensures
        after == relocked(keyboard_input, lock),
{
    if keyboard_input.pressed(Key::L) {
        CamScrollLock(!lock.0)
    } else {
        lock
    }
}

} // verus!
