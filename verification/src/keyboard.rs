//! The 16-key keypad, queried through a host-provided driver.

use vstd::prelude::*;

verus! {

/// How a host driver reports the keypad state: `None` when no key is known
/// to be pressed, otherwise the 4-bit code of the pressed key.
///
/// `wait_key_pressed` blocks until some key is pressed and returns it; a
/// driver should poll its source with a sleep-backoff rather than spin.
pub trait KeyboardDriver {
    fn get_key_pressed(&self) -> Option<u8>;

    fn wait_key_pressed(&self) -> u8;
}

/// The keypad as the dispatcher sees it. The core makes no assumption
/// about what the driver answers or when.
pub struct Keyboard<D: KeyboardDriver> {
    keyboard_driver: D,
}

impl<D: KeyboardDriver> Keyboard<D> {
    /// A keypad backed by the given driver.
    pub fn new(keyboard_driver: D) -> Self {
        Keyboard { keyboard_driver }
    }

    /// One synchronous, non-blocking query of the key state.
    pub fn which_key_pressed(&self) -> Option<u8> {
        self.keyboard_driver.get_key_pressed()
    }

    /// Blocks until the driver reports a pressed key, and returns it.
    pub fn wait_key_pressed(&self) -> u8 {
        self.keyboard_driver.wait_key_pressed()
    }
}

} // verus!
