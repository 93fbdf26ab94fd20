//! Driver logic for a 4x4 matrix keypad scanned through four column outputs
//! and four row inputs.

pub mod keys;
pub mod matrix;
pub mod scan;

pub use keys::Keys;
pub use scan::{
    column_levels, decode_row, read_key, row_pattern, Scan, Step, DEFAULT_KEYMAP,
};

use vstd::prelude::*;

verus! {

/// A keypad that can be polled for presses.
pub trait Keypad {
    /// Whether any key is pressed, without finding out which.
    fn key_is_pressed(&self) -> bool;

    /// The first key found, column by column, or `None` when no key is pressed.
    fn read(&mut self) -> Option<u8>;

    /// Up to four keys pressed at once, one per column, in column order;
    /// `None` when no key is pressed.
    fn read_multi(&mut self) -> Option<Keys>;
}

} // verus!
