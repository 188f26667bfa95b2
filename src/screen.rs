//! The fixed layout of the window.

use vstd::prelude::*;

verus! {

/// Width of the window, in pixels.
pub const WINDOW_WIDTH: u32 = 640;

/// Height of the window, in pixels.
pub const WINDOW_HEIGHT: u32 = 480;

/// Side of the square box the letter is drawn in, in pixels.
pub const LETTER_BOX_SIZE: u32 = 100;

/// Top-left corner of a square box of side `size` centred in a window of
/// `width` by `height` (halves rounded down, as integer division does).
pub fn letter_box_origin(width: u32, height: u32, size: u32) -> (r: (i32, i32))
    requires
        width <= i32::MAX,
        height <= i32::MAX,
    ensures
        r.0 == width as int / 2 - size as int / 2,
        r.1 == height as int / 2 - size as int / 2,
{
    let half = size / 2;
    let x: i64 = (width / 2) as i64 - half as i64;
    let y: i64 = (height / 2) as i64 - half as i64;
    (x as i32, y as i32)
}

} // verus!
