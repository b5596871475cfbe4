use crate::terminal::SIZE;
use crate::util::Size;
use vstd::prelude::*;

pub mod colors;
pub mod events;

verus! {

/// The palette widget's footprint in terminal cells.
pub const WIDTH: SIZE = 26;
pub const HEIGHT: SIZE = 12;

/// How many of the highest palette bytes form the grayscale ramp.
pub const GRAYSCALE_COLOR_COUNT: SIZE = 24;

/// The color entry field is as wide as the grayscale ramp.
pub const INPUT_FIELD_WIDTH: SIZE = GRAYSCALE_COLOR_COUNT;

/// How many of the lowest palette bytes mirror the sixteen named colors.
pub const FOUR_BIT_COLOR_COUNT: SIZE = 8 * 2;

/// The palette widget's footprint as a size value.
pub fn palette_size() -> (s: Size)
    ensures
        s.width == WIDTH,
        s.height == HEIGHT,
{
    Size { width: WIDTH, height: HEIGHT }
}

} // verus!
