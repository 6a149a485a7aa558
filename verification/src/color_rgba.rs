//! A four-channel color with one payload type for all channels.
use vstd::prelude::*;

verus! {

/// Red, green, blue and alpha channels, in that order.
#[derive(Clone, Copy, PartialEq, Eq, Structural, Debug)]
pub struct ColorRGBA<T> {
    pub r: T,
    pub g: T,
    pub b: T,
    pub a: T,
}

impl ColorRGBA<u8> {
    /// Builds a color from four 8-bit channels.
    pub fn new_u8(r: u8, g: u8, b: u8, a: u8) -> (c: ColorRGBA<u8>)
        ensures
            c == (ColorRGBA { r, g, b, a }),
    {
        ColorRGBA { r, g, b, a }
    }
}

} // verus!
