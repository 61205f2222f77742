//! The five-channel color value: red, green, blue, cool white and warm
//! white, each between 0 and 255.

use vstd::prelude::*;

verus! {

/// A five-channel color. All channel combinations are valid.
#[derive(Clone, Copy, Debug, PartialEq, Eq, Structural)]
pub struct RGBCW {
    pub r: u8,
    pub g: u8,
    pub b: u8,
    pub c: u8,
    pub w: u8,
}

impl RGBCW {
    pub fn new(r: u8, g: u8, b: u8, c: u8, w: u8) -> (v: Self)
        ensures
            v == (RGBCW { r, g, b, c, w }),
    {
        RGBCW { r, g, b, c, w }
    }

    /// A warm white: full red, nearly full green and blue, no white
    /// channels.
    pub fn white() -> (v: Self)
        ensures
            v == (RGBCW { r: 255u8, g: 250u8, b: 245u8, c: 0u8, w: 0u8 }),
    {
        RGBCW { r: 255, g: 250, b: 245, c: 0, w: 0 }
    }

    pub fn r(&self) -> (v: &u8)
        ensures
            v == self.r,
    {
        &self.r
    }

    pub fn g(&self) -> (v: &u8)
        ensures
            v == self.g,
    {
        &self.g
    }

    pub fn b(&self) -> (v: &u8)
        ensures
            v == self.b,
    {
        &self.b
    }

    pub fn c(&self) -> (v: &u8)
        ensures
            v == self.c,
    {
        &self.c
    }

    pub fn w(&self) -> (v: &u8)
        ensures
            v == self.w,
    {
        &self.w
    }
}

/// Why a color value could not be read from text. The text form itself
/// is a command-line concern; the caller that parses it reports the
/// offending input here.
pub enum ColorError {
    ParseError(String),
}

} // verus!
