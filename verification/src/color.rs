//! Sticker colours and their numeric encoding.

use vstd::prelude::*;

verus! {

/// One of the six sticker colours. Each face of a solved cube shows one of
/// them: white on U, yellow on D, green on F, blue on B, red on R and orange
/// on L.
#[derive(Debug, Clone, Copy, PartialEq, Eq, Structural)]
pub enum CubeColor {
    White,
    Yellow,
    Green,
    Blue,
    Red,
    Orange,
}

impl CubeColor {
    /// The numeric encoding of the colour, in `0..=5`.
    pub open spec fn spec_value(&self) -> u8 {
        match self {
            CubeColor::White => 0,
            CubeColor::Yellow => 1,
            CubeColor::Green => 2,
            CubeColor::Blue => 3,
            CubeColor::Red => 4,
            CubeColor::Orange => 5,
        }
    }

    /// The colour encoded by `value`, if `value` is in `0..=5`.
    pub fn from_u8(value: u8) -> (color: Option<Self>)
        ensures
            value <= 5 ==> color.is_some() && color.unwrap().spec_value() == value,
            value > 5 ==> color.is_none(),
    {
        match value {
            0 => Some(CubeColor::White),
            1 => Some(CubeColor::Yellow),
            2 => Some(CubeColor::Green),
            3 => Some(CubeColor::Blue),
            4 => Some(CubeColor::Red),
            5 => Some(CubeColor::Orange),
            _ => None,
        }
    }

    /// The numeric encoding of the colour.
    #[verifier::when_used_as_spec(spec_value)]
    pub fn value(&self) -> (value: u8)
        ensures
            value == self.spec_value(),
    {
        match self {
            CubeColor::White => 0,
            CubeColor::Yellow => 1,
            CubeColor::Green => 2,
            CubeColor::Blue => 3,
            CubeColor::Red => 4,
            CubeColor::Orange => 5,
        }
    }
}

/// The numeric encodings of the six colours, by name.
pub struct CubeColors;

impl CubeColors {
    /// The encoding of white, the colour of the U face.
    pub fn white() -> (value: u8)
        ensures
            value == CubeColor::White.spec_value(),
    {
        0
    }

    /// The encoding of yellow, the colour of the D face.
    pub fn yellow() -> (value: u8)
        ensures
            value == CubeColor::Yellow.spec_value(),
    {
        1
    }

    /// The encoding of green, the colour of the F face.
    pub fn green() -> (value: u8)
        ensures
            value == CubeColor::Green.spec_value(),
    {
        2
    }

    /// The encoding of blue, the colour of the B face.
    pub fn blue() -> (value: u8)
        ensures
            value == CubeColor::Blue.spec_value(),
    {
        3
    }

    /// The encoding of red, the colour of the R face.
    pub fn red() -> (value: u8)
        ensures
            value == CubeColor::Red.spec_value(),
    {
        4
    }

    /// The encoding of orange, the colour of the L face.
    pub fn orange() -> (value: u8)
        ensures
            value == CubeColor::Orange.spec_value(),
    {
        5
    }
}

} // verus!
