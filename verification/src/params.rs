//! The tagged value carried by one effect parameter, as it travels over
//! the wire and into the persistent store.

use vstd::prelude::*;
use crate::color::{color_from_u32, color_u32, RGBLedColor};

verus! {

/// A parameter value: a color, or a scalar in fixed-point thousandths
/// (`Float(1000)` stands for `1.0`).
#[derive(Clone, Copy, Debug, PartialEq, Eq, Structural)]
pub enum ParameterTypes {
    Color(RGBLedColor),
    Float(u32),
}

/// The scalar of a `Float`, zero for a color.
pub open spec fn scalar_of(p: ParameterTypes) -> u32 {
    match p {
        ParameterTypes::Color(_) => 0,
        ParameterTypes::Float(value) => value,
    }
}

/// The single 32-bit word a parameter is persisted as: a color packs its
/// channels, a scalar is stored raw.
pub open spec fn store_word_of(p: ParameterTypes) -> int {
    match p {
        ParameterTypes::Color(c) => color_u32(c),
        ParameterTypes::Float(value) => value as int,
    }
}

/// The parameter read back from a persisted word, shaped like `p`: the
/// declared value decides whether the word is a packed color or a raw
/// scalar.
pub open spec fn decoded_like(p: ParameterTypes, word: u32) -> ParameterTypes {
    match p {
        ParameterTypes::Color(_) => ParameterTypes::Color(color_from_u32(word)),
        ParameterTypes::Float(_) => ParameterTypes::Float(word),
    }
}

impl ParameterTypes {
    /// The scalar carried by a `Float`; a color has none.
    pub fn as_scalar(self) -> (r: Option<u32>)
        ensures
            r == match self {
                ParameterTypes::Color(_) => None::<u32>,
                ParameterTypes::Float(value) => Some(value),
            },
    {
        match self {
            ParameterTypes::Color(_) => None,
            ParameterTypes::Float(value) => Some(value),
        }
    }

    /// The scalar of a `Float`, zero for a color.
    pub fn scalar_or_zero(self) -> (r: u32)
        ensures
            r == scalar_of(self),
    {
        match self {
            ParameterTypes::Color(_) => 0,
            ParameterTypes::Float(value) => value,
        }
    }

    /// The word this parameter is persisted as.
    pub fn to_store_word(self) -> (w: u32)
        ensures
            w == store_word_of(self),
    {
        match self {
            ParameterTypes::Color(c) => c.to_u32(),
            ParameterTypes::Float(value) => value,
        }
    }

    /// Reads a persisted word back, keeping this parameter's kind.
    pub fn from_store_word(self, word: u32) -> (r: ParameterTypes)
        ensures
            r == decoded_like(self, word),
    {
        match self {
            ParameterTypes::Color(_) => ParameterTypes::Color(RGBLedColor::new_from_u32(word)),
            ParameterTypes::Float(_) => ParameterTypes::Float(word),
        }
    }
}

} // verus!
