//! A packed color: four bytes in one scalar, fed to shaders as a single
//! unsigned-integer attribute.

use vstd::prelude::*;

use crate::types::{AsSizedDataType, DataType, SizedDataType};

verus! {

/// A color as the four packed bytes `0xAABBGGRR`: red in the lowest
/// byte, alpha in the highest.
#[derive(Copy, Clone, Debug, PartialEq, Eq, Structural)]
pub struct Color(pub u32);

impl Color {
    /// Pack four channel bytes, red first, alpha last.
    pub fn from_rgba(r: u8, g: u8, b: u8, a: u8) -> (c: Color)
        ensures
            c.0 == r + g * 0x100 + b * 0x10000 + a * 0x1000000,
    {
        Color(
            (r as u32) + (g as u32) * 0x100 + (b as u32) * 0x10000 + (a as u32) * 0x1000000,
        )
    }
}

impl AsSizedDataType for Color {
    fn as_sized_data_type() -> (r: SizedDataType) {
        SizedDataType::new(DataType::UnsignedInt, 1)
    }
}

} // verus!
