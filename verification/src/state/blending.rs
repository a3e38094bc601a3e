//! Blending factors and equations of the fixed-function pipeline state.

use vstd::prelude::*;

verus! {

#[derive(Copy, Clone, Debug, PartialEq, Eq, Structural)]
pub enum BlendingFactorDest {
    Zero,
    One,
    SrcColor,
    OneMinusSrcColor,
    SrcAlpha,
    OneMinusSrcAlpha,
    DstAlpha,
    OneMinusDstAlpha,
}

impl BlendingFactorDest {
    /// The device's numeric code for this destination factor.
    pub open spec fn spec_gl_code(self) -> u32 {
        match self {
            BlendingFactorDest::Zero => 0,
            BlendingFactorDest::One => 1,
            BlendingFactorDest::SrcColor => 0x0300,
            BlendingFactorDest::OneMinusSrcColor => 0x0301,
            BlendingFactorDest::SrcAlpha => 0x0302,
            BlendingFactorDest::OneMinusSrcAlpha => 0x0303,
            BlendingFactorDest::DstAlpha => 0x0304,
            BlendingFactorDest::OneMinusDstAlpha => 0x0305,
        }
    }

    pub fn gl_code(&self) -> (r: u32)
        ensures
            r == self.spec_gl_code(),
    {
        match self {
            BlendingFactorDest::Zero => 0,
            BlendingFactorDest::One => 1,
            BlendingFactorDest::SrcColor => 0x0300,
            BlendingFactorDest::OneMinusSrcColor => 0x0301,
            BlendingFactorDest::SrcAlpha => 0x0302,
            BlendingFactorDest::OneMinusSrcAlpha => 0x0303,
            BlendingFactorDest::DstAlpha => 0x0304,
            BlendingFactorDest::OneMinusDstAlpha => 0x0305,
        }
    }
}

impl Default for BlendingFactorDest {
    fn default() -> (r: Self)
        ensures
            r == BlendingFactorDest::Zero,
    {
        BlendingFactorDest::Zero
    }
}

#[derive(Copy, Clone, Debug, PartialEq, Eq, Structural)]
pub enum BlendingFactorSrc {
    Zero,
    One,
    DstColor,
    OneMinusDstColor,
    SrcAlphaSaturate,
    SrcAlpha,
    OneMinusSrcAlpha,
    DstAlpha,
    OneMinusDstAlpha,
}

impl BlendingFactorSrc {
    /// The device's numeric code for this source factor.
    pub open spec fn spec_gl_code(self) -> u32 {
        match self {
            BlendingFactorSrc::Zero => 0,
            BlendingFactorSrc::One => 1,
            BlendingFactorSrc::DstColor => 0x0306,
            BlendingFactorSrc::OneMinusDstColor => 0x0307,
            BlendingFactorSrc::SrcAlphaSaturate => 0x0308,
            BlendingFactorSrc::SrcAlpha => 0x0302,
            BlendingFactorSrc::OneMinusSrcAlpha => 0x0303,
            BlendingFactorSrc::DstAlpha => 0x0304,
            BlendingFactorSrc::OneMinusDstAlpha => 0x0305,
        }
    }

    pub fn gl_code(&self) -> (r: u32)
        ensures
            r == self.spec_gl_code(),
    {
        match self {
            BlendingFactorSrc::Zero => 0,
            BlendingFactorSrc::One => 1,
            BlendingFactorSrc::DstColor => 0x0306,
            BlendingFactorSrc::OneMinusDstColor => 0x0307,
            BlendingFactorSrc::SrcAlphaSaturate => 0x0308,
            BlendingFactorSrc::SrcAlpha => 0x0302,
            BlendingFactorSrc::OneMinusSrcAlpha => 0x0303,
            BlendingFactorSrc::DstAlpha => 0x0304,
            BlendingFactorSrc::OneMinusDstAlpha => 0x0305,
        }
    }
}

impl Default for BlendingFactorSrc {
    fn default() -> (r: Self)
        ensures
            r == BlendingFactorSrc::One,
    {
        BlendingFactorSrc::One
    }
}

#[derive(Copy, Clone, Debug, PartialEq, Eq, Structural)]
pub enum BlendEquation {
    Add,
    BlendEquation,
    BlendEquationAlpha,
    Subtract,
    ReverseSubtract,
}

impl BlendEquation {
    /// The device's numeric code for this equation.
    pub open spec fn spec_gl_code(self) -> u32 {
        match self {
            BlendEquation::Add => 0x8006,
            BlendEquation::BlendEquation => 0x8009,
            BlendEquation::BlendEquationAlpha => 0x883d,
            BlendEquation::Subtract => 0x800a,
            BlendEquation::ReverseSubtract => 0x800b,
        }
    }

    pub fn gl_code(&self) -> (r: u32)
        ensures
            r == self.spec_gl_code(),
    {
        match self {
            BlendEquation::Add => 0x8006,
            BlendEquation::BlendEquation => 0x8009,
            BlendEquation::BlendEquationAlpha => 0x883d,
            BlendEquation::Subtract => 0x800a,
            BlendEquation::ReverseSubtract => 0x800b,
        }
    }
}

impl Default for BlendEquation {
    fn default() -> (r: Self)
        ensures
            r == BlendEquation::Add,
    {
        BlendEquation::Add
    }
}

/// A full blend configuration: the two factors and the equation.
#[derive(Clone, Copy, Debug, PartialEq, Eq, Structural)]
pub struct BlendFunction {
    pub source_factor: BlendingFactorSrc,
    pub dst_factor: BlendingFactorDest,
    pub equation: BlendEquation,
}

impl Default for BlendFunction {
    fn default() -> (r: Self)
        ensures
            r.source_factor == BlendingFactorSrc::One,
            r.dst_factor == BlendingFactorDest::Zero,
            r.equation == BlendEquation::Add,
    {
        BlendFunction {
            source_factor: BlendingFactorSrc::One,
            dst_factor: BlendingFactorDest::Zero,
            equation: BlendEquation::Add,
        }
    }
}

} // verus!
