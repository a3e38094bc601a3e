//! Device capabilities that can be switched on and off.

use vstd::prelude::*;

verus! {

#[derive(Clone, Copy, Debug, PartialEq, Eq, Structural)]
pub enum EnableCap {
    CullFace,
    Blend,
    Dither,
    StencilTest,
    DepthTest,
    ScissorTest,
    PolygonOffsetFill,
    SampleAlphaToCoverage,
    SampleCoverage,
}

impl EnableCap {
    /// The device's numeric code for this capability.
    pub open spec fn spec_gl_code(self) -> u32 {
        match self {
            EnableCap::CullFace => 0x0B44,
            EnableCap::Blend => 0x0BE2,
            EnableCap::Dither => 0x0BD0,
            EnableCap::StencilTest => 0x0B90,
            EnableCap::DepthTest => 0x0B71,
            EnableCap::ScissorTest => 0x0C11,
            EnableCap::PolygonOffsetFill => 0x8037,
            EnableCap::SampleAlphaToCoverage => 0x809E,
            EnableCap::SampleCoverage => 0x80A0,
        }
    }

    pub fn gl_code(&self) -> (r: u32)
        ensures
            r == self.spec_gl_code(),
    {
        match self {
            EnableCap::CullFace => 0x0B44,
            EnableCap::Blend => 0x0BE2,
            EnableCap::Dither => 0x0BD0,
            EnableCap::StencilTest => 0x0B90,
            EnableCap::DepthTest => 0x0B71,
            EnableCap::ScissorTest => 0x0C11,
            EnableCap::PolygonOffsetFill => 0x8037,
            EnableCap::SampleAlphaToCoverage => 0x809E,
            EnableCap::SampleCoverage => 0x80A0,
        }
    }
}

} // verus!
