//! Face-culling modes.

use vstd::prelude::*;

verus! {

#[derive(Copy, Clone, Debug, PartialEq, Eq, Structural)]
pub enum CullingMode {
    Front,
    Back,
    FrontAndBack,
}

impl CullingMode {
    /// The device's numeric code for this mode.
    pub open spec fn spec_gl_code(self) -> u32 {
        match self {
            CullingMode::Front => 0x0404,
            CullingMode::Back => 0x0405,
            CullingMode::FrontAndBack => 0x0408,
        }
    }

    pub fn gl_code(&self) -> (r: u32)
        ensures
            r == self.spec_gl_code(),
    {
        match self {
            CullingMode::Front => 0x0404,
            CullingMode::Back => 0x0405,
            CullingMode::FrontAndBack => 0x0408,
        }
    }
}

} // verus!
