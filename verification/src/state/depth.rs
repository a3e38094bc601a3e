//! Depth-test comparison functions.

use vstd::prelude::*;

verus! {

#[derive(Copy, Clone, Debug, PartialEq, Eq, Structural)]
pub enum DepthFunction {
    Never,
    Less,
    Equal,
    LessOrEqual,
    Greater,
    NotEqual,
    GreaterOrEqual,
    Always,
}

impl DepthFunction {
    /// The device's numeric code for this comparison.
    pub open spec fn spec_gl_code(self) -> u32 {
        match self {
            DepthFunction::Never => 0x0200,
            DepthFunction::Less => 0x0201,
            DepthFunction::Equal => 0x0202,
            DepthFunction::LessOrEqual => 0x0203,
            DepthFunction::Greater => 0x0204,
            DepthFunction::NotEqual => 0x0205,
            DepthFunction::GreaterOrEqual => 0x0206,
            DepthFunction::Always => 0x0207,
        }
    }

    pub fn gl_code(&self) -> (r: u32)
        ensures
            r == self.spec_gl_code(),
    {
        match self {
            DepthFunction::Never => 0x0200,
            DepthFunction::Less => 0x0201,
            DepthFunction::Equal => 0x0202,
            DepthFunction::LessOrEqual => 0x0203,
            DepthFunction::Greater => 0x0204,
            DepthFunction::NotEqual => 0x0205,
            DepthFunction::GreaterOrEqual => 0x0206,
            DepthFunction::Always => 0x0207,
        }
    }
}

} // verus!
