//! Primitive assembly modes for draw calls.

use vstd::prelude::*;

verus! {

/// How the device assembles vertices into primitives.
#[derive(Clone, Copy, Debug, PartialEq, Eq, Structural)]
pub enum DrawMode {
    Points,
    Lines,
    LineLoop,
    LineStrip,
    Triangles,
    TriangleStrip,
    TriangleFan,
}

impl DrawMode {
    /// The device's numeric code for this mode.
    pub open spec fn spec_gl_code(self) -> u32 {
        match self {
            DrawMode::Points => 0,
            DrawMode::Lines => 1,
            DrawMode::LineLoop => 2,
            DrawMode::LineStrip => 3,
            DrawMode::Triangles => 4,
            DrawMode::TriangleStrip => 5,
            DrawMode::TriangleFan => 6,
        }
    }

    pub fn gl_code(&self) -> (r: u32)
        ensures
            r == self.spec_gl_code(),
    {
        match self {
            DrawMode::Points => 0,
            DrawMode::Lines => 1,
            DrawMode::LineLoop => 2,
            DrawMode::LineStrip => 3,
            DrawMode::Triangles => 4,
            DrawMode::TriangleStrip => 5,
            DrawMode::TriangleFan => 6,
        }
    }
}

} // verus!
