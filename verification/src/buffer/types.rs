//! Buffer bind points and usage hints.

use vstd::prelude::*;

verus! {

/// A global bind point an array buffer can be bound to.
#[derive(Clone, Copy, Debug, PartialEq, Eq, Structural)]
pub enum BufferBindPoint {
    ArrayBuffer,
    ElementArrayBuffer,
}

impl BufferBindPoint {
    /// The device's numeric code for this bind point.
    pub open spec fn spec_gl_code(self) -> u32 {
        match self {
            BufferBindPoint::ArrayBuffer => 0x8892,
            BufferBindPoint::ElementArrayBuffer => 0x8893,
        }
    }

    pub fn gl_code(&self) -> (r: u32)
        ensures
            r == self.spec_gl_code(),
    {
        match self {
            BufferBindPoint::ArrayBuffer => 0x8892,
            BufferBindPoint::ElementArrayBuffer => 0x8893,
        }
    }
}

/// A non-binding hint to the driver about how a buffer will be used.
#[derive(Clone, Copy, Debug, PartialEq, Eq, Structural)]
pub enum BufferUsageHint {
    /// Written once and read once.
    StreamDraw,
    /// Written once and read many times.
    StaticDraw,
    /// Written and read many times.
    DynamicDraw,
}

impl BufferUsageHint {
    /// The device's numeric code for this hint.
    pub open spec fn spec_gl_code(self) -> u32 {
        match self {
            BufferUsageHint::StreamDraw => 0x88E0,
            BufferUsageHint::StaticDraw => 0x88E4,
            BufferUsageHint::DynamicDraw => 0x88E8,
        }
    }

    pub fn gl_code(&self) -> (r: u32)
        ensures
            r == self.spec_gl_code(),
    {
        match self {
            BufferUsageHint::StreamDraw => 0x88E0,
            BufferUsageHint::StaticDraw => 0x88E4,
            BufferUsageHint::DynamicDraw => 0x88E8,
        }
    }
}

} // verus!
