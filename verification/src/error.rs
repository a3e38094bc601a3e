//! Typed failures of resource creation.
//!
//! Resource-creation failures propagate to the caller and are never
//! retried; attribute-name and type mismatches are diagnostics only and
//! do not appear here.

use vstd::prelude::*;

verus! {

/// A failure while creating a device resource.
#[derive(Clone, Debug)]
pub enum GpuError {
    /// The device could not compile a shader; carries its diagnostic text.
    ShaderCompileError(String),
    /// The device could not link the program, or its reflection cannot be
    /// bound; carries the diagnostic text.
    ShaderLinkError(String),
    /// The compiled program has no uniform of the attached name.
    UnknownUniformError(String),
    /// A uniform name was attached twice.
    DuplicateUniformError(String),
    /// The device could not create a vertex-layout object.
    VertexLayoutCreationError,
    /// A generic driver error code.
    DeviceError(u32),
}

impl GpuError {
    /// A short fixed description of the failure kind.
    pub fn kind_message(&self) -> (r: &'static str)
        ensures
            self is ShaderCompileError ==> r@ == "shader compilation failed"@,
            self is ShaderLinkError ==> r@ == "program linking failed"@,
            self is UnknownUniformError ==> r@ == "no uniform with the attached name"@,
            self is DuplicateUniformError ==> r@ == "uniform attached more than once"@,
            self is VertexLayoutCreationError ==> r@ == "could not create vertex-layout object"@,
            self is DeviceError ==> r@ == "device reported an error code"@,
    {
        match self {
            GpuError::ShaderCompileError(_) => "shader compilation failed",
            GpuError::ShaderLinkError(_) => "program linking failed",
            GpuError::UnknownUniformError(_) => "no uniform with the attached name",
            GpuError::DuplicateUniformError(_) => "uniform attached more than once",
            GpuError::VertexLayoutCreationError => "could not create vertex-layout object",
            GpuError::DeviceError(_) => "device reported an error code",
        }
    }

    /// The diagnostic text carried with the failure, where there is one.
    pub fn detail(&self) -> (r: Option<&String>)
        ensures
            match *self {
                GpuError::ShaderCompileError(ref m)
                | GpuError::ShaderLinkError(ref m)
                | GpuError::UnknownUniformError(ref m)
                | GpuError::DuplicateUniformError(ref m) => r == Some(m),
                GpuError::VertexLayoutCreationError | GpuError::DeviceError(_) => r is None,
            },
    {
        match self {
            GpuError::ShaderCompileError(m) => Some(m),
            GpuError::ShaderLinkError(m) => Some(m),
            GpuError::UnknownUniformError(m) => Some(m),
            GpuError::DuplicateUniformError(m) => Some(m),
            GpuError::VertexLayoutCreationError => None,
            GpuError::DeviceError(_) => None,
        }
    }
}

} // verus!
