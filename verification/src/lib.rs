//! A retained-mode GPU command-submission layer.
//!
//! Callers describe typed vertex data, shader programs and uniform values;
//! the library decides which device calls a draw actually needs, eliding
//! redundant state changes against a shadow copy of the device state.
//! Device work itself is returned as a list of command values for an
//! unverified executor to apply.

pub mod attribute;
pub mod buffer;
pub mod color;
pub mod draw_modes;
pub mod error;
pub mod laws;
pub mod program;
pub mod renderer;
pub mod shadow_gpu;
pub mod state;
pub mod types;

pub use attribute::{Attribute, AttributeBinding, VertexAttribute, VertexAttributeBinding};
pub use color::Color;
pub use draw_modes::DrawMode;
pub use error::GpuError;
pub use program::Program;
pub use renderer::Renderer;
pub use types::{AsSizedDataType, DataType, GlSizedDataType, SizedDataType, UniformType};
