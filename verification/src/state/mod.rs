//! Fixed-function pipeline state carried alongside a program.

use vstd::prelude::*;

pub mod blending;
pub mod culling;
pub mod depth;
pub mod enable;

use blending::BlendFunction;
use culling::CullingMode;
use depth::DepthFunction;

verus! {

/// The fixed-function state a program draws with: blending, culling and
/// depth testing, each optional.
#[derive(Clone, Copy, Debug, PartialEq, Eq, Structural)]
pub struct StateDescriptor {
    pub blend_func: Option<BlendFunction>,
    pub culling: Option<CullingMode>,
    pub depth_func: Option<DepthFunction>,
}

impl Default for StateDescriptor {
    fn default() -> (r: Self)
        ensures
            r.blend_func is None,
            r.culling is None,
            r.depth_func is None,
    {
        StateDescriptor { blend_func: None, culling: None, depth_func: None }
    }
}

} // verus!
