//! Buffer-facing API: bind points, usage hints and buffer-like sources
//! for draw calls.

use vstd::prelude::*;

pub mod types;

use crate::shadow_gpu::buffer::BufferHandle;
use crate::shadow_gpu::ShadowGpu;

verus! {

/// Something a draw call can read vertices from: either a real buffer
/// of an engine, or a vertex count without data.
pub trait BufferLike {
    /// The buffer this source draws from, if it has one.
    spec fn spec_buffer(&self) -> Option<BufferHandle>;

    /// Whether the source can be used with this engine.
    spec fn spec_valid(&self, gpu: ShadowGpu) -> bool;

    /// How many vertex records the source stands for.
    spec fn spec_len(&self, gpu: ShadowGpu) -> usize;

    fn get_buffer(&self) -> (r: Option<BufferHandle>)
        ensures
            r == self.spec_buffer(),
    ;

    /// A valid source's buffer, if any, is a buffer of the engine.
    proof fn valid_implies_buffer(&self, gpu: ShadowGpu)
        requires
            self.spec_valid(gpu),
        ensures
            self.spec_buffer() matches Some(h) ==> h.id < gpu.buffers@.len(),
    ;

    fn len(&self, gpu: &ShadowGpu) -> (r: usize)
        requires
            self.spec_valid(*gpu),
        ensures
            r == self.spec_len(*gpu),
    ;
}

impl BufferLike for BufferHandle {
    open spec fn spec_buffer(&self) -> Option<BufferHandle> {
        Some(*self)
    }

    open spec fn spec_valid(&self, gpu: ShadowGpu) -> bool {
        self.valid(gpu)
    }

    open spec fn spec_len(&self, gpu: ShadowGpu) -> usize {
        gpu.buffers@[self.id as int].element_count
    }

    fn get_buffer(&self) -> (r: Option<BufferHandle>) {
        Some(*self)
    }

    proof fn valid_implies_buffer(&self, gpu: ShadowGpu) {
    }

    fn len(&self, gpu: &ShadowGpu) -> (r: usize) {
        BufferHandle::len(self, gpu)
    }
}

/// A vertex source with a count but no data: for programs that generate
/// their geometry from the vertex index alone.
#[derive(Clone, Copy, Debug, PartialEq, Eq, Structural)]
pub struct DummyBuffer {
    pub size: usize,
}

impl DummyBuffer {
    pub fn new(size: usize) -> (r: DummyBuffer)
        ensures
            r.size == size,
    {
        DummyBuffer { size }
    }
}

impl BufferLike for DummyBuffer {
    open spec fn spec_buffer(&self) -> Option<BufferHandle> {
        None
    }

    open spec fn spec_valid(&self, gpu: ShadowGpu) -> bool {
        true
    }

    open spec fn spec_len(&self, gpu: ShadowGpu) -> usize {
        self.size
    }

    fn get_buffer(&self) -> (r: Option<BufferHandle>) {
        None
    }

    proof fn valid_implies_buffer(&self, gpu: ShadowGpu) {
    }

    fn len(&self, gpu: &ShadowGpu) -> (r: usize) {
        self.size
    }
}

} // verus!
