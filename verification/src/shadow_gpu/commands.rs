//! The device-call vocabulary.
//!
//! Every operation the engine decides to perform on the graphics device
//! is recorded as one [`GpuCommand`]. An unverified executor maps each
//! command to the corresponding driver call; the contracts in this crate
//! speak about which commands a draw emits.

use vstd::prelude::*;

use crate::draw_modes::DrawMode;
use crate::shadow_gpu::state::BufferBinding;
use crate::shadow_gpu::uniforms::UniformValue;
use crate::buffer::types::BufferUsageHint;

verus! {

/// One driver call. Device objects are named by the small integer ids
/// the engine hands out; the executor keeps the id-to-object tables.
#[derive(Clone, Copy, Debug, PartialEq, Eq, Structural)]
pub enum GpuCommand {
    /// Create a device buffer object.
    CreateBuffer { buffer: usize },
    /// Bind a device buffer object to the array-buffer bind point.
    BindBuffer { buffer: usize },
    /// Allocate the bound buffer's storage and upload the owning logical
    /// buffer's full payload (`byte_length` bytes of it).
    BufferData { buffer: usize, byte_length: usize, usage: BufferUsageHint },
    /// Overwrite the leading `byte_length` bytes of the bound buffer's
    /// storage with the owning logical buffer's payload.
    BufferSubData { buffer: usize, byte_length: usize },
    /// Release a device buffer object.
    DeleteBuffer { buffer: usize },
    /// Create a vertex-layout object.
    CreateVertexArray { vao: usize },
    /// Bind a vertex-layout object.
    BindVertexArray { vao: usize },
    /// Point a float attribute slot at the bound buffer.
    VertexAttribPointer { binding: BufferBinding },
    /// Point an integer attribute slot at the bound buffer.
    VertexAttribIPointer { binding: BufferBinding },
    /// Set an attribute slot's instance divisor.
    VertexAttribDivisor { location: u32, divisor: u32 },
    /// Enable an attribute slot.
    EnableVertexAttribArray { location: u32 },
    /// Select a program, or none.
    UseProgram { program: Option<usize> },
    /// Upload a uniform value to the slot a handle names.
    SetUniform { uniform: usize, value: UniformValue },
    /// Draw `count` vertices starting at `first`.
    DrawArrays { mode: DrawMode, first: i32, count: i32 },
    /// Draw `count` vertices for each of `instance_count` instances.
    DrawArraysInstanced { mode: DrawMode, first: i32, count: i32, instance_count: i32 },
}

impl GpuCommand {
    /// Whether the command changes device state, as opposed to selecting
    /// an existing object or issuing a draw.
    pub open spec fn is_state_change(self) -> bool {
        match self {
            GpuCommand::BindBuffer { .. } => false,
            GpuCommand::BindVertexArray { .. } => false,
            GpuCommand::DrawArrays { .. } => false,
            GpuCommand::DrawArraysInstanced { .. } => false,
            _ => true,
        }
    }

    /// Whether the command allocates buffer storage.
    pub open spec fn is_buffer_allocation(self) -> bool {
        self is BufferData
    }

    /// Whether the command creates a vertex-layout object.
    pub open spec fn is_vao_creation(self) -> bool {
        self is CreateVertexArray
    }

    /// Whether the command uploads a uniform value.
    pub open spec fn is_uniform_upload(self) -> bool {
        self is SetUniform
    }
}

/// No command in `s` changes device state.
pub open spec fn no_state_changes(s: Seq<GpuCommand>) -> bool {
    forall|i: int| 0 <= i < s.len() ==> !(#[trigger] s[i]).is_state_change()
}

/// How many commands of `s` satisfy `f`.
pub open spec fn count_where(s: Seq<GpuCommand>, f: spec_fn(GpuCommand) -> bool) -> int
    decreases s.len(),
{
    if s.len() == 0 {
        0
    } else {
        count_where(s.drop_last(), f) + if f(s.last()) {
            1int
        } else {
            0int
        }
    }
}

pub proof fn lemma_count_where_concat(a: Seq<GpuCommand>, b: Seq<GpuCommand>, f: spec_fn(GpuCommand) -> bool)
    ensures
        count_where(a + b, f) == count_where(a, f) + count_where(b, f),
    decreases b.len(),
{
    if b.len() == 0 {
        assert(a + b =~= a);
    } else {
        lemma_count_where_concat(a, b.drop_last(), f);
        assert((a + b).drop_last() =~= a + b.drop_last());
        assert((a + b).last() == b.last());
    }
}

pub proof fn lemma_count_where_push(s: Seq<GpuCommand>, c: GpuCommand, f: spec_fn(GpuCommand) -> bool)
    ensures
        count_where(s.push(c), f) == count_where(s, f) + if f(c) {
            1int
        } else {
            0int
        },
{
    assert(s.push(c).drop_last() =~= s);
    assert(s.push(c).last() == c);
}

pub proof fn lemma_count_where_singleton(c: GpuCommand, f: spec_fn(GpuCommand) -> bool)
    ensures
        count_where(seq![c], f) == if f(c) {
            1int
        } else {
            0int
        },
{
    assert(seq![c].drop_last() =~= Seq::<GpuCommand>::empty());
    assert(seq![c].last() == c);
    assert(count_where(Seq::<GpuCommand>::empty(), f) == 0);
}

/// A sequence with no match of `f` counts zero.
pub proof fn lemma_count_where_zero(s: Seq<GpuCommand>, f: spec_fn(GpuCommand) -> bool)
    requires
        forall|i: int| 0 <= i < s.len() ==> !f(#[trigger] s[i]),
    ensures
        count_where(s, f) == 0,
    decreases s.len(),
{
    if s.len() > 0 {
        assert(s.last() == s[s.len() - 1]);
        lemma_count_where_zero(s.drop_last(), f);
    }
}

} // verus!
