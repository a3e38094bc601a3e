//! The engine's headline guarantees, stated on their own.
//!
//! Each law here is proved from the contracts of the operations it
//! speaks about; the idempotence of rebinding and the uniform-diff
//! guarantee are stated directly on `ShadowGpu::set_state` and the draw
//! operations as postconditions.

use vstd::prelude::*;

use crate::renderer::{spec_match_bindings, Renderer};
use crate::shadow_gpu::buffer::{BufferHandle, BufferRecord};
use crate::shadow_gpu::commands::{count_where, GpuCommand};
use crate::shadow_gpu::buffer::lemma_sync_cmds_kinds;
use crate::shadow_gpu::state::{BufferBinding, LayoutSignature};
use crate::shadow_gpu::{AttributeInfo, ShadowGpu};

verus! {

/// Growth correctness, first half: syncing a buffer whose payload fits
/// its allocation never reallocates, and the allocation survives
/// untouched. In particular, replacing a payload by one of the same or
/// smaller size costs at most one in-place update.
pub proof fn lemma_growth_no_reallocation(rec: BufferRecord, new_id: usize)
    requires
        rec.alloc is Some,
        rec.data@.len() <= rec.alloc.unwrap().capacity,
    ensures
        count_where(
            rec.spec_sync_cmds(new_id),
            |c: GpuCommand| c.is_buffer_allocation(),
        ) == 0,
        rec.spec_synced(new_id).alloc == rec.alloc,
{
    lemma_sync_cmds_kinds(rec, new_id);
}

/// Growth correctness, second half: syncing a buffer whose payload
/// outgrew its allocation reallocates exactly once, to exactly the
/// payload size.
pub proof fn lemma_growth_reallocates_once(rec: BufferRecord, new_id: usize)
    requires
        rec.alloc is Some,
        rec.dirty,
        rec.data@.len() > rec.alloc.unwrap().capacity,
        rec.data@.len() <= usize::MAX,
    ensures
        count_where(
            rec.spec_sync_cmds(new_id),
            |c: GpuCommand| c.is_buffer_allocation(),
        ) == 1,
        rec.spec_synced(new_id).alloc.unwrap().capacity == rec.data@.len(),
{
    lemma_sync_cmds_kinds(rec, new_id);
}

/// Growth correctness, composed: a grow from under the old capacity to
/// a larger payload reallocates exactly once, and every later payload
/// that fits the grown capacity syncs with no further reallocation.
pub proof fn lemma_growth_correctness(rec: BufferRecord, new_id: usize, later: BufferRecord)
    requires
        rec.alloc is Some,
        rec.dirty,
        rec.data@.len() > rec.alloc.unwrap().capacity,
        rec.data@.len() <= usize::MAX,
        later.alloc == rec.spec_synced(new_id).alloc,
        later.data@.len() <= rec.data@.len(),
    ensures
        count_where(
            rec.spec_sync_cmds(new_id),
            |c: GpuCommand| c.is_buffer_allocation(),
        ) == 1,
        count_where(
            later.spec_sync_cmds(new_id),
            |c: GpuCommand| c.is_buffer_allocation(),
        ) == 0,
        later.spec_synced(new_id).alloc == later.alloc,
{
    lemma_growth_reallocates_once(rec, new_id);
    lemma_growth_no_reallocation(later, new_id);
}

/// Signature stability, first half: the layout signature a draw builds
/// depends only on the buffers' identities and attribute layouts and on
/// the program's reflection — never on the payloads. Two draws with the
/// same buffer objects and the same program build equal signatures even
/// if the payloads changed in between.
pub proof fn lemma_signature_stability(
    gpu1: ShadowGpu,
    gpu2: ShadowGpu,
    attrs: Seq<(String, AttributeInfo)>,
    vb: Option<BufferHandle>,
)
    requires
        gpu1.buffers@.len() == gpu2.buffers@.len(),
        vb matches Some(h) ==> h.id < gpu1.buffers@.len()
            && gpu2.buffers@[h.id as int].descriptors == gpu1.buffers@[h.id as int].descriptors,
    ensures
        Renderer::spec_render_signature(gpu1, attrs, vb) == Renderer::spec_render_signature(
            gpu2,
            attrs,
            vb,
        ),
{
}

/// Signature stability, second half: substituting a different buffer
/// instance, even one with identical contents, yields a distinct
/// signature — identity, not value, keys the layout cache.
pub proof fn lemma_signature_identity(
    gpu: ShadowGpu,
    attrs: Seq<(String, AttributeInfo)>,
    h1: BufferHandle,
    h2: BufferHandle,
)
    requires
        h1.id != h2.id,
        h1.id < gpu.buffers@.len(),
        h2.id < gpu.buffers@.len(),
        spec_match_bindings(gpu.buffers@[h1.id as int].descriptors@, attrs, 0).len() > 0,
        spec_match_bindings(gpu.buffers@[h2.id as int].descriptors@, attrs, 0).len() > 0,
    ensures
        Renderer::spec_render_signature(gpu, attrs, Some(h1)) != Renderer::spec_render_signature(
            gpu,
            attrs,
            Some(h2),
        ),
{
    let b1 = spec_match_bindings(gpu.buffers@[h1.id as int].descriptors@, attrs, 0);
    let b2 = spec_match_bindings(gpu.buffers@[h2.id as int].descriptors@, attrs, 0);
    let empty = Seq::<(BufferHandle, Seq<BufferBinding>)>::empty();
    assert(LayoutSignature::spec_insert_pos_view(empty, h1.id) == 0);
    assert(LayoutSignature::spec_insert_pos_view(empty, h2.id) == 0);
    let s1 = Renderer::spec_render_signature(gpu, attrs, Some(h1));
    let s2 = Renderer::spec_render_signature(gpu, attrs, Some(h2));
    assert(s1 == empty.insert(0, (h1, b1)));
    assert(s2 == empty.insert(0, (h2, b2)));
    assert(s1[0].0 == h1);
    assert(s2[0].0 == h2);
}

} // verus!
