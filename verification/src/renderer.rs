//! Draw orchestration: matching buffer layouts against program
//! reflection, assembling the layout signature, and issuing draws.

use vstd::prelude::*;

use crate::attribute::AttributeBinding;
use crate::buffer::BufferLike;
use crate::error::GpuError;
use crate::program::Program;
use crate::shadow_gpu::buffer::{spec_stride, BufferHandle};
use crate::shadow_gpu::commands::GpuCommand;
use crate::shadow_gpu::program::{attr_lookup, spec_attr_lookup, ProgramHandle};
use crate::shadow_gpu::state::{BufferBinding, GpuState, LayoutSignature};
use crate::shadow_gpu::uniforms::{UniformHandle, UniformValue};
use crate::shadow_gpu::{AttributeInfo, ShadowGpu};

verus! {

/// A well-formed descriptor list has a nonnegative stride.
pub proof fn lemma_stride_nonneg(ds: Seq<AttributeBinding>)
    requires
        forall|j: int| 0 <= j < ds.len() ==> (#[trigger] ds[j]).wf(),
    ensures
        spec_stride(ds) >= 0,
    decreases ds.len(),
{
    if ds.len() > 0 {
        assert(ds.last() == ds[ds.len() - 1]);
        lemma_stride_nonneg(ds.drop_last());
    }
}

/// Prefixes of a descriptor list never exceed its full stride when all
/// descriptors are well formed.
pub proof fn lemma_stride_prefix(ds: Seq<AttributeBinding>, i: int)
    requires
        0 <= i <= ds.len(),
        forall|j: int| 0 <= j < ds.len() ==> (#[trigger] ds[j]).wf(),
    ensures
        0 <= spec_stride(ds.take(i)) <= spec_stride(ds),
        forall|j: int|
            i <= j <= ds.len() ==> spec_stride(ds.take(i)) <= spec_stride(#[trigger] ds.take(j)),
    decreases ds.len() - i,
{
    assert forall|j: int| 0 <= j < ds.take(i).len() implies (#[trigger] ds.take(i)[j]).wf() by {
        assert(ds.take(i)[j] == ds[j]);
    }
    lemma_stride_nonneg(ds.take(i));
    if i < ds.len() {
        assert(ds.take(i + 1).drop_last() =~= ds.take(i));
        assert(ds.take(i + 1).last() == ds[i]);
        assert(ds[i].kind.spec_byte_size() >= 0);
        lemma_stride_prefix(ds, i + 1);
        assert(ds.take(ds.len() as int) =~= ds);
    } else {
        assert(ds.take(i) =~= ds);
        assert forall|j: int| i <= j <= ds.len() implies spec_stride(ds.take(i)) <= spec_stride(
            #[trigger] ds.take(j),
        ) by {
            assert(ds.take(j) =~= ds);
        }
    }
}

/// Byte stride of one record laid out as these descriptors.
pub fn stride_of(descriptors: &Vec<AttributeBinding>) -> (r: i32)
    requires
        forall|j: int| 0 <= j < descriptors@.len() ==> (#[trigger] descriptors@[j]).wf(),
        spec_stride(descriptors@) <= i32::MAX,
    ensures
        r == spec_stride(descriptors@),
{
    let n = descriptors.len();
    let mut total: i32 = 0;
    let mut i: usize = 0;
    while i < n
        invariant
            0 <= i <= n,
            n == descriptors@.len(),
            forall|j: int| 0 <= j < descriptors@.len() ==> (#[trigger] descriptors@[j]).wf(),
            spec_stride(descriptors@) <= i32::MAX,
            total == spec_stride(descriptors@.take(i as int)),
        decreases n - i,
    {
        proof {
            lemma_stride_prefix(descriptors@, i + 1);
            assert(descriptors@.take(i + 1).drop_last() =~= descriptors@.take(i as int));
            assert(descriptors@.take(i + 1).last() == descriptors@[i as int]);
        }
        total = total + descriptors[i].kind.byte_size();
        i = i + 1;
    }
    proof {
        assert(descriptors@.take(n as int) =~= descriptors@);
    }
    total
}

/// The bindings a descriptor list yields against a program's attribute
/// table, walking the descriptors from `offset` with the given record
/// stride: a descriptor whose name the program reflects becomes one
/// binding at the reflected location; one it does not reflect is
/// dropped, and is not an error.
pub open spec fn spec_match_from(
    descs: Seq<AttributeBinding>,
    attrs: Seq<(String, AttributeInfo)>,
    divisor: u32,
    stride: int,
    offset: int,
) -> Seq<BufferBinding>
    decreases descs.len(),
{
    if descs.len() == 0 {
        Seq::empty()
    } else {
        let d = descs[0];
        let rest = spec_match_from(
            descs.drop_first(),
            attrs,
            divisor,
            stride,
            offset + d.kind.spec_byte_size(),
        );
        match spec_attr_lookup(attrs, d.variable_name@) {
            Some(info) => seq![
                BufferBinding {
                    kind: d.kind,
                    location: info.location as u32,
                    normalized: false,
                    stride: stride as i32,
                    offset: offset as i32,
                    divisor,
                },
            ] + rest,
            None => rest,
        }
    }
}

/// The bindings a buffer's descriptors yield against a program's
/// attribute table: packed in declared order, so the stride is the sum
/// of all field widths and each offset is the running prefix sum.
pub open spec fn spec_match_bindings(
    descs: Seq<AttributeBinding>,
    attrs: Seq<(String, AttributeInfo)>,
    divisor: u32,
) -> Seq<BufferBinding> {
    spec_match_from(descs, attrs, divisor, spec_stride(descs), 0)
}

/// Compute the bindings for one buffer: name-match each descriptor
/// against the program's reflection, dropping unreflected fields.
pub fn plan_buffer_bindings(
    descriptors: &Vec<AttributeBinding>,
    attributes: &Vec<(String, AttributeInfo)>,
    divisor: u32,
) -> (r: Vec<BufferBinding>)
    requires
        forall|j: int| 0 <= j < descriptors@.len() ==> (#[trigger] descriptors@[j]).wf(),
        spec_stride(descriptors@) <= i32::MAX,
    ensures
        r@ == spec_match_bindings(descriptors@, attributes@, divisor),
{
    let stride = stride_of(descriptors);
    let n = descriptors.len();
    let mut out: Vec<BufferBinding> = Vec::new();
    let mut offset: i32 = 0;
    let mut i: usize = 0;
    proof {
        assert(descriptors@.skip(0) =~= descriptors@);
    }
    while i < n
        invariant
            0 <= i <= n,
            n == descriptors@.len(),
            forall|j: int| 0 <= j < descriptors@.len() ==> (#[trigger] descriptors@[j]).wf(),
            spec_stride(descriptors@) <= i32::MAX,
            stride == spec_stride(descriptors@),
            offset == spec_stride(descriptors@.take(i as int)),
            spec_match_bindings(descriptors@, attributes@, divisor) == out@ + spec_match_from(
                descriptors@.skip(i as int),
                attributes@,
                divisor,
                stride as int,
                offset as int,
            ),
        decreases n - i,
    {
        proof {
            lemma_stride_prefix(descriptors@, i + 1);
            assert(descriptors@.take(i + 1).drop_last() =~= descriptors@.take(i as int));
            assert(descriptors@.take(i + 1).last() == descriptors@[i as int]);
            assert(descriptors@.skip(i as int)[0] == descriptors@[i as int]);
            assert(descriptors@.skip(i as int).drop_first() =~= descriptors@.skip(i as int + 1));
        }
        let d = &descriptors[i];
        match attr_lookup(attributes, &d.variable_name) {
            Some(info) => {
                let binding = BufferBinding {
                    kind: d.kind,
                    location: #[verifier::truncate] (info.location as u32),
                    normalized: false,
                    stride,
                    offset,
                    divisor,
                };
                out.push(binding);
                proof {
                    assert(spec_match_bindings(descriptors@, attributes@, divisor) == out@
                        + spec_match_from(
                        descriptors@.skip(i as int + 1),
                        attributes@,
                        divisor,
                        stride as int,
                        offset + descriptors@[i as int].kind.spec_byte_size(),
                    ));
                }
            },
            None => {
                proof {
                    assert(spec_match_bindings(descriptors@, attributes@, divisor) == out@
                        + spec_match_from(
                        descriptors@.skip(i as int + 1),
                        attributes@,
                        divisor,
                        stride as int,
                        offset + descriptors@[i as int].kind.spec_byte_size(),
                    ));
                }
            },
        }
        offset = offset + d.kind.byte_size();
        i = i + 1;
    }
    proof {
        assert(descriptors@.skip(n as int).len() == 0);
        assert(out@ + Seq::<BufferBinding>::empty() =~= out@);
    }
    out
}


/// Collects the attribute bindings of the buffers taking part in one
/// draw call into a layout signature.
pub struct BufferBindingGroup {
    pub bindings: LayoutSignature,
}

impl BufferBindingGroup {
    /// The signature built so far is sorted and names only buffers of
    /// the engine.
    pub open spec fn wf(self, gpu: ShadowGpu) -> bool {
        &&& self.bindings.wf()
        &&& forall|k: int|
            0 <= k < self.bindings.entries@.len() ==> (#[trigger] self.bindings.entries@[k]).0.id
                < gpu.buffers@.len()
    }

    /// What adding a buffer does to the signature's view: nothing for a
    /// missing buffer or one none of whose fields the program consumes;
    /// otherwise its name-matched bindings are recorded under its
    /// identity.
    pub open spec fn spec_add(
        sig: Seq<(BufferHandle, Seq<BufferBinding>)>,
        gpu: ShadowGpu,
        attrs: Seq<(String, AttributeInfo)>,
        buffer: Option<BufferHandle>,
        divisor: u32,
    ) -> Seq<(BufferHandle, Seq<BufferBinding>)> {
        match buffer {
            None => sig,
            Some(h) => {
                let binds = spec_match_bindings(
                    gpu.buffers@[h.id as int].descriptors@,
                    attrs,
                    divisor,
                );
                if binds.len() == 0 {
                    sig
                } else {
                    LayoutSignature::spec_sig_inserted_view(sig, h, binds)
                }
            },
        }
    }

    pub fn new() -> (r: BufferBindingGroup)
        ensures
            r.bindings.entries@.len() == 0,
            forall|gpu: ShadowGpu| r.wf(gpu),
    {
        BufferBindingGroup { bindings: LayoutSignature::new() }
    }

    /// Record one buffer's part in the draw: its descriptors are
    /// name-matched against the program's reflection; a buffer that
    /// contributes no binding is left out of the signature.
    pub fn add_buffer(
        &mut self,
        gpu: &ShadowGpu,
        attributes: &Vec<(String, AttributeInfo)>,
        buffer: Option<BufferHandle>,
        divisor: u32,
    )
        requires
            gpu.inv(),
            old(self).wf(*gpu),
            buffer matches Some(h) ==> h.id < gpu.buffers@.len(),
        ensures
            final(self).wf(*gpu),
            final(self).bindings.view_entries() == Self::spec_add(
                old(self).bindings.view_entries(),
                *gpu,
                attributes@,
                buffer,
                divisor,
            ),
    {
        match buffer {
            None => {},
            Some(h) => {
                let descriptors = &gpu.buffers[h.id].descriptors;
                let binds = plan_buffer_bindings(descriptors, attributes, divisor);
                if binds.len() > 0 {
                    let ghost old_entries = self.bindings.entries@;
                    self.bindings.insert(h, binds);
                    proof {
                        let pos = LayoutSignature::spec_insert_pos(old_entries, h.id);
                        crate::shadow_gpu::state::lemma_insert_pos_characterization(
                            old_entries,
                            h.id,
                        );
                        assert forall|k: int|
                            0 <= k < self.bindings.entries@.len() implies (
                        #[trigger] self.bindings.entries@[k]).0.id < gpu.buffers@.len() by {
                            let s = self.bindings.entries@;
                            if pos < old_entries.len() && old_entries[pos].0.id == h.id {
                                if k != pos {
                                    assert(s[k] == old_entries[k]);
                                }
                            } else {
                                if k < pos {
                                    assert(s[k] == old_entries[k]);
                                } else if k > pos {
                                    assert(s[k] == old_entries[k - 1]);
                                }
                            }
                        }
                    }
                }
            },
        }
    }
}

/// Turn a program's resolved uniform list into the slot-value pairs a
/// draw asks for.
pub fn collect_uniform_pairs(us: &Vec<(String, UniformHandle, UniformValue)>) -> (r: Vec<
    (UniformHandle, UniformValue),
>)
    ensures
        r@ == us@.map_values(|u: (String, UniformHandle, UniformValue)| (u.1, u.2)),
{
    let n = us.len();
    let mut out: Vec<(UniformHandle, UniformValue)> = Vec::new();
    let mut i: usize = 0;
    while i < n
        invariant
            0 <= i <= n,
            n == us@.len(),
            out@.len() == i,
            forall|j: int| 0 <= j < i ==> (#[trigger] out@[j]) == (us@[j].1, us@[j].2),
        decreases n - i,
    {
        out.push((us[i].1, us[i].2));
        i = i + 1;
    }
    proof {
        assert(out@ =~= us@.map_values(|u: (String, UniformHandle, UniformValue)| (u.1, u.2)));
    }
    out
}

/// Something that can draw itself through a renderer.
pub trait Drawable {
    fn draw(&mut self, renderer: &mut Renderer) -> Result<Vec<GpuCommand>, GpuError>;
}

/// The draw-call front end: owns the engine and assembles each draw's
/// state from a program and its buffers.
#[derive(Debug)]
pub struct Renderer {
    pub gpu: ShadowGpu,
}

impl Renderer {
    /// The signature one plain draw with these parts builds.
    pub open spec fn spec_render_signature(
        gpu: ShadowGpu,
        attrs: Seq<(String, AttributeInfo)>,
        vb: Option<BufferHandle>,
    ) -> Seq<(BufferHandle, Seq<BufferBinding>)> {
        BufferBindingGroup::spec_add(Seq::empty(), gpu, attrs, vb, 0)
    }

    /// The signature one instanced draw with these parts builds: the
    /// vertex buffer at rate 0, the instance buffer at rate 1.
    pub open spec fn spec_render_signature_instanced(
        gpu: ShadowGpu,
        attrs: Seq<(String, AttributeInfo)>,
        vb: Option<BufferHandle>,
        ib: Option<BufferHandle>,
    ) -> Seq<(BufferHandle, Seq<BufferBinding>)> {
        BufferBindingGroup::spec_add(
            BufferBindingGroup::spec_add(Seq::empty(), gpu, attrs, vb, 0),
            gpu,
            attrs,
            ib,
            1,
        )
    }

    pub fn new() -> (r: Renderer)
        ensures
            r.gpu.inv(),
            r.gpu.buffers@.len() == 0,
            r.gpu.vaos@.len() == 0,
            r.gpu.programs@.len() == 0,
            r.gpu.state.program is None,
            r.gpu.state.uniforms@.len() == 0,
    {
        Renderer { gpu: ShadowGpu::new() }
    }

    /// Draw the vertex buffer's full contents with a bound program,
    /// issuing only the device calls the shadow shows to be necessary.
    pub fn render<B: BufferLike>(&mut self, program: &Program, vertex_buffer: &B) -> (cmds: Vec<
        GpuCommand,
    >)
        requires
            old(self).gpu.inv(),
            program.spec_is_bound(),
            program.wf(),
            vertex_buffer.spec_valid(old(self).gpu),
            vertex_buffer.spec_len(old(self).gpu) <= i32::MAX,
        ensures
            final(self).gpu.inv(),
            ({
                let bp = program->Bound_0;
                let sig = Self::spec_render_signature(
                    old(self).gpu,
                    bp.handle.attributes@,
                    vertex_buffer.spec_buffer(),
                );
                let us = bp.spec_uniform_pairs();
                &&& cmds@.len() >= 1
                &&& cmds@.last() == (GpuCommand::DrawArrays {
                    mode: bp.draw_mode,
                    first: 0,
                    count: vertex_buffer.spec_len(old(self).gpu) as i32,
                })
                &&& forall|i: int|
                    0 <= i < cmds@.len() - 1 ==> !((#[trigger] cmds@[i]) is DrawArrays) && !(
                    cmds@[i] is DrawArraysInstanced)
                &&& final(self).gpu.spec_is_current_parts(Some(bp.handle.id), sig, us)
                &&& (old(self).gpu.spec_is_current_parts(Some(bp.handle.id), sig, us)
                    ==> forall|i: int|
                    0 <= i < cmds@.len() - 1 ==> !(#[trigger] cmds@[i]).is_state_change())
                &&& crate::shadow_gpu::commands::count_where(
                    cmds@,
                    |c: GpuCommand| c.is_vao_creation(),
                ) == if old(self).gpu.spec_has_cached(sig) {
                    0int
                } else {
                    1int
                }
                &&& crate::shadow_gpu::commands::count_where(
                    cmds@,
                    |c: GpuCommand| c.is_buffer_allocation(),
                ) == crate::shadow_gpu::vao::spec_count_needs_alloc_view(
                    old(self).gpu.buffers@,
                    sig,
                )
                &&& crate::shadow_gpu::commands::count_where(
                    cmds@,
                    |c: GpuCommand| c.is_uniform_upload(),
                ) == crate::shadow_gpu::uniforms::spec_count_uniform_changes(
                    old(self).gpu.state.uniforms@,
                    us,
                )
                &&& crate::shadow_gpu::commands::count_where(
                    cmds@,
                    |c: GpuCommand| c is UseProgram,
                ) == if crate::shadow_gpu::state::spec_program_id(old(self).gpu.state.program)
                    == Some(bp.handle.id) {
                    0int
                } else {
                    1int
                }
                // the full command list: program, layout and uniform
                // phases, then the draw
                &&& cmds@ == crate::shadow_gpu::spec_program_cmds(
                    crate::shadow_gpu::state::spec_program_id(old(self).gpu.state.program),
                    Some(bp.handle.id),
                ) + old(self).gpu.spec_layout_phase(sig)
                    + crate::shadow_gpu::uniforms::spec_uniform_cmds(
                    old(self).gpu.state.uniforms@,
                    us,
                ) + seq![
                    GpuCommand::DrawArrays {
                        mode: bp.draw_mode,
                        first: 0,
                        count: vertex_buffer.spec_len(old(self).gpu) as i32,
                    },
                ]
                // unmentioned uniform slots keep their recorded values
                &&& forall|g: crate::shadow_gpu::uniforms::UniformHandle|
                    (forall|k: int| 0 <= k < us.len() ==> (#[trigger] us[k]).0 != g)
                        ==> crate::shadow_gpu::uniforms::spec_uniform_lookup(
                        final(self).gpu.state.uniforms@,
                        g,
                    ) == crate::shadow_gpu::uniforms::spec_uniform_lookup(
                        old(self).gpu.state.uniforms@,
                        g,
                    )
                // the signature's buffers come out synced: untouched
                // allocations survive, reallocated ones take exactly
                // the payload size
                &&& forall|k: int|
                    0 <= k < sig.len() ==> {
                        let id = (#[trigger] sig[k]).0.id as int;
                        let rec = final(self).gpu.buffers@[id];
                        let orec = old(self).gpu.buffers@[id];
                        &&& !rec.dirty
                        &&& rec.alloc is Some
                        &&& rec.alloc.unwrap().capacity >= rec.data@.len()
                        &&& (!orec.spec_needs_alloc() ==> rec.alloc == orec.alloc)
                        &&& (orec.spec_needs_alloc() ==> rec.alloc.unwrap().capacity
                            == orec.data@.len())
                    }
                // a current layout costs no attribute-pointer work
                &&& (old(self).gpu.spec_has_current_layout(sig) ==> forall|i: int|
                    0 <= i < cmds@.len() ==> !((#[trigger] cmds@[i]) is VertexAttribPointer)
                        && !(cmds@[i] is VertexAttribIPointer) && !(cmds@[i]
                        is VertexAttribDivisor) && !(cmds@[i] is EnableVertexAttribArray))
            }),
            final(self).gpu.buffers@.len() == old(self).gpu.buffers@.len(),
            // cache persistence: one layout object per distinct
            // signature, ever
            final(self).gpu.vaos@.len() == old(self).gpu.vaos@.len() + (
            if old(self).gpu.spec_has_cached(
                Self::spec_render_signature(
                    old(self).gpu,
                    (program->Bound_0).handle.attributes@,
                    vertex_buffer.spec_buffer(),
                ),
            ) {
                0int
            } else {
                1int
            }),
            forall|i: int|
                0 <= i < old(self).gpu.vaos@.len() ==> (#[trigger] final(self).gpu.vaos@[i]).buffers == old(self).gpu.vaos@[i].buffers,
            forall|i: int|
                0 <= i < old(self).gpu.buffers@.len() ==> {
                    let rec = #[trigger] final(self).gpu.buffers@[i];
                    let orec = old(self).gpu.buffers@[i];
                    &&& rec.data == orec.data
                    &&& rec.element_count == orec.element_count
                    &&& rec.descriptors == orec.descriptors
                    &&& rec.usage == orec.usage
                },
    {
        let bp = program.bound();
        let mut bg = BufferBindingGroup::new();
        proof {
            assert(bg.bindings.view_entries() =~= Seq::<(BufferHandle, Seq<BufferBinding>)>::empty());
        }
        let vb = vertex_buffer.get_buffer();
        proof {
            vertex_buffer.valid_implies_buffer(self.gpu);
        }
        bg.add_buffer(&self.gpu, bp.attributes(), vb, 0);
        let count = vertex_buffer.len(&self.gpu);
        let uniforms = collect_uniform_pairs(&bp.uniforms);
        proof {
            lemma_pairs_distinct(bp.uniforms@);
        }
        let st = GpuState {
            program: Some(ProgramHandle { id: bp.handle.id, attributes: Vec::new() }),
            buffers: bg.bindings,
            uniforms,
            globals: bp.state,
        };
        proof {
            assert(st.buffers.view_entries() == Self::spec_render_signature(
                self.gpu,
                bp.handle.attributes@,
                vertex_buffer.spec_buffer(),
            ));
            assert(st.uniforms@ =~= bp.spec_uniform_pairs());
            lemma_alloc_count_via_view(self.gpu.buffers@, st.buffers);
        }
        let cmds = self.gpu.draw_arrays(&st, bp.draw_mode, 0, count as i32);
        proof {
            let sig = Self::spec_render_signature(
                old(self).gpu,
                bp.handle.attributes@,
                vertex_buffer.spec_buffer(),
            );
            assert forall|k: int| 0 <= k < sig.len() implies (#[trigger] sig[k]).0
                == st.buffers.entries@[k].0 by {
                assert(st.buffers.view_entries()[k] == (
                    st.buffers.entries@[k].0,
                    st.buffers.entries@[k].1@,
                ));
            }
        }
        cmds
    }

    /// Draw the vertex buffer once per instance-buffer record, the
    /// vertex attributes advancing per vertex and the instance
    /// attributes per instance.
    pub fn render_instanced<B: BufferLike, I: BufferLike>(
        &mut self,
        program: &Program,
        vertex_buffer: &B,
        instance_buffer: &I,
    ) -> (cmds: Vec<GpuCommand>)
        requires
            old(self).gpu.inv(),
            program.spec_is_bound(),
            program.wf(),
            vertex_buffer.spec_valid(old(self).gpu),
            vertex_buffer.spec_len(old(self).gpu) <= i32::MAX,
            instance_buffer.spec_valid(old(self).gpu),
            instance_buffer.spec_len(old(self).gpu) <= i32::MAX,
        ensures
            final(self).gpu.inv(),
            ({
                let bp = program->Bound_0;
                let sig = Self::spec_render_signature_instanced(
                    old(self).gpu,
                    bp.handle.attributes@,
                    vertex_buffer.spec_buffer(),
                    instance_buffer.spec_buffer(),
                );
                let us = bp.spec_uniform_pairs();
                &&& cmds@.len() >= 1
                &&& cmds@.last() == (GpuCommand::DrawArraysInstanced {
                    mode: bp.draw_mode,
                    first: 0,
                    count: vertex_buffer.spec_len(old(self).gpu) as i32,
                    instance_count: instance_buffer.spec_len(old(self).gpu) as i32,
                })
                &&& final(self).gpu.spec_is_current_parts(Some(bp.handle.id), sig, us)
                &&& (old(self).gpu.spec_is_current_parts(Some(bp.handle.id), sig, us)
                    ==> forall|i: int|
                    0 <= i < cmds@.len() - 1 ==> !(#[trigger] cmds@[i]).is_state_change())
                &&& crate::shadow_gpu::commands::count_where(
                    cmds@,
                    |c: GpuCommand| c.is_vao_creation(),
                ) == if old(self).gpu.spec_has_cached(sig) {
                    0int
                } else {
                    1int
                }
                &&& crate::shadow_gpu::commands::count_where(
                    cmds@,
                    |c: GpuCommand| c.is_buffer_allocation(),
                ) == crate::shadow_gpu::vao::spec_count_needs_alloc_view(
                    old(self).gpu.buffers@,
                    sig,
                )
                &&& crate::shadow_gpu::commands::count_where(
                    cmds@,
                    |c: GpuCommand| c.is_uniform_upload(),
                ) == crate::shadow_gpu::uniforms::spec_count_uniform_changes(
                    old(self).gpu.state.uniforms@,
                    us,
                )
                &&& crate::shadow_gpu::commands::count_where(
                    cmds@,
                    |c: GpuCommand| c is UseProgram,
                ) == if crate::shadow_gpu::state::spec_program_id(old(self).gpu.state.program)
                    == Some(bp.handle.id) {
                    0int
                } else {
                    1int
                }
                // the full command list: program, layout and uniform
                // phases, then the draw
                &&& cmds@ == crate::shadow_gpu::spec_program_cmds(
                    crate::shadow_gpu::state::spec_program_id(old(self).gpu.state.program),
                    Some(bp.handle.id),
                ) + old(self).gpu.spec_layout_phase(sig)
                    + crate::shadow_gpu::uniforms::spec_uniform_cmds(
                    old(self).gpu.state.uniforms@,
                    us,
                ) + seq![
                    GpuCommand::DrawArraysInstanced {
                        mode: bp.draw_mode,
                        first: 0,
                        count: vertex_buffer.spec_len(old(self).gpu) as i32,
                        instance_count: instance_buffer.spec_len(old(self).gpu) as i32,
                    },
                ]
                // unmentioned uniform slots keep their recorded values
                &&& forall|g: crate::shadow_gpu::uniforms::UniformHandle|
                    (forall|k: int| 0 <= k < us.len() ==> (#[trigger] us[k]).0 != g)
                        ==> crate::shadow_gpu::uniforms::spec_uniform_lookup(
                        final(self).gpu.state.uniforms@,
                        g,
                    ) == crate::shadow_gpu::uniforms::spec_uniform_lookup(
                        old(self).gpu.state.uniforms@,
                        g,
                    )
                // the signature's buffers come out synced
                &&& forall|k: int|
                    0 <= k < sig.len() ==> {
                        let id = (#[trigger] sig[k]).0.id as int;
                        let rec = final(self).gpu.buffers@[id];
                        let orec = old(self).gpu.buffers@[id];
                        &&& !rec.dirty
                        &&& rec.alloc is Some
                        &&& rec.alloc.unwrap().capacity >= rec.data@.len()
                        &&& (!orec.spec_needs_alloc() ==> rec.alloc == orec.alloc)
                        &&& (orec.spec_needs_alloc() ==> rec.alloc.unwrap().capacity
                            == orec.data@.len())
                    }
                // a current layout costs no attribute-pointer work
                &&& (old(self).gpu.spec_has_current_layout(sig) ==> forall|i: int|
                    0 <= i < cmds@.len() ==> !((#[trigger] cmds@[i]) is VertexAttribPointer)
                        && !(cmds@[i] is VertexAttribIPointer) && !(cmds@[i]
                        is VertexAttribDivisor) && !(cmds@[i] is EnableVertexAttribArray))
            }),
            final(self).gpu.buffers@.len() == old(self).gpu.buffers@.len(),
            // cache persistence: one layout object per distinct
            // signature, ever
            final(self).gpu.vaos@.len() == old(self).gpu.vaos@.len() + (
            if old(self).gpu.spec_has_cached(
                Self::spec_render_signature_instanced(
                    old(self).gpu,
                    (program->Bound_0).handle.attributes@,
                    vertex_buffer.spec_buffer(),
                    instance_buffer.spec_buffer(),
                ),
            ) {
                0int
            } else {
                1int
            }),
            forall|i: int|
                0 <= i < old(self).gpu.vaos@.len() ==> (#[trigger] final(self).gpu.vaos@[i]).buffers == old(self).gpu.vaos@[i].buffers,
            forall|i: int|
                0 <= i < old(self).gpu.buffers@.len() ==> {
                    let rec = #[trigger] final(self).gpu.buffers@[i];
                    let orec = old(self).gpu.buffers@[i];
                    &&& rec.data == orec.data
                    &&& rec.element_count == orec.element_count
                    &&& rec.descriptors == orec.descriptors
                    &&& rec.usage == orec.usage
                },
    {
        let bp = program.bound();
        let mut bg = BufferBindingGroup::new();
        proof {
            assert(bg.bindings.view_entries() =~= Seq::<(BufferHandle, Seq<BufferBinding>)>::empty());
        }
        let vb = vertex_buffer.get_buffer();
        let ib = instance_buffer.get_buffer();
        proof {
            vertex_buffer.valid_implies_buffer(self.gpu);
            instance_buffer.valid_implies_buffer(self.gpu);
        }
        bg.add_buffer(&self.gpu, bp.attributes(), vb, 0);
        bg.add_buffer(&self.gpu, bp.attributes(), ib, 1);
        let count = vertex_buffer.len(&self.gpu);
        let instances = instance_buffer.len(&self.gpu);
        let uniforms = collect_uniform_pairs(&bp.uniforms);
        proof {
            lemma_pairs_distinct(bp.uniforms@);
        }
        let st = GpuState {
            program: Some(ProgramHandle { id: bp.handle.id, attributes: Vec::new() }),
            buffers: bg.bindings,
            uniforms,
            globals: bp.state,
        };
        proof {
            assert(st.buffers.view_entries() == Self::spec_render_signature_instanced(
                self.gpu,
                bp.handle.attributes@,
                vertex_buffer.spec_buffer(),
                instance_buffer.spec_buffer(),
            ));
            assert(st.uniforms@ =~= bp.spec_uniform_pairs());
            lemma_alloc_count_via_view(self.gpu.buffers@, st.buffers);
        }
        let cmds = self.gpu.draw_arrays_instanced(
            &st,
            bp.draw_mode,
            0,
            count as i32,
            instances as i32,
        );
        proof {
            let sig = Self::spec_render_signature_instanced(
                old(self).gpu,
                bp.handle.attributes@,
                vertex_buffer.spec_buffer(),
                instance_buffer.spec_buffer(),
            );
            assert forall|k: int| 0 <= k < sig.len() implies (#[trigger] sig[k]).0
                == st.buffers.entries@[k].0 by {
                assert(st.buffers.view_entries()[k] == (
                    st.buffers.entries@[k].0,
                    st.buffers.entries@[k].1@,
                ));
            }
        }
        cmds
    }
}

/// Distinct slot ids make the collected pairs a well-formed uniform
/// request.
pub proof fn lemma_pairs_distinct(us: Seq<(String, UniformHandle, UniformValue)>)
    requires
        forall|i: int, j: int|
            0 <= i < j < us.len() ==> (#[trigger] us[i]).1.id != (#[trigger] us[j]).1.id,
    ensures
        crate::shadow_gpu::uniforms::spec_uniforms_distinct(
            us.map_values(|u: (String, UniformHandle, UniformValue)| (u.1, u.2)),
        ),
{
}

/// The view-level and list-level allocation counts agree for a
/// signature.
pub proof fn lemma_alloc_count_via_view(
    records: Seq<crate::shadow_gpu::buffer::BufferRecord>,
    sig: LayoutSignature,
)
    ensures
        crate::shadow_gpu::vao::spec_count_needs_alloc_view(records, sig.view_entries())
            == crate::shadow_gpu::vao::spec_count_needs_alloc(records, sig.entries@),
{
    crate::shadow_gpu::vao::lemma_count_needs_alloc_view_agrees(records, sig.entries@);
}

} // verus!
