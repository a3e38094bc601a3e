//! The GPU state shadow: tracks what is believed bound on the device
//! and turns draw requests into the minimal command list.

use vstd::prelude::*;
use vstd::pervasive::VecAdditionalExecFns;

pub mod buffer;
pub mod commands;
pub mod program;
pub mod state;
pub mod uniforms;
pub mod vao;

use crate::attribute::AttributeBinding;
use crate::buffer::types::BufferUsageHint;
use crate::draw_modes::DrawMode;
use crate::error::GpuError;
use crate::types::{GlSizedDataType, SizedDataType};
use buffer::{spec_stride, BufferHandle, BufferRecord};
use commands::{
    count_where, lemma_count_where_concat, lemma_count_where_push, lemma_count_where_singleton,
    lemma_count_where_zero, no_state_changes, GpuCommand,
};
use program::ProgramHandle;
use state::{spec_program_id, GpuState, LayoutSignature};
use uniforms::{
    apply_uniforms, lemma_count_uniform_changes_zero, spec_count_uniform_changes,
    spec_uniform_lookup, spec_uniforms_distinct, UniformHandle, UniformValue,
};
use vao::{lemma_count_needs_alloc_same_ids, spec_count_needs_alloc, VaoHandle};

verus! {

/// One active attribute of a linked program, as reflection reports it:
/// its slot and its type.
#[derive(Clone, Copy, Debug, PartialEq, Eq, Structural)]
pub struct AttributeInfo {
    pub location: usize,
    pub kind: SizedDataType,
}

/// One active attribute as the device reports it after linking: name,
/// slot, the device's type code, and the array size (1 for a plain
/// attribute).
#[derive(Debug)]
pub struct LinkAttribute {
    pub name: String,
    pub location: usize,
    pub gl_type: u32,
    pub size: i32,
}

/// What the device answered when one shader was compiled.
#[derive(Debug)]
pub struct ShaderOutcome {
    pub compiled: bool,
    pub info_log: String,
}

/// What the device answered when a program was linked: the link status,
/// its diagnostic text, and the active-attribute reflection.
#[derive(Debug)]
pub struct LinkOutcome {
    pub linked: bool,
    pub info_log: String,
    pub attributes: Vec<LinkAttribute>,
}

impl LinkOutcome {
    /// Reflected attribute names are pairwise distinct, as the device
    /// guarantees for one linked program.
    pub open spec fn names_distinct(self) -> bool {
        forall|i: int, j: int|
            0 <= i < j < self.attributes@.len() ==> (#[trigger] self.attributes@[i]).name@ != (
            #[trigger] self.attributes@[j]).name@
    }
}

/// Whether a reflected attribute can be bound: not an array, and of a
/// type that has an attribute-pointer form.
pub open spec fn spec_link_attr_ok(a: LinkAttribute) -> bool {
    &&& a.size <= 1
    &&& match spec_gl_type_of(a.gl_type) {
        Some(t) => t.spec_supported(),
        None => false,
    }
}

/// The reflected type for a device code, if the code names one.
pub open spec fn spec_gl_type_of(code: u32) -> Option<GlSizedDataType> {
    if exists|t: GlSizedDataType| (#[trigger] t.spec_gl_code()) == code {
        Some(choose|t: GlSizedDataType| (#[trigger] t.spec_gl_code()) == code)
    } else {
        None
    }
}

/// The attribute-table entry a bindable reflected attribute gives.
pub open spec fn spec_link_attr_info(a: LinkAttribute) -> AttributeInfo {
    AttributeInfo {
        location: a.location,
        kind: spec_gl_type_of(a.gl_type).unwrap().spec_as_sized_type(),
    }
}

/// The state shadow and resource engine for one device context.
///
/// It owns the logical buffers, the table of device objects created so
/// far, the vertex-layout cache, and its belief about what is currently
/// bound; every mutating operation returns the device commands it
/// decided on, for the caller's executor to apply in order.
#[derive(Debug)]
pub struct ShadowGpu {
    /// The logical buffers, by handle id.
    pub buffers: Vec<BufferRecord>,
    /// Device buffer objects created so far: the owning logical buffer
    /// of each. An index in this table names the device object.
    pub allocated_buffers: Vec<usize>,
    /// Programs linked so far: the attribute count of each. An index in
    /// this table names the device program object.
    pub programs: Vec<usize>,
    /// Uniform slots handed out so far: the device location of each. An
    /// index in this table names the slot.
    pub uniform_locations: Vec<u32>,
    /// The vertex-layout cache, one entry per distinct signature. An
    /// index in this table names the device vertex-layout object.
    pub vaos: Vec<VaoHandle>,
    /// What is believed bound on the device. Only the program identity
    /// and the uniform values are tracked here; layouts are tracked by
    /// the cache entries themselves.
    pub state: GpuState,
}

impl ShadowGpu {
    /// The engine's invariant, preserved by every operation.
    pub open spec fn inv(self) -> bool {
        &&& forall|i: int|
            0 <= i < self.buffers@.len() ==> (#[trigger] self.buffers@[i]).wf()
                && self.buffers@[i].spec_clean_fits() && (self.buffers@[i].alloc is Some
                ==> self.buffers@[i].alloc.unwrap().id < self.allocated_buffers@.len())
        &&& forall|i: int|
            0 <= i < self.vaos@.len() ==> (#[trigger] self.vaos@[i]).wf(self.buffers@.len() as int)
                && self.vaos@[i].vao == Some(i as usize)
        &&& forall|i: int, k: int|
            0 <= i < self.vaos@.len() && 0 <= k < (#[trigger] self.vaos@[i]).bound_allocs@.len()
                ==> (#[trigger] self.vaos@[i].bound_allocs@[k]) < self.allocated_buffers@.len()
        &&& forall|i: int, j: int|
            0 <= i < j < self.vaos@.len() ==> (#[trigger] self.vaos@[i]).buffers.view_entries()
                != (#[trigger] self.vaos@[j]).buffers.view_entries()
        &&& spec_uniforms_distinct(self.state.uniforms@)
    }

    /// Whether the layout cache already holds this signature.
    pub open spec fn spec_has_cached(self, sig: Seq<(BufferHandle, Seq<state::BufferBinding>)>) -> bool {
        exists|i: int|
            0 <= i < self.vaos@.len() && (#[trigger] self.vaos@[i]).buffers.view_entries() == sig
    }

    /// Everything a draw with this state would need is already bound
    /// and up to date: same program, a cached layout whose buffers are
    /// clean and whose pointers match their live allocations, and every
    /// requested uniform value already recorded. Asking for such a state
    /// again changes no device state.
    pub open spec fn spec_is_current(self, st: GpuState) -> bool {
        self.spec_is_current_parts(
            spec_program_id(st.program),
            st.buffers.view_entries(),
            st.uniforms@,
        )
    }

    /// The same, stated over the state's parts: the program identity,
    /// the signature's view, and the requested slot-value pairs.
    pub open spec fn spec_is_current_parts(
        self,
        prog: Option<usize>,
        sig: Seq<(BufferHandle, Seq<state::BufferBinding>)>,
        us: Seq<(UniformHandle, UniformValue)>,
    ) -> bool {
        &&& spec_program_id(self.state.program) == prog
        &&& self.spec_has_current_layout(sig)
        &&& forall|k: int|
            0 <= k < us.len() ==> spec_uniform_lookup(self.state.uniforms@, (#[trigger] us[k]).0)
                == Some(us[k].1)
    }

    /// The cache holds this signature and all its buffers are clean with
    /// their pointers issued against the live allocations: binding the
    /// layout again reissues nothing.
    pub open spec fn spec_has_current_layout(
        self,
        sig: Seq<(BufferHandle, Seq<state::BufferBinding>)>,
    ) -> bool {
        exists|i: int|
            0 <= i < self.vaos@.len() && (#[trigger] self.vaos@[i]).buffers.view_entries() == sig
                && self.vaos@[i].spec_bindings_current(self.buffers@)
    }

    /// The index of the cache entry holding this signature; meaningful
    /// when the cache holds it, and unique by the cache invariant.
    pub open spec fn spec_cache_index(
        self,
        sig: Seq<(BufferHandle, Seq<state::BufferBinding>)>,
    ) -> int {
        choose|i: int|
            0 <= i < self.vaos@.len() && (#[trigger] self.vaos@[i]).buffers.view_entries() == sig
    }

    /// The exact commands the layout phase of one state transition
    /// emits: select the cached layout object, or create one at the next
    /// index, then walk the signature's buffers.
    pub open spec fn spec_layout_phase(
        self,
        sig: Seq<(BufferHandle, Seq<state::BufferBinding>)>,
    ) -> Seq<GpuCommand> {
        if self.spec_has_cached(sig) {
            let i = self.spec_cache_index(sig);
            vao::spec_vao_preamble(Some(i as usize), i as usize) + vao::spec_layout_cmds(
                self.buffers@,
                sig,
                self.vaos@[i].bound_allocs@,
                false,
                self.allocated_buffers@.len() as int,
            )
        } else {
            vao::spec_vao_preamble(None, self.vaos@.len() as usize) + vao::spec_layout_cmds(
                self.buffers@,
                sig,
                Seq::new(sig.len(), |i: int| 0usize),
                true,
                self.allocated_buffers@.len() as int,
            )
        }
    }

    /// A fresh engine for one device context: nothing allocated, nothing
    /// believed bound.
    pub fn new() -> (r: ShadowGpu)
        ensures
            r.inv(),
            r.buffers@.len() == 0,
            r.allocated_buffers@.len() == 0,
            r.programs@.len() == 0,
            r.uniform_locations@.len() == 0,
            r.vaos@.len() == 0,
            r.state.program is None,
            r.state.uniforms@.len() == 0,
    {
        ShadowGpu {
            buffers: Vec::new(),
            allocated_buffers: Vec::new(),
            programs: Vec::new(),
            uniform_locations: Vec::new(),
            vaos: Vec::new(),
            state: GpuState::new(),
        }
    }

    /// Create a logical buffer with the given usage hint and attribute
    /// layout. No device work happens until a draw references it.
    pub fn create_buffer(
        &mut self,
        usage_hint: BufferUsageHint,
        descriptors: Vec<AttributeBinding>,
    ) -> (r: BufferHandle)
        requires
            old(self).inv(),
            forall|i: int| 0 <= i < descriptors@.len() ==> (#[trigger] descriptors@[i]).wf(),
            spec_stride(descriptors@) <= i32::MAX,
        ensures
            final(self).inv(),
            r.id == old(self).buffers@.len(),
            final(self).buffers@.len() == old(self).buffers@.len() + 1,
            forall|i: int|
                0 <= i < old(self).buffers@.len() ==> final(self).buffers@[i] == old(
                    self,
                ).buffers@[i],
            final(self).buffers@.last().data@.len() == 0,
            final(self).buffers@.last().element_count == 0,
            final(self).buffers@.last().usage == usage_hint,
            final(self).buffers@.last().dirty,
            final(self).buffers@.last().descriptors == descriptors,
            final(self).buffers@.last().alloc is None,
            final(self).allocated_buffers == old(self).allocated_buffers,
            final(self).programs == old(self).programs,
            final(self).uniform_locations == old(self).uniform_locations,
            final(self).vaos == old(self).vaos,
            final(self).state == old(self).state,
    {
        let id = self.buffers.len();
        self.buffers.push(
            BufferRecord {
                data: Vec::new(),
                element_count: 0,
                usage: usage_hint,
                dirty: true,
                descriptors,
                alloc: None,
            },
        );
        BufferHandle { id }
    }

    /// Consume the device's answer to linking a program. Fails with the
    /// link diagnostic if linking failed, and with a reflection
    /// diagnostic if an active attribute is an array or of a type that
    /// cannot feed an attribute slot; otherwise the program gets a fresh
    /// identity and its attribute table.
    pub fn link_program(&mut self, outcome: &LinkOutcome) -> (r: Result<ProgramHandle, GpuError>)
        requires
            old(self).inv(),
            outcome.names_distinct(),
        ensures
            final(self).inv(),
            r is Ok <==> outcome.linked && (forall|i: int|
                0 <= i < outcome.attributes@.len() ==> spec_link_attr_ok(
                    #[trigger] outcome.attributes@[i],
                )),
            !outcome.linked ==> (r matches Err(e) && e matches GpuError::ShaderLinkError(m)
                && m@ == outcome.info_log@),
            r matches Ok(h) ==> {
                &&& h.id == old(self).programs@.len()
                &&& h.wf()
                &&& h.attributes@.len() == outcome.attributes@.len()
                &&& forall|i: int|
                    0 <= i < outcome.attributes@.len() ==> (#[trigger] h.attributes@[i]).0@
                        == outcome.attributes@[i].name@ && h.attributes@[i].1
                        == spec_link_attr_info(outcome.attributes@[i])
            },
            r is Err ==> (r matches Err(e) && e is ShaderLinkError),
            final(self).programs@.len() == old(self).programs@.len() + (
            if r is Ok {
                1int
            } else {
                0int
            }),
            final(self).buffers == old(self).buffers,
            final(self).allocated_buffers == old(self).allocated_buffers,
            final(self).uniform_locations == old(self).uniform_locations,
            final(self).vaos == old(self).vaos,
            final(self).state == old(self).state,
    {
        if !outcome.linked {
            return Err(GpuError::ShaderLinkError(outcome.info_log.clone()));
        }
        let n = outcome.attributes.len();
        let mut table: Vec<(String, AttributeInfo)> = Vec::new();
        let mut i: usize = 0;
        while i < n
            invariant
                0 <= i <= n,
                n == outcome.attributes@.len(),
                *self == *old(self),
                old(self).inv(),
                outcome.linked,
                outcome.names_distinct(),
                table@.len() == i,
                forall|j: int| 0 <= j < i ==> spec_link_attr_ok(#[trigger] outcome.attributes@[j]),
                forall|j: int|
                    0 <= j < i ==> (#[trigger] table@[j]).0@ == outcome.attributes@[j].name@
                        && table@[j].1 == spec_link_attr_info(outcome.attributes@[j]),
            decreases n - i,
        {
            let a = &outcome.attributes[i];
            if a.size > 1 {
                return Err(
                    GpuError::ShaderLinkError(
                        "attribute arrays are not supported".to_owned(),
                    ),
                );
            }
            let kind = match GlSizedDataType::from_gl_code(a.gl_type) {
                Some(t) => t,
                None => {
                    return Err(
                        GpuError::ShaderLinkError(
                            "attribute type is not recognized".to_owned(),
                        ),
                    );
                },
            };
            if !kind.supported() {
                return Err(
                    GpuError::ShaderLinkError(
                        "attribute type cannot feed an attribute slot".to_owned(),
                    ),
                );
            }
            proof {
                assert(spec_gl_type_of(a.gl_type) == Some(kind)) by {
                    assert(kind.spec_gl_code() == a.gl_type);
                    let t = choose|t: GlSizedDataType| (#[trigger] t.spec_gl_code()) == a.gl_type;
                    assert(t == kind) by {
                        lemma_gl_codes_injective(t, kind);
                    }
                }
            }
            let info = AttributeInfo { location: a.location, kind: kind.as_sized_type() };
            table.push((a.name.clone(), info));
            i = i + 1;
        }
        let id = self.programs.len();
        self.programs.push(n);
        let handle = ProgramHandle { id, attributes: table };
        proof {
            assert forall|x: int, y: int|
                0 <= x < y < handle.attributes@.len() implies (#[trigger] handle.attributes@[x]).0@
                != (#[trigger] handle.attributes@[y]).0@ by {
                assert(outcome.attributes@[x].name@ != outcome.attributes@[y].name@);
            }
        }
        Ok(handle)
    }

    /// Hand out the slot for a uniform name, given the location the
    /// device reported for it; a name the compiled program does not have
    /// (no location) fails.
    pub fn get_uniform_handle(
        &mut self,
        program: &ProgramHandle,
        name: &str,
        location: Option<u32>,
    ) -> (r: Result<UniformHandle, GpuError>)
        requires
            old(self).inv(),
        ensures
            final(self).inv(),
            r is Ok <==> location is Some,
            r matches Ok(h) ==> h.id == old(self).uniform_locations@.len() && h.location
                == location.unwrap(),
            location is None ==> (r matches Err(e) && e matches GpuError::UnknownUniformError(m)
                && m@ == name@),
            final(self).uniform_locations@.len() == old(self).uniform_locations@.len() + (
            if r is Ok {
                1int
            } else {
                0int
            }),
            final(self).buffers == old(self).buffers,
            final(self).allocated_buffers == old(self).allocated_buffers,
            final(self).programs == old(self).programs,
            final(self).vaos == old(self).vaos,
            final(self).state == old(self).state,
    {
        let _ = program;
        match location {
            Some(loc) => {
                let id = self.uniform_locations.len();
                self.uniform_locations.push(loc);
                Ok(UniformHandle { id, location: loc })
            },
            None => Err(GpuError::UnknownUniformError(name.to_owned())),
        }
    }
}


impl ShadowGpu {
    /// Make the device state match `new_state`, issuing only the calls
    /// the shadow shows to be necessary: the program is selected only if
    /// it differs, the layout object is created only for a novel
    /// signature, attribute pointers are reissued only against fresh
    /// allocations, buffers are reallocated only when outgrown, and each
    /// uniform is uploaded only if its recorded value differs.
    #[verifier::rlimit(100)]
    #[verifier::spinoff_prover]
    pub fn set_state(&mut self, new_state: &GpuState) -> (cmds: Vec<GpuCommand>)
        requires
            old(self).inv(),
            new_state.buffers.wf(),
            forall|k: int|
                0 <= k < new_state.buffers.entries@.len() ==> (#[trigger] new_state.buffers.entries@[k]).0.id < old(self).buffers@.len(),
            spec_uniforms_distinct(new_state.uniforms@),
        ensures
            final(self).inv(),
            final(self).buffers@.len() == old(self).buffers@.len(),
            final(self).programs == old(self).programs,
            final(self).uniform_locations == old(self).uniform_locations,
            // payloads and layouts are untouched; only device-side
            // bookkeeping changes
            forall|i: int|
                0 <= i < old(self).buffers@.len() ==> {
                    let rec = #[trigger] final(self).buffers@[i];
                    let orec = old(self).buffers@[i];
                    &&& rec.data == orec.data
                    &&& rec.element_count == orec.element_count
                    &&& rec.descriptors == orec.descriptors
                    &&& rec.usage == orec.usage
                },
            // the shadow now believes this exact state
            spec_program_id(final(self).state.program) == spec_program_id(new_state.program),
            final(self).spec_is_current(*new_state),
            // asking for a state that is already current changes nothing
            old(self).spec_is_current(*new_state) ==> no_state_changes(cmds@),
            // cost accounting
            count_where(cmds@, |c: GpuCommand| c is UseProgram) == if spec_program_id(
                old(self).state.program,
            ) == spec_program_id(new_state.program) {
                0int
            } else {
                1int
            },
            count_where(cmds@, |c: GpuCommand| c.is_vao_creation()) == if old(
                self,
            ).spec_has_cached(new_state.buffers.view_entries()) {
                0int
            } else {
                1int
            },
            count_where(cmds@, |c: GpuCommand| c.is_buffer_allocation())
                == spec_count_needs_alloc(old(self).buffers@, new_state.buffers.entries@),
            count_where(cmds@, |c: GpuCommand| c.is_uniform_upload())
                == spec_count_uniform_changes(old(self).state.uniforms@, new_state.uniforms@),
            // no draw is issued here
            forall|i: int|
                0 <= i < cmds@.len() ==> !((#[trigger] cmds@[i]) is DrawArrays) && !(cmds@[i]
                    is DrawArraysInstanced),
            // the full command list: the program selection if needed,
            // then the layout phase, then the uniform uploads
            cmds@ == spec_program_cmds(
                spec_program_id(old(self).state.program),
                spec_program_id(new_state.program),
            ) + old(self).spec_layout_phase(new_state.buffers.view_entries())
                + uniforms::spec_uniform_cmds(old(self).state.uniforms@, new_state.uniforms@),
            // the cache only grows, by one entry exactly for a novel
            // signature, and every entry keeps its signature: each
            // distinct signature gets at most one layout object, ever
            final(self).vaos@.len() == old(self).vaos@.len() + (
            if old(self).spec_has_cached(new_state.buffers.view_entries()) {
                0int
            } else {
                1int
            }),
            forall|i: int|
                0 <= i < old(self).vaos@.len() ==> (#[trigger] final(self).vaos@[i]).buffers
                    == old(self).vaos@[i].buffers,
            !old(self).spec_has_cached(new_state.buffers.view_entries()) ==> final(self).vaos@.last().buffers.view_entries() == new_state.buffers.view_entries(),
            // shadow values of slots the request does not mention are
            // untouched, so no later upload is wrongly elided
            forall|g: UniformHandle|
                (forall|k: int|
                    0 <= k < new_state.uniforms@.len() ==> (#[trigger] new_state.uniforms@[k]).0
                        != g) ==> spec_uniform_lookup(final(self).state.uniforms@, g)
                    == spec_uniform_lookup(old(self).state.uniforms@, g),
            // the signature's buffers come out synced: clean, allocated
            // and fitting; untouched allocations survive, reallocated
            // ones take exactly the payload size
            forall|k: int|
                0 <= k < new_state.buffers.entries@.len() ==> {
                    let id = (#[trigger] new_state.buffers.entries@[k]).0.id as int;
                    let rec = final(self).buffers@[id];
                    let orec = old(self).buffers@[id];
                    &&& !rec.dirty
                    &&& rec.alloc is Some
                    &&& rec.alloc.unwrap().capacity >= rec.data@.len()
                    &&& (!orec.spec_needs_alloc() ==> rec.alloc == orec.alloc)
                    &&& (orec.spec_needs_alloc() ==> rec.alloc.unwrap().capacity
                        == orec.data@.len())
                },
            // a cached layout whose buffers are clean and current costs
            // no attribute-pointer work, whatever the program and
            // uniforms do
            old(self).spec_has_current_layout(new_state.buffers.view_entries()) ==> forall|i: int|
                0 <= i < cmds@.len() ==> !((#[trigger] cmds@[i]) is VertexAttribPointer) && !(
                cmds@[i] is VertexAttribIPointer) && !(cmds@[i] is VertexAttribDivisor) && !(
                cmds@[i] is EnableVertexAttribArray),
    {
        let n_buf = self.buffers.len();
        let ghost useprogp = |c: GpuCommand| c is UseProgram;
        let ghost vaop = |c: GpuCommand| c.is_vao_creation();
        let ghost allocp = |c: GpuCommand| c.is_buffer_allocation();
        let ghost unip = |c: GpuCommand| c.is_uniform_upload();
        let mut cmds: Vec<GpuCommand> = Vec::new();
        // program diff
        let same_prog: bool = match (&self.state.program, &new_state.program) {
            (Some(a), Some(b)) => a.id == b.id,
            (None, None) => true,
            _ => false,
        };
        if !same_prog {
            match &new_state.program {
                Some(b) => {
                    cmds.push(GpuCommand::UseProgram { program: Some(b.id) });
                    // the shadow keeps the identity; reflection stays
                    // with the caller's handle
                    self.state.program = Some(
                        ProgramHandle { id: b.id, attributes: Vec::new() },
                    );
                },
                None => {
                    cmds.push(GpuCommand::UseProgram { program: None });
                    self.state.program = None;
                },
            }
        }
        let ghost p1 = cmds@;
        proof {
            if same_prog {
                assert(p1 =~= Seq::<GpuCommand>::empty());
                assert(count_where(p1, useprogp) == 0);
                assert(count_where(p1, vaop) == 0);
                assert(count_where(p1, allocp) == 0);
                assert(count_where(p1, unip) == 0);
            } else {
                assert(p1 =~= seq![p1[0]]);
                lemma_count_where_singleton(p1[0], useprogp);
                lemma_count_where_singleton(p1[0], vaop);
                lemma_count_where_singleton(p1[0], allocp);
                lemma_count_where_singleton(p1[0], unip);
            }
        }
        // layout cache lookup
        let n_v = self.vaos.len();
        let mut idx_found: usize = n_v;
        let mut i: usize = 0;
        while i < n_v && idx_found == n_v
            invariant
                0 <= i <= n_v,
                n_v == self.vaos@.len(),
                idx_found == n_v || (0 <= idx_found < n_v
                    && self.vaos@[idx_found as int].buffers.view_entries()
                    == new_state.buffers.view_entries()),
                idx_found == n_v ==> forall|j: int|
                    0 <= j < i ==> (#[trigger] self.vaos@[j]).buffers.view_entries()
                        != new_state.buffers.view_entries(),
                self.vaos == old(self).vaos,
                self.buffers == old(self).buffers,
                self.allocated_buffers == old(self).allocated_buffers,
                old(self).inv(),
            decreases n_v - i + (if idx_found == n_v { 1int } else { 0int }),
        {
            if self.vaos[i].buffers.matches(&new_state.buffers) {
                idx_found = i;
            } else {
                i = i + 1;
            }
        }
        let ghost was_cached = idx_found < n_v;
        proof {
            if idx_found == n_v {
                assert(!old(self).spec_has_cached(new_state.buffers.view_entries()));
            } else {
                assert(old(self).spec_has_cached(new_state.buffers.view_entries()));
            }
        }
        let idx: usize;
        if idx_found < n_v {
            idx = idx_found;
        } else {
            let cloned = state::clone_sig(&new_state.buffers);
            let m = cloned.entries.len();
            let zeros: Vec<usize> = vec![0; m];
            self.vaos.push(VaoHandle { vao: None, buffers: cloned, bound_allocs: zeros });
            idx = n_v;
        }
        let ghost vaos_before = self.vaos@;
        let ghost entry_before = self.vaos@[idx as int];
        proof {
            // the chosen entry's signature names the same buffers as the
            // requested one
            assert(entry_before.buffers.view_entries() == new_state.buffers.view_entries());
            assert forall|k: int|
                0 <= k < entry_before.buffers.entries@.len() implies (
            #[trigger] entry_before.buffers.entries@[k]).0
                == new_state.buffers.entries@[k].0 by {
                assert(entry_before.buffers.view_entries()[k]
                    == new_state.buffers.view_entries()[k]);
            }
            assert(entry_before.wf(self.buffers@.len() as int));
            if idx_found < n_v {
                assert(entry_before.vao == Some(idx));
            } else {
                assert(entry_before.vao is None);
            }
        }
        let mut tmpv = VaoHandle {
            vao: None,
            buffers: LayoutSignature::new(),
            bound_allocs: Vec::new(),
        };
        self.vaos.set_and_swap(idx, &mut tmpv);
        proof {
            assert(tmpv == entry_before);
            assert(self.buffers == old(self).buffers);
            assert(self.allocated_buffers == old(self).allocated_buffers);
        }
        let mut vcmds = tmpv.gpu_bind(idx, &mut self.buffers, &mut self.allocated_buffers);
        self.vaos.set_and_swap(idx, &mut tmpv);
        let ghost entry_after = self.vaos@[idx as int];
        let ghost p2 = vcmds@;
        proof {
            assert(p2 == vao::spec_vao_preamble(entry_before.vao, idx) + vao::spec_layout_cmds(
                old(self).buffers@,
                entry_before.buffers.view_entries(),
                entry_before.bound_allocs@,
                entry_before.vao is None,
                old(self).allocated_buffers@.len() as int,
            ));
            assert(self.vaos@ =~= vaos_before.update(idx as int, entry_after));
            lemma_count_needs_alloc_same_ids(
                old(self).buffers@,
                entry_before.buffers.entries@,
                new_state.buffers.entries@,
            );
            lemma_count_where_zero(p2, useprogp);
            lemma_count_where_zero(p2, unip);
        }
        cmds.append(&mut vcmds);
        proof {
            assert(cmds@ == p1 + p2);
        }
        // uniform diff
        let mut ucmds = apply_uniforms(&mut self.state.uniforms, &new_state.uniforms);
        let ghost p3 = ucmds@;
        proof {
            lemma_count_where_zero(p3, useprogp);
            lemma_count_where_zero(p3, vaop);
            lemma_count_where_zero(p3, allocp);
        }
        cmds.append(&mut ucmds);
        proof {
            assert(cmds@ == (p1 + p2) + p3);
            lemma_count_where_concat(p1, p2, useprogp);
            lemma_count_where_concat(p1 + p2, p3, useprogp);
            lemma_count_where_concat(p1, p2, vaop);
            lemma_count_where_concat(p1 + p2, p3, vaop);
            lemma_count_where_concat(p1, p2, allocp);
            lemma_count_where_concat(p1 + p2, p3, allocp);
            lemma_count_where_concat(p1, p2, unip);
            lemma_count_where_concat(p1 + p2, p3, unip);
            // each buffer keeps its payload and layout: synced ones by
            // the sync contract, the rest untouched
            assert forall|i: int| 0 <= i < old(self).buffers@.len() implies {
                let rec = #[trigger] self.buffers@[i];
                let orec = old(self).buffers@[i];
                &&& rec.data == orec.data
                &&& rec.element_count == orec.element_count
                &&& rec.descriptors == orec.descriptors
                &&& rec.usage == orec.usage
                &&& rec.wf()
            } by {
                if entry_before.buffers.spec_contains_buffer(i as usize) {
                    let k = choose|k: int|
                        0 <= k < entry_before.buffers.entries@.len() && (#[trigger] entry_before.buffers.entries@[k]).0.id == i as usize;
                    assert(entry_before.buffers.entries@[k].0.id == i as usize);
                } else {
                }
                assert(old(self).buffers@[i].wf());
            }
            // the cache keeps one entry per signature, and every entry
            // keeps its invariant
            assert(entry_after.buffers == entry_before.buffers);
            assert(self.vaos@[idx as int] == entry_after);
            assert forall|x: int|
                0 <= x < self.vaos@.len() && x != idx implies self.vaos@[x] == old(
                self,
            ).vaos@[x] by {
                assert(self.vaos@[x] == vaos_before[x]);
            }
            assert forall|x: int, y: int|
                0 <= x < y < self.vaos@.len() implies (#[trigger] self.vaos@[x]).buffers.view_entries() != (#[trigger] self.vaos@[y]).buffers.view_entries() by {
                let sx = self.vaos@[x].buffers.view_entries();
                let sy = self.vaos@[y].buffers.view_entries();
                if x == idx {
                    assert(sx == new_state.buffers.view_entries());
                    assert(self.vaos@[y] == old(self).vaos@[y]);
                    if was_cached {
                        assert(old(self).vaos@[x].buffers.view_entries() != old(
                            self,
                        ).vaos@[y].buffers.view_entries());
                        assert(old(self).vaos@[x] == vaos_before[x]);
                        assert(sx == entry_before.buffers.view_entries());
                    } else {
                        assert(sy != new_state.buffers.view_entries());
                    }
                } else if y == idx {
                    assert(sy == new_state.buffers.view_entries());
                    assert(self.vaos@[x] == old(self).vaos@[x]);
                    if was_cached {
                        assert(old(self).vaos@[y] == vaos_before[y]);
                        assert(sy == entry_before.buffers.view_entries());
                        assert(old(self).vaos@[x].buffers.view_entries() != old(
                            self,
                        ).vaos@[y].buffers.view_entries());
                    } else {
                        assert(sx != new_state.buffers.view_entries());
                    }
                } else {
                    assert(self.vaos@[x] == old(self).vaos@[x]);
                    assert(self.vaos@[y] == old(self).vaos@[y]);
                }
            }
            // a current state stays current and costs nothing
            if old(self).spec_is_current(*new_state) {
                assert(same_prog);
                let i0 = choose|i0: int|
                    0 <= i0 < old(self).vaos@.len() && (#[trigger] old(
                        self,
                    ).vaos@[i0]).buffers.view_entries() == new_state.buffers.view_entries()
                        && old(self).vaos@[i0].spec_bindings_current(old(self).buffers@);
                assert(was_cached) by {
                    assert(old(self).spec_has_cached(new_state.buffers.view_entries()));
                }
                assert(idx == i0) by {
                    if idx != i0 {
                        assert(old(self).vaos@[idx as int].buffers.view_entries() != old(
                            self,
                        ).vaos@[i0].buffers.view_entries());
                    }
                }
                assert(entry_before.spec_bindings_current(old(self).buffers@));
                lemma_count_uniform_changes_zero(
                    old(self).state.uniforms@,
                    new_state.uniforms@,
                );
                assert(p3.len() == 0);
                assert forall|j: int| 0 <= j < cmds@.len() implies !(#[trigger] cmds@[j]).is_state_change() by {
                    if j < p1.len() {
                    } else if j < p1.len() + p2.len() {
                        assert(cmds@[j] == p2[j - p1.len()]);
                    } else {
                        assert(cmds@[j] == p3[j - p1.len() - p2.len()]);
                    }
                }
            }
            // the new state is current now
            assert(self.spec_is_current(*new_state)) by {
                assert(self.vaos@[idx as int].buffers.view_entries()
                    == new_state.buffers.view_entries());
                assert(self.vaos@[idx as int].spec_bindings_current(self.buffers@));
            }
            // no draws anywhere
            assert forall|j: int| 0 <= j < cmds@.len() implies !((#[trigger] cmds@[j])
                is DrawArrays) && !(cmds@[j] is DrawArraysInstanced) by {
                if j < p1.len() {
                } else if j < p1.len() + p2.len() {
                    assert(cmds@[j] == p2[j - p1.len()]);
                } else {
                    assert(cmds@[j] == p3[j - p1.len() - p2.len()]);
                }
            }
            // the three phases are exactly their specs
            let sig = new_state.buffers.view_entries();
            assert(p1 =~= spec_program_cmds(
                spec_program_id(old(self).state.program),
                spec_program_id(new_state.program),
            ));
            assert(entry_before.buffers.view_entries() == sig);
            if was_cached {
                let ci = old(self).spec_cache_index(sig);
                assert(0 <= ci < old(self).vaos@.len() && old(self).vaos@[ci].buffers.view_entries() == sig);
                assert(ci == idx) by {
                    if ci != idx {
                        assert(old(self).vaos@[idx as int].buffers.view_entries() != old(
                            self,
                        ).vaos@[ci].buffers.view_entries());
                    }
                }
                assert(entry_before == old(self).vaos@[idx as int]);
                assert(entry_before.vao == Some(idx));
                assert(vao::spec_vao_preamble(entry_before.vao, idx) =~= vao::spec_vao_preamble(
                    Some(ci as usize),
                    ci as usize,
                ));
                assert(p2 == old(self).spec_layout_phase(sig));
            } else {
                assert(entry_before.bound_allocs@ =~= Seq::new(sig.len(), |i: int| 0usize));
                assert(idx == old(self).vaos@.len());
                assert(entry_before.vao is None);
                assert(p2 == old(self).spec_layout_phase(sig));
            }
            assert(cmds@ == p1 + p2 + p3) by {
                assert(cmds@ == (p1 + p2) + p3);
            }
            // cache persistence
            assert forall|x: int| 0 <= x < old(self).vaos@.len() implies (#[trigger] self.vaos@[x]).buffers == old(self).vaos@[x].buffers by {
                if x != idx {
                    assert(self.vaos@[x] == old(self).vaos@[x]);
                }
            }
            // signature records are synced, stated over the request
            assert forall|k: int| 0 <= k < new_state.buffers.entries@.len() implies {
                let id = (#[trigger] new_state.buffers.entries@[k]).0.id as int;
                let rec = self.buffers@[id];
                let orec = old(self).buffers@[id];
                &&& !rec.dirty
                &&& rec.alloc is Some
                &&& rec.alloc.unwrap().capacity >= rec.data@.len()
                &&& (!orec.spec_needs_alloc() ==> rec.alloc == orec.alloc)
                &&& (orec.spec_needs_alloc() ==> rec.alloc.unwrap().capacity == orec.data@.len())
            } by {
                assert(entry_before.buffers.entries@[k].0 == new_state.buffers.entries@[k].0);
            }
            // a current layout costs no pointer work
            if old(self).spec_has_current_layout(sig) {
                let i0 = choose|i0: int|
                    0 <= i0 < old(self).vaos@.len() && (#[trigger] old(self).vaos@[i0]).buffers.view_entries() == sig && old(self).vaos@[i0].spec_bindings_current(old(self).buffers@);
                assert(was_cached) by {
                    assert(old(self).spec_has_cached(sig));
                }
                assert(idx == i0) by {
                    if idx != i0 {
                        assert(old(self).vaos@[idx as int].buffers.view_entries() != old(
                            self,
                        ).vaos@[i0].buffers.view_entries());
                    }
                }
                assert(entry_before.spec_bindings_current(old(self).buffers@));
                assert forall|j: int| 0 <= j < cmds@.len() implies !((#[trigger] cmds@[j])
                    is VertexAttribPointer) && !(cmds@[j] is VertexAttribIPointer) && !(cmds@[j]
                    is VertexAttribDivisor) && !(cmds@[j] is EnableVertexAttribArray) by {
                    if j < p1.len() {
                    } else if j < p1.len() + p2.len() {
                        assert(cmds@[j] == p2[j - p1.len()]);
                        assert(!p2[j - p1.len()].is_state_change());
                    } else {
                        assert(cmds@[j] == p3[j - p1.len() - p2.len()]);
                    }
                }
            }
        }
        cmds
    }
}


impl ShadowGpu {
    /// Set the state and issue a plain draw of `count` vertices starting
    /// at `first`. The draw is the last command; everything before it is
    /// the minimal state transition, and nothing at all changes device
    /// state when the state was already current.
    pub fn draw_arrays(
        &mut self,
        state: &GpuState,
        mode: DrawMode,
        first: i32,
        count: i32,
    ) -> (cmds: Vec<GpuCommand>)
        requires
            old(self).inv(),
            state.buffers.wf(),
            forall|k: int|
                0 <= k < state.buffers.entries@.len() ==> (#[trigger] state.buffers.entries@[k]).0.id < old(self).buffers@.len(),
            spec_uniforms_distinct(state.uniforms@),
        ensures
            final(self).inv(),
            final(self).buffers@.len() == old(self).buffers@.len(),
            final(self).programs == old(self).programs,
            final(self).uniform_locations == old(self).uniform_locations,
            forall|i: int|
                0 <= i < old(self).buffers@.len() ==> {
                    let rec = #[trigger] final(self).buffers@[i];
                    let orec = old(self).buffers@[i];
                    &&& rec.data == orec.data
                    &&& rec.element_count == orec.element_count
                    &&& rec.descriptors == orec.descriptors
                    &&& rec.usage == orec.usage
                },
            final(self).spec_is_current(*state),
            cmds@.len() >= 1,
            cmds@.last() == (GpuCommand::DrawArrays { mode, first, count }),
            forall|i: int|
                0 <= i < cmds@.len() - 1 ==> !((#[trigger] cmds@[i]) is DrawArrays) && !(cmds@[i]
                    is DrawArraysInstanced),
            old(self).spec_is_current(*state) ==> forall|i: int|
                0 <= i < cmds@.len() - 1 ==> !(#[trigger] cmds@[i]).is_state_change(),
            count_where(cmds@, |c: GpuCommand| c is UseProgram) == if spec_program_id(
                old(self).state.program,
            ) == spec_program_id(state.program) {
                0int
            } else {
                1int
            },
            count_where(cmds@, |c: GpuCommand| c.is_vao_creation()) == if old(
                self,
            ).spec_has_cached(state.buffers.view_entries()) {
                0int
            } else {
                1int
            },
            count_where(cmds@, |c: GpuCommand| c.is_buffer_allocation())
                == spec_count_needs_alloc(old(self).buffers@, state.buffers.entries@),
            count_where(cmds@, |c: GpuCommand| c.is_uniform_upload())
                == spec_count_uniform_changes(old(self).state.uniforms@, state.uniforms@),
            // the full command list: program phase, layout phase,
            // uniform phase, then the draw
            cmds@ == spec_program_cmds(
                spec_program_id(old(self).state.program),
                spec_program_id(state.program),
            ) + old(self).spec_layout_phase(state.buffers.view_entries())
                + uniforms::spec_uniform_cmds(old(self).state.uniforms@, state.uniforms@)
                + seq![GpuCommand::DrawArrays { mode, first, count }],
            // cache persistence: one entry per distinct signature, ever
            final(self).vaos@.len() == old(self).vaos@.len() + (
            if old(self).spec_has_cached(state.buffers.view_entries()) {
                0int
            } else {
                1int
            }),
            forall|i: int|
                0 <= i < old(self).vaos@.len() ==> (#[trigger] final(self).vaos@[i]).buffers
                    == old(self).vaos@[i].buffers,
            // unmentioned uniform slots keep their recorded values
            forall|g: UniformHandle|
                (forall|k: int|
                    0 <= k < state.uniforms@.len() ==> (#[trigger] state.uniforms@[k]).0 != g)
                    ==> spec_uniform_lookup(final(self).state.uniforms@, g)
                    == spec_uniform_lookup(old(self).state.uniforms@, g),
            // the signature's buffers come out synced
            forall|k: int|
                0 <= k < state.buffers.entries@.len() ==> {
                    let id = (#[trigger] state.buffers.entries@[k]).0.id as int;
                    let rec = final(self).buffers@[id];
                    let orec = old(self).buffers@[id];
                    &&& !rec.dirty
                    &&& rec.alloc is Some
                    &&& rec.alloc.unwrap().capacity >= rec.data@.len()
                    &&& (!orec.spec_needs_alloc() ==> rec.alloc == orec.alloc)
                    &&& (orec.spec_needs_alloc() ==> rec.alloc.unwrap().capacity
                        == orec.data@.len())
                },
            // a current layout costs no attribute-pointer work
            old(self).spec_has_current_layout(state.buffers.view_entries()) ==> forall|i: int|
                0 <= i < cmds@.len() ==> !((#[trigger] cmds@[i]) is VertexAttribPointer) && !(
                cmds@[i] is VertexAttribIPointer) && !(cmds@[i] is VertexAttribDivisor) && !(
                cmds@[i] is EnableVertexAttribArray),
    {
        let mut cmds = self.set_state(state);
        let ghost before = cmds@;
        let draw = GpuCommand::DrawArrays { mode, first, count };
        cmds.push(draw);
        proof {
            assert(cmds@ =~= before.push(draw));
            lemma_count_where_push(before, draw, |c: GpuCommand| c is UseProgram);
            lemma_count_where_push(before, draw, |c: GpuCommand| c.is_vao_creation());
            lemma_count_where_push(before, draw, |c: GpuCommand| c.is_buffer_allocation());
            lemma_count_where_push(before, draw, |c: GpuCommand| c.is_uniform_upload());
        }
        cmds
    }

    /// Set the state and issue an instanced draw: `count` vertices for
    /// each of `instance_count` instances.
    pub fn draw_arrays_instanced(
        &mut self,
        state: &GpuState,
        mode: DrawMode,
        first: i32,
        count: i32,
        instance_count: i32,
    ) -> (cmds: Vec<GpuCommand>)
        requires
            old(self).inv(),
            state.buffers.wf(),
            forall|k: int|
                0 <= k < state.buffers.entries@.len() ==> (#[trigger] state.buffers.entries@[k]).0.id < old(self).buffers@.len(),
            spec_uniforms_distinct(state.uniforms@),
        ensures
            final(self).inv(),
            final(self).buffers@.len() == old(self).buffers@.len(),
            final(self).programs == old(self).programs,
            final(self).uniform_locations == old(self).uniform_locations,
            forall|i: int|
                0 <= i < old(self).buffers@.len() ==> {
                    let rec = #[trigger] final(self).buffers@[i];
                    let orec = old(self).buffers@[i];
                    &&& rec.data == orec.data
                    &&& rec.element_count == orec.element_count
                    &&& rec.descriptors == orec.descriptors
                    &&& rec.usage == orec.usage
                },
            final(self).spec_is_current(*state),
            cmds@.len() >= 1,
            cmds@.last() == (GpuCommand::DrawArraysInstanced { mode, first, count, instance_count }),
            forall|i: int|
                0 <= i < cmds@.len() - 1 ==> !((#[trigger] cmds@[i]) is DrawArrays) && !(cmds@[i]
                    is DrawArraysInstanced),
            old(self).spec_is_current(*state) ==> forall|i: int|
                0 <= i < cmds@.len() - 1 ==> !(#[trigger] cmds@[i]).is_state_change(),
            count_where(cmds@, |c: GpuCommand| c is UseProgram) == if spec_program_id(
                old(self).state.program,
            ) == spec_program_id(state.program) {
                0int
            } else {
                1int
            },
            count_where(cmds@, |c: GpuCommand| c.is_vao_creation()) == if old(
                self,
            ).spec_has_cached(state.buffers.view_entries()) {
                0int
            } else {
                1int
            },
            count_where(cmds@, |c: GpuCommand| c.is_buffer_allocation())
                == spec_count_needs_alloc(old(self).buffers@, state.buffers.entries@),
            count_where(cmds@, |c: GpuCommand| c.is_uniform_upload())
                == spec_count_uniform_changes(old(self).state.uniforms@, state.uniforms@),
            // the full command list: program phase, layout phase,
            // uniform phase, then the draw
            cmds@ == spec_program_cmds(
                spec_program_id(old(self).state.program),
                spec_program_id(state.program),
            ) + old(self).spec_layout_phase(state.buffers.view_entries())
                + uniforms::spec_uniform_cmds(old(self).state.uniforms@, state.uniforms@)
                + seq![GpuCommand::DrawArraysInstanced { mode, first, count, instance_count }],
            // cache persistence: one entry per distinct signature, ever
            final(self).vaos@.len() == old(self).vaos@.len() + (
            if old(self).spec_has_cached(state.buffers.view_entries()) {
                0int
            } else {
                1int
            }),
            forall|i: int|
                0 <= i < old(self).vaos@.len() ==> (#[trigger] final(self).vaos@[i]).buffers
                    == old(self).vaos@[i].buffers,
            // unmentioned uniform slots keep their recorded values
            forall|g: UniformHandle|
                (forall|k: int|
                    0 <= k < state.uniforms@.len() ==> (#[trigger] state.uniforms@[k]).0 != g)
                    ==> spec_uniform_lookup(final(self).state.uniforms@, g)
                    == spec_uniform_lookup(old(self).state.uniforms@, g),
            // the signature's buffers come out synced
            forall|k: int|
                0 <= k < state.buffers.entries@.len() ==> {
                    let id = (#[trigger] state.buffers.entries@[k]).0.id as int;
                    let rec = final(self).buffers@[id];
                    let orec = old(self).buffers@[id];
                    &&& !rec.dirty
                    &&& rec.alloc is Some
                    &&& rec.alloc.unwrap().capacity >= rec.data@.len()
                    &&& (!orec.spec_needs_alloc() ==> rec.alloc == orec.alloc)
                    &&& (orec.spec_needs_alloc() ==> rec.alloc.unwrap().capacity
                        == orec.data@.len())
                },
            // a current layout costs no attribute-pointer work
            old(self).spec_has_current_layout(state.buffers.view_entries()) ==> forall|i: int|
                0 <= i < cmds@.len() ==> !((#[trigger] cmds@[i]) is VertexAttribPointer) && !(
                cmds@[i] is VertexAttribIPointer) && !(cmds@[i] is VertexAttribDivisor) && !(
                cmds@[i] is EnableVertexAttribArray),
    {
        let mut cmds = self.set_state(state);
        let ghost before = cmds@;
        let draw = GpuCommand::DrawArraysInstanced { mode, first, count, instance_count };
        cmds.push(draw);
        proof {
            assert(cmds@ =~= before.push(draw));
            lemma_count_where_push(before, draw, |c: GpuCommand| c is UseProgram);
            lemma_count_where_push(before, draw, |c: GpuCommand| c.is_vao_creation());
            lemma_count_where_push(before, draw, |c: GpuCommand| c.is_buffer_allocation());
            lemma_count_where_push(before, draw, |c: GpuCommand| c.is_uniform_upload());
        }
        cmds
    }
}

impl ShadowGpu {
    /// Judge an error code the device reported after a draw: zero is
    /// clean, anything else is a device error carrying the code. The
    /// query itself is the executor's; this is informational and stops
    /// nothing.
    pub fn get_error(&self, code: u32) -> (r: Result<(), GpuError>)
        ensures
            r is Ok <==> code == 0,
            code != 0 ==> (r matches Err(e) && e matches GpuError::DeviceError(c) && c == code),
    {
        if code != 0 {
            Err(GpuError::DeviceError(code))
        } else {
            Ok(())
        }
    }
}

/// The exact commands the program phase of one state transition emits:
/// nothing when the identity is already current, else one selection.
pub open spec fn spec_program_cmds(old_prog: Option<usize>, new_prog: Option<usize>) -> Seq<
    GpuCommand,
> {
    if old_prog == new_prog {
        Seq::empty()
    } else {
        seq![GpuCommand::UseProgram { program: new_prog }]
    }
}

/// Two reflected types with the same device code are the same type.
pub proof fn lemma_gl_codes_injective(a: GlSizedDataType, b: GlSizedDataType)
    requires
        a.spec_gl_code() == b.spec_gl_code(),
    ensures
        a == b,
{
}

} // verus!
