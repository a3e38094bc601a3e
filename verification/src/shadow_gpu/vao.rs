//! Vertex-layout objects: one device object per layout signature,
//! rebound cheaply and re-pointed only when a backing buffer was
//! reallocated.

use vstd::prelude::*;
use vstd::pervasive::VecAdditionalExecFns;

use crate::buffer::types::BufferUsageHint;
use crate::shadow_gpu::buffer::{lemma_sync_cmds_kinds, BufferHandle, BufferRecord};
use crate::shadow_gpu::commands::{
    count_where,
    lemma_count_where_concat,
    lemma_count_where_push,
    lemma_count_where_singleton,
    lemma_count_where_zero,
    GpuCommand,
};
use crate::shadow_gpu::state::{BufferBinding, LayoutSignature};

verus! {

/// The commands that point, rate and enable one attribute slot.
pub open spec fn spec_binding_cmds(b: BufferBinding) -> Seq<GpuCommand> {
    (if b.kind.data_type is Float {
        seq![GpuCommand::VertexAttribPointer { binding: b }]
    } else {
        seq![GpuCommand::VertexAttribIPointer { binding: b }]
    }) + (if b.divisor != 0 {
        seq![GpuCommand::VertexAttribDivisor { location: b.location, divisor: b.divisor }]
    } else {
        Seq::empty()
    }) + seq![GpuCommand::EnableVertexAttribArray { location: b.location }]
}

/// The commands that issue a whole binding list, in order.
pub open spec fn spec_bindings_cmds(bs: Seq<BufferBinding>) -> Seq<GpuCommand>
    decreases bs.len(),
{
    if bs.len() == 0 {
        Seq::empty()
    } else {
        spec_bindings_cmds(bs.drop_last()) + spec_binding_cmds(bs.last())
    }
}

/// Attribute-pointer commands neither allocate buffers, create layout
/// objects, upload uniforms, nor select programs.
pub proof fn lemma_bindings_cmds_kinds(bs: Seq<BufferBinding>)
    ensures
        forall|i: int|
            0 <= i < spec_bindings_cmds(bs).len() ==> {
                let c = #[trigger] spec_bindings_cmds(bs)[i];
                &&& !c.is_buffer_allocation()
                &&& !c.is_vao_creation()
                &&& !c.is_uniform_upload()
                &&& !(c is UseProgram)
                &&& !(c is DrawArrays)
                &&& !(c is DrawArraysInstanced)
            },
    decreases bs.len(),
{
    if bs.len() > 0 {
        lemma_bindings_cmds_kinds(bs.drop_last());
    }
}

/// Append the commands for one binding list.
fn emit_bindings(bindings: &Vec<BufferBinding>, cmds: &mut Vec<GpuCommand>)
    ensures
        final(cmds)@ == old(cmds)@ + spec_bindings_cmds(bindings@),
{
    let n = bindings.len();
    let mut j: usize = 0;
    while j < n
        invariant
            0 <= j <= n,
            n == bindings@.len(),
            cmds@ == old(cmds)@ + spec_bindings_cmds(bindings@.take(j as int)),
        decreases n - j,
    {
        let b = bindings[j];
        if b.kind.data_type() == crate::types::DataType::Float {
            cmds.push(GpuCommand::VertexAttribPointer { binding: b });
        } else {
            cmds.push(GpuCommand::VertexAttribIPointer { binding: b });
        }
        if b.divisor != 0 {
            cmds.push(GpuCommand::VertexAttribDivisor { location: b.location, divisor: b.divisor });
        }
        cmds.push(GpuCommand::EnableVertexAttribArray { location: b.location });
        proof {
            assert(bindings@.take(j + 1).drop_last() =~= bindings@.take(j as int));
            assert(bindings@.take(j + 1).last() == bindings@[j as int]);
            assert(cmds@ =~= old(cmds)@ + spec_bindings_cmds(bindings@.take(j + 1)));
        }
        j = j + 1;
    }
    proof {
        assert(bindings@.take(n as int) =~= bindings@);
    }
}

/// How many of the signature's buffers need a fresh allocation on their
/// next sync.
pub open spec fn spec_count_needs_alloc(
    records: Seq<BufferRecord>,
    entries: Seq<(BufferHandle, Vec<BufferBinding>)>,
) -> int
    decreases entries.len(),
{
    if entries.len() == 0 {
        0
    } else {
        spec_count_needs_alloc(records, entries.drop_last()) + if records[entries.last().0.id
            as int].spec_needs_alloc() {
            1int
        } else {
            0int
        }
    }
}

/// The allocation count depends on the buffers a signature names alone.
pub proof fn lemma_count_needs_alloc_same_ids(
    records: Seq<BufferRecord>,
    e1: Seq<(BufferHandle, Vec<BufferBinding>)>,
    e2: Seq<(BufferHandle, Vec<BufferBinding>)>,
)
    requires
        e1.len() == e2.len(),
        forall|i: int| 0 <= i < e1.len() ==> (#[trigger] e1[i]).0 == (#[trigger] e2[i]).0,
    ensures
        spec_count_needs_alloc(records, e1) == spec_count_needs_alloc(records, e2),
    decreases e1.len(),
{
    if e1.len() > 0 {
        lemma_count_needs_alloc_same_ids(records, e1.drop_last(), e2.drop_last());
        assert(e1.last() == e1[e1.len() - 1]);
        assert(e2.last() == e2[e2.len() - 1]);
    }
}

/// How many of the signature's buffers need a fresh allocation, stated
/// on the signature's view.
pub open spec fn spec_count_needs_alloc_view(
    records: Seq<BufferRecord>,
    entries: Seq<(BufferHandle, Seq<BufferBinding>)>,
) -> int
    decreases entries.len(),
{
    if entries.len() == 0 {
        0
    } else {
        spec_count_needs_alloc_view(records, entries.drop_last()) + if records[entries.last().0.id
            as int].spec_needs_alloc() {
            1int
        } else {
            0int
        }
    }
}

/// The two forms of the allocation count agree through the view.
pub proof fn lemma_count_needs_alloc_view_agrees(
    records: Seq<BufferRecord>,
    entries: Seq<(BufferHandle, Vec<BufferBinding>)>,
)
    ensures
        spec_count_needs_alloc_view(
            records,
            entries.map_values(|e: (BufferHandle, Vec<BufferBinding>)| (e.0, e.1@)),
        ) == spec_count_needs_alloc(records, entries),
    decreases entries.len(),
{
    let v = entries.map_values(|e: (BufferHandle, Vec<BufferBinding>)| (e.0, e.1@));
    if entries.len() > 0 {
        lemma_count_needs_alloc_view_agrees(records, entries.drop_last());
        assert(v.drop_last() =~= entries.drop_last().map_values(
            |e: (BufferHandle, Vec<BufferBinding>)| (e.0, e.1@),
        ));
        assert(v.last() == (entries.last().0, entries.last().1@));
    }
}

/// The exact commands one signature entry costs during a layout bind:
/// the buffer's sync commands, then — for a fresh layout object, or
/// when the pointers on record were issued against a different device
/// buffer than the one the sync leaves live — the full pointer, divisor
/// and enable sequence for its bindings.
pub open spec fn spec_entry_cmds(
    rec: BufferRecord,
    new_id: usize,
    bound: usize,
    create: bool,
    bindings: Seq<BufferBinding>,
) -> Seq<GpuCommand> {
    let synced = rec.spec_synced(new_id);
    rec.spec_sync_cmds(new_id) + (
    if create || bound != synced.alloc.unwrap().id {
        spec_bindings_cmds(bindings)
    } else {
        Seq::empty()
    })
}

/// The exact commands the per-buffer walk of one layout bind emits, in
/// signature order; `next_id` is the id the next fresh allocation takes,
/// advancing by one per buffer that needs one.
pub open spec fn spec_layout_cmds(
    records: Seq<BufferRecord>,
    entries: Seq<(BufferHandle, Seq<BufferBinding>)>,
    bounds: Seq<usize>,
    create: bool,
    next_id: int,
) -> Seq<GpuCommand>
    decreases entries.len(),
{
    if entries.len() == 0 {
        Seq::empty()
    } else {
        let rec = records[entries[0].0.id as int];
        spec_entry_cmds(rec, next_id as usize, bounds[0], create, entries[0].1)
            + spec_layout_cmds(
            records,
            entries.drop_first(),
            bounds.drop_first(),
            create,
            next_id + if rec.spec_needs_alloc() {
                1int
            } else {
                0int
            },
        )
    }
}

/// The commands that select the layout object itself: a bind for an
/// existing one, a creation and a bind for a fresh one.
pub open spec fn spec_vao_preamble(vao: Option<usize>, my_index: usize) -> Seq<GpuCommand> {
    match vao {
        Some(v) => seq![GpuCommand::BindVertexArray { vao: v }],
        None => seq![
            GpuCommand::CreateVertexArray { vao: my_index },
            GpuCommand::BindVertexArray { vao: my_index },
        ],
    }
}

/// A vertex-layout object: the signature it was built for, the device
/// object once created, and the device buffer object each entry's
/// pointers were last issued against.
#[derive(Clone, Debug)]
pub struct VaoHandle {
    pub vao: Option<usize>,
    pub buffers: LayoutSignature,
    pub bound_allocs: Vec<usize>,
}

impl VaoHandle {
    /// The signature is sorted, every buffer it names exists, and the
    /// binding record runs parallel to it.
    pub open spec fn wf(self, n_buffers: int) -> bool {
        &&& self.buffers.wf()
        &&& self.bound_allocs@.len() == self.buffers.entries@.len()
        &&& forall|k: int|
            0 <= k < self.buffers.entries@.len() ==> (#[trigger] self.buffers.entries@[k]).0.id
                < n_buffers
    }

    /// Every buffer of the signature is clean and its pointers were
    /// issued against its live allocation: binding it again changes no
    /// device state.
    pub open spec fn spec_bindings_current(self, records: Seq<BufferRecord>) -> bool {
        forall|k: int|
            0 <= k < self.buffers.entries@.len() ==> {
                let rec = records[(#[trigger] self.buffers.entries@[k]).0.id as int];
                &&& !rec.dirty
                &&& rec.alloc is Some
                &&& self.bound_allocs@[k] == rec.alloc.unwrap().id
            }
    }
    /// Bind this layout object, creating it first if it never existed,
    /// sync every buffer of the signature, and reissue the attribute
    /// pointers of exactly those entries whose backing allocation is not
    /// the one the pointers were issued against (all of them, for a
    /// fresh object). Returns the commands this took.
    #[verifier::rlimit(100)]
    #[verifier::spinoff_prover]
    pub fn gpu_bind(
        &mut self,
        my_index: usize,
        records: &mut Vec<BufferRecord>,
        allocs: &mut Vec<usize>,
    ) -> (cmds: Vec<GpuCommand>)
        requires
            old(self).wf(old(records)@.len() as int),
            old(self).vao is Some ==> old(self).vao == Some(my_index),
            old(self).vao is Some ==> forall|k: int|
                0 <= k < old(self).bound_allocs@.len() ==> (#[trigger] old(self).bound_allocs@[k])
                    < old(allocs)@.len(),
            forall|i: int|
                0 <= i < old(records)@.len() ==> ((#[trigger] old(records)@[i]).alloc is Some
                    ==> old(records)@[i].alloc.unwrap().id < old(allocs)@.len()),
            forall|i: int|
                0 <= i < old(records)@.len() ==> (#[trigger] old(records)@[i]).spec_clean_fits(),
        ensures
            final(self).wf(final(records)@.len() as int),
            final(self).vao == Some(my_index),
            final(self).buffers == old(self).buffers,
            final(records)@.len() == old(records)@.len(),
            // records outside the signature keep their value
            forall|i: int|
                0 <= i < old(records)@.len() && !old(self).buffers.spec_contains_buffer(i as usize)
                    ==> final(records)@[i] == old(records)@[i],
            // records inside it are synced: clean, allocated, fitting,
            // payload and layout untouched
            forall|k: int|
                0 <= k < old(self).buffers.entries@.len() ==> {
                    let id = (#[trigger] old(self).buffers.entries@[k]).0.id as int;
                    let rec = final(records)@[id];
                    let orec = old(records)@[id];
                    &&& !rec.dirty
                    &&& rec.alloc is Some
                    &&& rec.alloc.unwrap().capacity >= rec.data@.len()
                    &&& rec.data == orec.data
                    &&& rec.element_count == orec.element_count
                    &&& rec.descriptors == orec.descriptors
                    &&& rec.usage == orec.usage
                    &&& (!orec.spec_needs_alloc() ==> rec.alloc == orec.alloc)
                    &&& (orec.spec_needs_alloc() ==> rec.alloc.unwrap().capacity
                        == orec.data@.len())
                },
            forall|i: int|
                0 <= i < final(records)@.len() ==> (#[trigger] final(records)@[i]).spec_clean_fits(),
            // the binding record matches the live allocations
            final(self).spec_bindings_current(final(records)@),
            // device buffer objects only accumulate
            final(allocs)@.len() >= old(allocs)@.len(),
            final(allocs)@.subrange(0, old(allocs)@.len() as int) == old(allocs)@,
            forall|i: int|
                0 <= i < final(records)@.len() ==> ((#[trigger] final(records)@[i]).alloc is Some
                    ==> final(records)@[i].alloc.unwrap().id < final(allocs)@.len()),
            // the counts say what was paid: one layout creation if the
            // object is new, one storage allocation per outgrown or
            // never-allocated buffer
            count_where(cmds@, |c: GpuCommand| c.is_vao_creation()) == if old(self).vao is Some {
                0int
            } else {
                1int
            },
            count_where(cmds@, |c: GpuCommand| c.is_buffer_allocation()) == spec_count_needs_alloc(
                old(records)@,
                old(self).buffers.entries@,
            ),
            forall|k: int|
                0 <= k < final(self).bound_allocs@.len() ==> (#[trigger] final(self).bound_allocs@[k]) < final(allocs)@.len(),
            // this phase touches no program, uniform or draw state
            forall|i: int|
                0 <= i < cmds@.len() ==> !((#[trigger] cmds@[i]) is UseProgram) && !(cmds@[i]
                    is SetUniform) && !(cmds@[i] is DrawArrays) && !(cmds@[i]
                    is DrawArraysInstanced),
            // rebinding a current layout changes no device state
            (old(self).vao is Some && old(self).spec_bindings_current(old(records)@)) ==> forall|
                i: int|
                0 <= i < cmds@.len() ==> !(#[trigger] cmds@[i]).is_state_change(),
            // the full command list: select or create the layout object,
            // then per buffer its sync commands and, exactly where the
            // object is fresh or the recorded pointers are stale, the
            // reissued attribute bindings
            cmds@ == spec_vao_preamble(old(self).vao, my_index) + spec_layout_cmds(
                old(records)@,
                old(self).buffers.view_entries(),
                old(self).bound_allocs@,
                old(self).vao is None,
                old(allocs)@.len() as int,
            ),
    {
        let ghost idempotent = old(self).vao is Some && old(self).spec_bindings_current(
            old(records)@,
        );
        let mut cmds: Vec<GpuCommand> = Vec::new();
        let create: bool;
        match self.vao {
            Some(v) => {
                cmds.push(GpuCommand::BindVertexArray { vao: v });
                create = false;
            },
            None => {
                cmds.push(GpuCommand::CreateVertexArray { vao: my_index });
                cmds.push(GpuCommand::BindVertexArray { vao: my_index });
                self.vao = Some(my_index);
                create = true;
            },
        }
        proof {
            let vaop = |c: GpuCommand| c.is_vao_creation();
            let allocp = |c: GpuCommand| c.is_buffer_allocation();
            if create {
                assert(cmds@ =~= seq![
                    GpuCommand::CreateVertexArray { vao: my_index },
                ].push(GpuCommand::BindVertexArray { vao: my_index }));
                lemma_count_where_singleton(GpuCommand::CreateVertexArray { vao: my_index }, vaop);
                lemma_count_where_push(
                    seq![GpuCommand::CreateVertexArray { vao: my_index }],
                    GpuCommand::BindVertexArray { vao: my_index },
                    vaop,
                );
                lemma_count_where_singleton(GpuCommand::CreateVertexArray { vao: my_index }, allocp);
                lemma_count_where_push(
                    seq![GpuCommand::CreateVertexArray { vao: my_index }],
                    GpuCommand::BindVertexArray { vao: my_index },
                    allocp,
                );
            } else {
                lemma_count_where_singleton(cmds@[0], vaop);
                lemma_count_where_singleton(cmds@[0], allocp);
                assert(cmds@ =~= seq![cmds@[0]]);
            }
            assert(spec_count_needs_alloc(old(records)@, old(self).buffers.entries@.take(0))
                == 0);
            assert(cmds@ =~= spec_vao_preamble(old(self).vao, my_index));
            assert(old(self).buffers.view_entries().skip(0) =~= old(self).buffers.view_entries());
            assert(old(self).bound_allocs@.skip(0) =~= old(self).bound_allocs@);
        }
        let n = self.buffers.entries.len();
        let mut k: usize = 0;
        while k < n
            invariant
                0 <= k <= n,
                n == self.buffers.entries@.len(),
                self.buffers == old(self).buffers,
                self.vao == Some(my_index),
                self.bound_allocs@.len() == n,
                old(self).bound_allocs@.len() == n,
                records@.len() == old(records)@.len(),
                self.wf(records@.len() as int),
                create == (old(self).vao is None),
                idempotent == (old(self).vao is Some && old(self).spec_bindings_current(
                    old(records)@,
                )),
                forall|i: int|
                    0 <= i < old(records)@.len() && !old(self).buffers.spec_contains_buffer(
                        i as usize,
                    ) ==> records@[i] == old(records)@[i],
                forall|j: int|
                    k <= j < n ==> records@[(#[trigger] old(self).buffers.entries@[j]).0.id
                        as int] == old(records)@[old(self).buffers.entries@[j].0.id as int],
                forall|j: int|
                    0 <= j < k ==> {
                        let id = (#[trigger] old(self).buffers.entries@[j]).0.id as int;
                        let rec = records@[id];
                        let orec = old(records)@[id];
                        &&& !rec.dirty
                        &&& rec.alloc is Some
                        &&& rec.alloc.unwrap().capacity >= rec.data@.len()
                        &&& rec.data == orec.data
                        &&& rec.element_count == orec.element_count
                        &&& rec.descriptors == orec.descriptors
                        &&& rec.usage == orec.usage
                        &&& (!orec.spec_needs_alloc() ==> rec.alloc == orec.alloc)
                        &&& (orec.spec_needs_alloc() ==> rec.alloc.unwrap().capacity
                            == orec.data@.len())
                        &&& self.bound_allocs@[j] == rec.alloc.unwrap().id
                    },
                forall|i: int|
                    0 <= i < records@.len() ==> (#[trigger] records@[i]).spec_clean_fits(),
                forall|j: int| k <= j < n ==> self.bound_allocs@[j] == old(self).bound_allocs@[j],
                allocs@.len() >= old(allocs)@.len(),
                allocs@.subrange(0, old(allocs)@.len() as int) == old(allocs)@,
                forall|j: int|
                    0 <= j < k ==> (#[trigger] self.bound_allocs@[j]) < allocs@.len(),
                !create ==> forall|j: int|
                    k <= j < n ==> (#[trigger] self.bound_allocs@[j]) < allocs@.len(),
                forall|i: int|
                    0 <= i < records@.len() ==> ((#[trigger] records@[i]).alloc is Some
                        ==> records@[i].alloc.unwrap().id < allocs@.len()),
                count_where(cmds@, |c: GpuCommand| c.is_vao_creation()) == if old(self).vao
                    is Some {
                    0int
                } else {
                    1int
                },
                count_where(cmds@, |c: GpuCommand| c.is_buffer_allocation())
                    == spec_count_needs_alloc(
                    old(records)@,
                    old(self).buffers.entries@.take(k as int),
                ),
                forall|i: int|
                    0 <= i < cmds@.len() ==> !((#[trigger] cmds@[i]) is UseProgram) && !(cmds@[i]
                        is SetUniform) && !(cmds@[i] is DrawArrays) && !(cmds@[i]
                        is DrawArraysInstanced),
                idempotent ==> forall|i: int|
                    0 <= i < cmds@.len() ==> !(#[trigger] cmds@[i]).is_state_change(),
                cmds@ + spec_layout_cmds(
                    old(records)@,
                    old(self).buffers.view_entries().skip(k as int),
                    old(self).bound_allocs@.skip(k as int),
                    create,
                    allocs@.len() as int,
                ) == spec_vao_preamble(old(self).vao, my_index) + spec_layout_cmds(
                    old(records)@,
                    old(self).buffers.view_entries(),
                    old(self).bound_allocs@,
                    create,
                    old(allocs)@.len() as int,
                ),
            decreases n - k,
        {
            let ghost cmds_at_start = cmds@;
            let ghost allocs_at_start = allocs@;
            let ghost records_at_start = records@;
            let handle = self.buffers.entries[k].0;
            let ghost orec = old(records)@[handle.id as int];
            proof {
                assert(records@[handle.id as int] == orec);
            }
            let mut tmp = BufferRecord {
                data: Vec::new(),
                element_count: 0,
                usage: BufferUsageHint::StreamDraw,
                dirty: false,
                descriptors: Vec::new(),
                alloc: None,
            };
            records.set_and_swap(handle.id, &mut tmp);
            let payload_len = tmp.data.len();
            proof {
                assert(orec.data@.len() == payload_len as nat);
            }
            let _res = tmp.sync(allocs, handle.id, &mut cmds);
            let ghost chunk1 = orec.spec_sync_cmds(allocs_at_start.len() as usize);
            let current_alloc_id = match tmp.alloc {
                Some(a) => a.id,
                None => 0,
            };
            records.set_and_swap(handle.id, &mut tmp);
            proof {
                assert(records@ =~= records_at_start.update(
                    handle.id as int,
                    orec.spec_synced(allocs_at_start.len() as usize),
                ));
                lemma_sync_cmds_kinds(orec, allocs_at_start.len() as usize);
                assert(cmds@ == cmds_at_start + chunk1);
                let synced = orec.spec_synced(allocs_at_start.len() as usize);
                assert(synced.alloc is Some) by {
                    if !orec.spec_needs_alloc() {
                        assert(orec.alloc is Some);
                    }
                }
                assert(synced.spec_clean_fits() && synced.alloc.unwrap().capacity
                    >= synced.data@.len()) by {
                    if !orec.spec_needs_alloc() {
                        if orec.dirty {
                            assert(orec.data@.len() <= orec.alloc.unwrap().capacity);
                        } else {
                            assert(orec.spec_clean_fits());
                        }
                    }
                }
                assert(current_alloc_id == synced.alloc.unwrap().id);
                // entries after this one name other buffers
                assert forall|j: int| k < j < n implies (#[trigger] old(
                    self,
                ).buffers.entries@[j]).0.id != handle.id by {
                    assert(old(self).buffers.entries@[k as int].0.id < old(
                        self,
                    ).buffers.entries@[j].0.id);
                }
                if idempotent {
                    assert(!orec.dirty && orec.alloc is Some);
                    assert(!orec.spec_needs_alloc());
                }
            }
            let rebind = create || self.bound_allocs[k] != current_alloc_id;
            let ghost cmds_mid = cmds@;
            if rebind {
                emit_bindings(&self.buffers.entries[k].1, &mut cmds);
                proof {
                    lemma_bindings_cmds_kinds(self.buffers.entries@[k as int].1@);
                }
            }
            self.bound_allocs.set(k, current_alloc_id);
            proof {
                let vaop = |c: GpuCommand| c.is_vao_creation();
                let allocp = |c: GpuCommand| c.is_buffer_allocation();
                let chunk2 = spec_bindings_cmds(self.buffers.entries@[k as int].1@);
                lemma_count_where_concat(cmds_at_start, chunk1, vaop);
                lemma_count_where_concat(cmds_at_start, chunk1, allocp);
                lemma_count_where_zero(chunk1, vaop);
                if rebind {
                    assert(cmds@ == cmds_mid + chunk2);
                    lemma_count_where_concat(cmds_mid, chunk2, vaop);
                    lemma_count_where_concat(cmds_mid, chunk2, allocp);
                    lemma_count_where_zero(chunk2, vaop);
                    lemma_count_where_zero(chunk2, allocp);
                }
                assert(old(self).buffers.entries@.take(k + 1).drop_last() =~= old(
                    self,
                ).buffers.entries@.take(k as int));
                assert(old(self).buffers.entries@.take(k + 1).last() == old(
                    self,
                ).buffers.entries@[k as int]);
                assert(count_where(cmds@, allocp) == spec_count_needs_alloc(
                    old(records)@,
                    old(self).buffers.entries@.take(k + 1),
                ));
                // the buffer this entry names now carries its live
                // allocation in the binding record
                assert(records@[handle.id as int] == orec.spec_synced(
                    allocs_at_start.len() as usize,
                ));
                if idempotent {
                    assert(!rebind);
                    assert forall|i: int| 0 <= i < cmds@.len() implies !(#[trigger] cmds@[i]).is_state_change() by {
                        if i >= cmds_at_start.len() {
                            assert(cmds@[i] == chunk1[i - cmds_at_start.len()]);
                        }
                    }
                }
                assert forall|i: int| 0 <= i < cmds@.len() implies !((#[trigger] cmds@[i])
                    is UseProgram) && !(cmds@[i] is SetUniform) && !(cmds@[i] is DrawArrays) && !(
                cmds@[i] is DrawArraysInstanced) by {
                    if i < cmds_at_start.len() {
                    } else if i < cmds_at_start.len() + chunk1.len() {
                        assert(cmds@[i] == chunk1[i - cmds_at_start.len()]);
                    } else {
                        assert(cmds@[i] == chunk2[i - cmds_at_start.len() - chunk1.len()]);
                    }
                }
                assert(allocs@.subrange(0, old(allocs)@.len() as int) =~= old(allocs)@);
                // the appended chunk is exactly this entry's spec chunk
                let ve = old(self).buffers.view_entries();
                let bs = old(self).bound_allocs@;
                assert(ve[k as int] == (
                    old(self).buffers.entries@[k as int].0,
                    old(self).buffers.entries@[k as int].1@,
                ));
                assert(ve.skip(k as int)[0] == ve[k as int]);
                assert(bs.skip(k as int)[0] == bs[k as int]);
                assert(ve.skip(k as int).drop_first() =~= ve.skip(k as int + 1));
                assert(bs.skip(k as int).drop_first() =~= bs.skip(k as int + 1));
                let aid0 = allocs_at_start.len() as int;
                let entry_chunk = spec_entry_cmds(
                    orec,
                    aid0 as usize,
                    bs[k as int],
                    create,
                    ve[k as int].1,
                );
                assert(cmds@ =~= cmds_at_start + entry_chunk) by {
                    if rebind {
                        assert(cmds@ == (cmds_at_start + chunk1) + chunk2);
                    } else {
                        assert(entry_chunk =~= chunk1 + Seq::<GpuCommand>::empty());
                    }
                }
                assert(spec_layout_cmds(old(records)@, ve.skip(k as int), bs.skip(k as int), create, aid0)
                    == entry_chunk + spec_layout_cmds(
                    old(records)@,
                    ve.skip(k as int + 1),
                    bs.skip(k as int + 1),
                    create,
                    allocs@.len() as int,
                ));
                assert(cmds@ + spec_layout_cmds(
                    old(records)@,
                    ve.skip(k as int + 1),
                    bs.skip(k as int + 1),
                    create,
                    allocs@.len() as int,
                ) =~= cmds_at_start + spec_layout_cmds(
                    old(records)@,
                    ve.skip(k as int),
                    bs.skip(k as int),
                    create,
                    aid0,
                ));
            }
            k = k + 1;
        }
        proof {
            assert(old(self).buffers.entries@.take(n as int) =~= old(self).buffers.entries@);
            assert(old(self).buffers.view_entries().skip(n as int).len() == 0);
            assert(cmds@ + Seq::<GpuCommand>::empty() =~= cmds@);
        }
        cmds
    }
}

} // verus!
