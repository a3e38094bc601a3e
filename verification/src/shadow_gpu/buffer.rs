//! Logical buffers: a CPU-side payload plus a lazily created device
//! allocation, with the reallocate-versus-update decision.

use vstd::prelude::*;

use crate::attribute::AttributeBinding;
use crate::shadow_gpu::ShadowGpu;
use vstd::pervasive::VecAdditionalExecFns;
use crate::buffer::types::BufferUsageHint;
use crate::shadow_gpu::commands::{
    count_where,
    lemma_count_where_concat,
    lemma_count_where_push,
    lemma_count_where_singleton,
    GpuCommand,
};

verus! {

/// How a sync left the device buffer: bound as it was, or freshly
/// (re)allocated, which invalidates attribute pointers built against it.
#[derive(Clone, Copy, Debug, PartialEq, Eq, Structural)]
pub enum BindResult {
    BoundExisting,
    BoundNew,
}

/// Names one logical buffer of one engine; an index into its table.
/// Two handles are the same buffer exactly when they are equal.
#[derive(Clone, Copy, Debug, PartialEq, Eq, Structural)]
pub struct BufferHandle {
    pub id: usize,
}

/// A live device-side allocation of a buffer.
#[derive(Clone, Copy, Debug, PartialEq, Eq, Structural)]
pub struct BufferAlloc {
    /// The device buffer object holding the data; fresh per allocation,
    /// so a changed id means the buffer was reallocated.
    pub id: usize,
    /// Bytes the allocation holds; a payload no larger fits without
    /// reallocating.
    pub capacity: usize,
}

/// The engine's record of one logical buffer.
#[derive(Clone, Debug)]
pub struct BufferRecord {
    /// The CPU-side payload, as raw bytes.
    pub data: Vec<u8>,
    /// How many vertex records the payload holds.
    pub element_count: usize,
    pub usage: BufferUsageHint,
    /// Whether the payload changed since it was last uploaded.
    pub dirty: bool,
    /// The buffer's attribute layout, in declared field order.
    pub descriptors: Vec<AttributeBinding>,
    /// The device allocation, once one exists.
    pub alloc: Option<BufferAlloc>,
}

/// Byte stride of one record laid out as these descriptors, packed in
/// declared order.
pub open spec fn spec_stride(ds: Seq<AttributeBinding>) -> int
    decreases ds.len(),
{
    if ds.len() == 0 {
        0
    } else {
        spec_stride(ds.drop_last()) + ds.last().kind.spec_byte_size()
    }
}

impl BufferRecord {
    pub open spec fn wf(self) -> bool {
        &&& forall|i: int|
            0 <= i < self.descriptors@.len() ==> (#[trigger] self.descriptors@[i]).wf()
        &&& spec_stride(self.descriptors@) <= i32::MAX
    }

    /// A clean record's allocation fits its payload; every record the
    /// engine holds satisfies this between operations.
    pub open spec fn spec_clean_fits(self) -> bool {
        (!self.dirty && self.alloc is Some) ==> self.alloc.unwrap().capacity >= self.data@.len()
    }

    /// Whether the next sync must create a device allocation: none
    /// exists yet, or the payload outgrew the one that does.
    pub open spec fn spec_needs_alloc(self) -> bool {
        match self.alloc {
            None => true,
            Some(a) => self.dirty && self.data@.len() > a.capacity,
        }
    }

    pub open spec fn spec_sync_result(self) -> BindResult {
        if self.spec_needs_alloc() {
            BindResult::BoundNew
        } else {
            BindResult::BoundExisting
        }
    }

    /// The commands that create an allocation and upload the payload.
    pub open spec fn spec_alloc_cmds(self, new_id: usize) -> Seq<GpuCommand> {
        seq![
            GpuCommand::CreateBuffer { buffer: new_id },
            GpuCommand::BindBuffer { buffer: new_id },
            GpuCommand::BufferData {
                buffer: new_id,
                byte_length: self.data@.len() as usize,
                usage: self.usage,
            },
        ]
    }

    /// The commands one sync of this record emits, given the id a fresh
    /// allocation would get.
    pub open spec fn spec_sync_cmds(self, new_id: usize) -> Seq<GpuCommand> {
        match self.alloc {
            None => self.spec_alloc_cmds(new_id),
            Some(a) => if !self.dirty {
                seq![GpuCommand::BindBuffer { buffer: a.id }]
            } else if self.data@.len() <= a.capacity {
                seq![
                    GpuCommand::BindBuffer { buffer: a.id },
                    GpuCommand::BufferSubData {
                        buffer: a.id,
                        byte_length: self.data@.len() as usize,
                    },
                ]
            } else {
                seq![GpuCommand::DeleteBuffer { buffer: a.id }] + self.spec_alloc_cmds(new_id)
            },
        }
    }

    /// The record after a sync: clean, with an allocation that fits the
    /// payload; reallocation gives the allocation a fresh id.
    pub open spec fn spec_synced(self, new_id: usize) -> BufferRecord {
        if self.spec_needs_alloc() {
            BufferRecord {
                dirty: false,
                alloc: Some(
                    BufferAlloc { id: new_id, capacity: self.data@.len() as usize },
                ),
                ..self
            }
        } else {
            BufferRecord { dirty: false, ..self }
        }
    }

    /// Bring the device allocation up to date with the payload, called
    /// immediately before a draw that references this buffer.
    ///
    /// With no allocation yet: allocate at exactly the payload size and
    /// upload. Allocated and clean: just bind. Allocated, dirty and
    /// fitting: overwrite the leading bytes in place, keeping the
    /// capacity. Allocated, dirty and outgrown: release the old
    /// allocation and make a fresh one at exactly the payload size; this
    /// is the only path that invalidates vertex-layout objects built
    /// against the buffer.
    ///
    /// `allocs` is the table of device buffer objects created so far (the
    /// owning logical buffer of each); a fresh allocation takes the next
    /// slot. The emitted commands are appended to `cmds`.
    pub fn sync(
        &mut self,
        allocs: &mut Vec<usize>,
        logical_id: usize,
        cmds: &mut Vec<GpuCommand>,
    ) -> (r: BindResult)
        ensures
            r == old(self).spec_sync_result(),
            *final(self) == old(self).spec_synced(old(allocs)@.len() as usize),
            final(allocs)@ == if old(self).spec_needs_alloc() {
                old(allocs)@.push(logical_id)
            } else {
                old(allocs)@
            },
            final(cmds)@ == old(cmds)@ + old(self).spec_sync_cmds(old(allocs)@.len() as usize),
    {
        let byte_len = self.data.len();
        let new_id = allocs.len();
        match self.alloc {
            None => {
                allocs.push(logical_id);
                cmds.push(GpuCommand::CreateBuffer { buffer: new_id });
                cmds.push(GpuCommand::BindBuffer { buffer: new_id });
                cmds.push(
                    GpuCommand::BufferData {
                        buffer: new_id,
                        byte_length: byte_len,
                        usage: self.usage,
                    },
                );
                self.alloc = Some(BufferAlloc { id: new_id, capacity: byte_len });
                self.dirty = false;
                proof {
                    assert(cmds@ =~= old(cmds)@ + old(self).spec_sync_cmds(
                        old(allocs)@.len() as usize,
                    ));
                }
                BindResult::BoundNew
            },
            Some(a) => {
                if !self.dirty {
                    cmds.push(GpuCommand::BindBuffer { buffer: a.id });
                    proof {
                        assert(cmds@ =~= old(cmds)@ + old(self).spec_sync_cmds(
                            old(allocs)@.len() as usize,
                        ));
                    }
                    BindResult::BoundExisting
                } else if byte_len <= a.capacity {
                    cmds.push(GpuCommand::BindBuffer { buffer: a.id });
                    cmds.push(GpuCommand::BufferSubData { buffer: a.id, byte_length: byte_len });
                    self.dirty = false;
                    proof {
                        assert(cmds@ =~= old(cmds)@ + old(self).spec_sync_cmds(
                            old(allocs)@.len() as usize,
                        ));
                    }
                    BindResult::BoundExisting
                } else {
                    allocs.push(logical_id);
                    cmds.push(GpuCommand::DeleteBuffer { buffer: a.id });
                    cmds.push(GpuCommand::CreateBuffer { buffer: new_id });
                    cmds.push(GpuCommand::BindBuffer { buffer: new_id });
                    cmds.push(
                        GpuCommand::BufferData {
                            buffer: new_id,
                            byte_length: byte_len,
                            usage: self.usage,
                        },
                    );
                    self.alloc = Some(BufferAlloc { id: new_id, capacity: byte_len });
                    self.dirty = false;
                    proof {
                        assert(cmds@ =~= old(cmds)@ + old(self).spec_sync_cmds(
                            old(allocs)@.len() as usize,
                        ));
                    }
                    BindResult::BoundNew
                }
            },
        }
    }
}



impl BufferHandle {
    /// The handle names a buffer of this engine.
    pub open spec fn valid(self, gpu: ShadowGpu) -> bool {
        self.id < gpu.buffers@.len()
    }

    /// Create a logical buffer; same as the engine's own operation.
    pub fn new(
        gpu: &mut ShadowGpu,
        usage_hint: BufferUsageHint,
        descriptors: Vec<AttributeBinding>,
    ) -> (r: BufferHandle)
        requires
            old(gpu).inv(),
            forall|i: int| 0 <= i < descriptors@.len() ==> (#[trigger] descriptors@[i]).wf(),
            spec_stride(descriptors@) <= i32::MAX,
        ensures
            final(gpu).inv(),
            r.id == old(gpu).buffers@.len(),
            final(gpu).buffers@.len() == old(gpu).buffers@.len() + 1,
            forall|i: int|
                0 <= i < old(gpu).buffers@.len() ==> final(gpu).buffers@[i] == old(gpu).buffers@[i],
            final(gpu).buffers@.last().element_count == 0,
            final(gpu).buffers@.last().dirty,
            final(gpu).buffers@.last().descriptors == descriptors,
            final(gpu).buffers@.last().alloc is None,
            final(gpu).allocated_buffers == old(gpu).allocated_buffers,
            final(gpu).programs == old(gpu).programs,
            final(gpu).uniform_locations == old(gpu).uniform_locations,
            final(gpu).vaos == old(gpu).vaos,
            final(gpu).state == old(gpu).state,
    {
        gpu.create_buffer(usage_hint, descriptors)
    }

    /// Replace the payload. The buffer is marked dirty and nothing
    /// touches the device until the next draw that references it.
    pub fn set_data(&self, gpu: &mut ShadowGpu, data: Vec<u8>, element_count: usize)
        requires
            old(gpu).inv(),
            self.valid(*old(gpu)),
        ensures
            final(gpu).inv(),
            final(gpu).buffers@.len() == old(gpu).buffers@.len(),
            final(gpu).buffers@[self.id as int].data == data,
            final(gpu).buffers@[self.id as int].element_count == element_count,
            final(gpu).buffers@[self.id as int].dirty,
            final(gpu).buffers@[self.id as int].descriptors == old(gpu).buffers@[self.id as int].descriptors,
            final(gpu).buffers@[self.id as int].usage == old(gpu).buffers@[self.id as int].usage,
            final(gpu).buffers@[self.id as int].alloc == old(gpu).buffers@[self.id as int].alloc,
            forall|i: int|
                0 <= i < old(gpu).buffers@.len() && i != self.id ==> final(gpu).buffers@[i] == old(
                    gpu,
                ).buffers@[i],
            final(gpu).allocated_buffers == old(gpu).allocated_buffers,
            final(gpu).programs == old(gpu).programs,
            final(gpu).uniform_locations == old(gpu).uniform_locations,
            final(gpu).vaos == old(gpu).vaos,
            final(gpu).state == old(gpu).state,
    {
        let mut tmp = BufferRecord {
            data: Vec::new(),
            element_count: 0,
            usage: BufferUsageHint::StreamDraw,
            dirty: false,
            descriptors: Vec::new(),
            alloc: None,
        };
        gpu.buffers.set_and_swap(self.id, &mut tmp);
        tmp.data = data;
        tmp.element_count = element_count;
        tmp.dirty = true;
        gpu.buffers.set_and_swap(self.id, &mut tmp);
        proof {
            assert(gpu.buffers@ =~= old(gpu).buffers@.update(
                self.id as int,
                gpu.buffers@[self.id as int],
            ));
        }
    }

    /// How many vertex records the payload holds.
    pub fn len(&self, gpu: &ShadowGpu) -> (r: usize)
        requires
            self.valid(*gpu),
        ensures
            r == gpu.buffers@[self.id as int].element_count,
    {
        gpu.buffers[self.id].element_count
    }

    /// Sync this buffer's device allocation on its own, outside a draw;
    /// returns how it was bound and the commands that took.
    pub fn bind(&self, gpu: &mut ShadowGpu) -> (r: (BindResult, Vec<GpuCommand>))
        requires
            old(gpu).inv(),
            self.valid(*old(gpu)),
        ensures
            final(gpu).inv(),
            final(gpu).buffers@.len() == old(gpu).buffers@.len(),
            r.0 == old(gpu).buffers@[self.id as int].spec_sync_result(),
            final(gpu).buffers@[self.id as int] == old(gpu).buffers@[self.id as int].spec_synced(
                old(gpu).allocated_buffers@.len() as usize,
            ),
            r.1@ == old(gpu).buffers@[self.id as int].spec_sync_cmds(
                old(gpu).allocated_buffers@.len() as usize,
            ),
            forall|i: int|
                0 <= i < old(gpu).buffers@.len() && i != self.id ==> final(gpu).buffers@[i] == old(
                    gpu,
                ).buffers@[i],
            final(gpu).programs == old(gpu).programs,
            final(gpu).uniform_locations == old(gpu).uniform_locations,
            final(gpu).vaos == old(gpu).vaos,
            final(gpu).state == old(gpu).state,
    {
        let mut cmds: Vec<GpuCommand> = Vec::new();
        let mut tmp = BufferRecord {
            data: Vec::new(),
            element_count: 0,
            usage: BufferUsageHint::StreamDraw,
            dirty: false,
            descriptors: Vec::new(),
            alloc: None,
        };
        gpu.buffers.set_and_swap(self.id, &mut tmp);
        let payload_len = tmp.data.len();
        proof {
            assert(old(gpu).buffers@[self.id as int].data@.len() == payload_len as nat);
        }
        let res = tmp.sync(&mut gpu.allocated_buffers, self.id, &mut cmds);
        gpu.buffers.set_and_swap(self.id, &mut tmp);
        proof {
            assert(gpu.buffers@ =~= old(gpu).buffers@.update(
                self.id as int,
                gpu.buffers@[self.id as int],
            ));
            let orec = old(gpu).buffers@[self.id as int];
            let synced = orec.spec_synced(old(gpu).allocated_buffers@.len() as usize);
            assert(synced.spec_clean_fits() && (synced.alloc is Some)) by {
                if !orec.spec_needs_alloc() {
                    if orec.dirty {
                        assert(orec.data@.len() <= orec.alloc.unwrap().capacity);
                    } else {
                        assert(orec.spec_clean_fits());
                    }
                }
            }
        }
        (res, cmds)
    }
}

/// What kinds of commands one sync emits: exactly one storage
/// allocation when the record needs one and none otherwise, never a
/// layout creation, program selection or uniform upload; and for a
/// clean, allocated record nothing that changes device state.
pub proof fn lemma_sync_cmds_kinds(rec: BufferRecord, new_id: usize)
    ensures
        count_where(
            rec.spec_sync_cmds(new_id),
            |c: GpuCommand| c.is_buffer_allocation(),
        ) == if rec.spec_needs_alloc() {
            1int
        } else {
            0int
        },
        count_where(rec.spec_sync_cmds(new_id), |c: GpuCommand| c.is_vao_creation()) == 0,
        forall|i: int|
            0 <= i < rec.spec_sync_cmds(new_id).len() ==> !((#[trigger] rec.spec_sync_cmds(
                new_id,
            )[i]) is UseProgram) && !(rec.spec_sync_cmds(new_id)[i] is SetUniform) && !(
            rec.spec_sync_cmds(new_id)[i] is DrawArrays) && !(rec.spec_sync_cmds(new_id)[i]
                is DrawArraysInstanced),
        (!rec.dirty && rec.alloc is Some) ==> forall|i: int|
            0 <= i < rec.spec_sync_cmds(new_id).len() ==> !(#[trigger] rec.spec_sync_cmds(
                new_id,
            )[i]).is_state_change(),
{
    let cmds = rec.spec_sync_cmds(new_id);
    let allocp = |c: GpuCommand| c.is_buffer_allocation();
    let vaop = |c: GpuCommand| c.is_vao_creation();
    match rec.alloc {
        None => {
            lemma_sync_alloc_cmds_counts(rec, new_id);
        },
        Some(a) => {
            if !rec.dirty {
                lemma_count_where_singleton(GpuCommand::BindBuffer { buffer: a.id }, allocp);
                lemma_count_where_singleton(GpuCommand::BindBuffer { buffer: a.id }, vaop);
            } else if rec.data@.len() <= a.capacity {
                let c0 = GpuCommand::BindBuffer { buffer: a.id };
                let c1 = GpuCommand::BufferSubData {
                    buffer: a.id,
                    byte_length: rec.data@.len() as usize,
                };
                assert(cmds =~= seq![c0].push(c1));
                lemma_count_where_singleton(c0, allocp);
                lemma_count_where_push(seq![c0], c1, allocp);
                lemma_count_where_singleton(c0, vaop);
                lemma_count_where_push(seq![c0], c1, vaop);
            } else {
                let c0 = GpuCommand::DeleteBuffer { buffer: a.id };
                lemma_sync_alloc_cmds_counts(rec, new_id);
                lemma_count_where_singleton(c0, allocp);
                lemma_count_where_concat(seq![c0], rec.spec_alloc_cmds(new_id), allocp);
                lemma_count_where_singleton(c0, vaop);
                lemma_count_where_concat(seq![c0], rec.spec_alloc_cmds(new_id), vaop);
            }
        },
    }
}

/// The allocation command triple holds exactly one storage allocation
/// and no layout creation.
proof fn lemma_sync_alloc_cmds_counts(rec: BufferRecord, new_id: usize)
    ensures
        count_where(
            rec.spec_alloc_cmds(new_id),
            |c: GpuCommand| c.is_buffer_allocation(),
        ) == 1,
        count_where(rec.spec_alloc_cmds(new_id), |c: GpuCommand| c.is_vao_creation()) == 0,
{
    let allocp = |c: GpuCommand| c.is_buffer_allocation();
    let vaop = |c: GpuCommand| c.is_vao_creation();
    let c0 = GpuCommand::CreateBuffer { buffer: new_id };
    let c1 = GpuCommand::BindBuffer { buffer: new_id };
    let c2 = GpuCommand::BufferData {
        buffer: new_id,
        byte_length: rec.data@.len() as usize,
        usage: rec.usage,
    };
    assert(rec.spec_alloc_cmds(new_id) =~= seq![c0].push(c1).push(c2));
    lemma_count_where_singleton(c0, allocp);
    lemma_count_where_push(seq![c0], c1, allocp);
    lemma_count_where_push(seq![c0].push(c1), c2, allocp);
    lemma_count_where_singleton(c0, vaop);
    lemma_count_where_push(seq![c0], c1, vaop);
    lemma_count_where_push(seq![c0].push(c1), c2, vaop);
}

} // verus!
