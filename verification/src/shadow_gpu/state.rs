//! The state a draw call asks for: program, buffer layout and uniform
//! values, plus the layout signature that keys the vertex-layout cache.

use vstd::prelude::*;

use crate::shadow_gpu::buffer::BufferHandle;
use crate::shadow_gpu::program::ProgramHandle;
use crate::shadow_gpu::uniforms::{UniformHandle, UniformValue};
use crate::state::StateDescriptor;
use crate::types::SizedDataType;

verus! {

/// How one attribute slot reads from one buffer: type, location, layout
/// within the record, and advancement rate.
#[derive(Clone, Copy, Debug, PartialEq, Eq, Structural)]
pub struct BufferBinding {
    pub kind: SizedDataType,
    pub location: u32,
    pub normalized: bool,
    pub stride: i32,
    pub offset: i32,
    pub divisor: u32,
}

/// An ordered mapping from buffer identity to that buffer's attribute
/// bindings, kept strictly sorted by buffer id so that identical draw
/// calls always build equal signatures.
///
/// This is the key of the vertex-layout cache: one device vertex-layout
/// object exists per distinct signature.
#[derive(Clone, Debug)]
pub struct LayoutSignature {
    pub entries: Vec<(BufferHandle, Vec<BufferBinding>)>,
}

impl LayoutSignature {
    /// The signature as a mathematical sequence of pairs.
    pub open spec fn view_entries(self) -> Seq<(BufferHandle, Seq<BufferBinding>)> {
        self.entries@.map_values(|e: (BufferHandle, Vec<BufferBinding>)| (e.0, e.1@))
    }

    /// Entries stand in strictly increasing buffer-id order.
    pub open spec fn wf(self) -> bool {
        forall|i: int, j: int|
            0 <= i < j < self.entries@.len() ==> (#[trigger] self.entries@[i]).0.id < (
            #[trigger] self.entries@[j]).0.id
    }

    /// Whether some entry is for the buffer with this id.
    pub open spec fn spec_contains_buffer(self, id: usize) -> bool {
        exists|i: int| 0 <= i < self.entries@.len() && (#[trigger] self.entries@[i]).0.id == id
    }

    pub fn new() -> (r: LayoutSignature)
        ensures
            r.entries@.len() == 0,
            r.wf(),
    {
        LayoutSignature { entries: Vec::new() }
    }

    /// Number of entries whose buffer id is below `id`; in a sorted
    /// signature, the position where `id`'s entry stands or would stand.
    pub open spec fn spec_insert_pos(s: Seq<(BufferHandle, Vec<BufferBinding>)>, id: usize) -> int
        decreases s.len(),
    {
        if s.len() == 0 {
            0
        } else if s[0].0.id < id {
            1 + Self::spec_insert_pos(s.drop_first(), id)
        } else {
            0
        }
    }

    /// The signature after recording `bindings` for `buffer`: replaces
    /// the entry with the same id, or inserts at the sorted position.
    pub open spec fn spec_sig_inserted(
        s: Seq<(BufferHandle, Vec<BufferBinding>)>,
        buffer: BufferHandle,
        bindings: Vec<BufferBinding>,
    ) -> Seq<(BufferHandle, Vec<BufferBinding>)> {
        let pos = Self::spec_insert_pos(s, buffer.id);
        if pos < s.len() && s[pos].0.id == buffer.id {
            s.update(pos, (buffer, bindings))
        } else {
            s.insert(pos, (buffer, bindings))
        }
    }


    /// The insert position, stated on the signature's view.
    pub open spec fn spec_insert_pos_view(
        s: Seq<(BufferHandle, Seq<BufferBinding>)>,
        id: usize,
    ) -> int
        decreases s.len(),
    {
        if s.len() == 0 {
            0
        } else if s[0].0.id < id {
            1 + Self::spec_insert_pos_view(s.drop_first(), id)
        } else {
            0
        }
    }

    /// The inserted signature, stated on views alone: the result of
    /// recording bindings depends only on the old signature's view, the
    /// buffer identity and the bindings' view.
    pub open spec fn spec_sig_inserted_view(
        s: Seq<(BufferHandle, Seq<BufferBinding>)>,
        buffer: BufferHandle,
        bindings: Seq<BufferBinding>,
    ) -> Seq<(BufferHandle, Seq<BufferBinding>)> {
        let pos = Self::spec_insert_pos_view(s, buffer.id);
        if pos < s.len() && s[pos].0.id == buffer.id {
            s.update(pos, (buffer, bindings))
        } else {
            s.insert(pos, (buffer, bindings))
        }
    }

    /// Insert a buffer's bindings, keeping id order; bindings already
    /// recorded for the same buffer are replaced. The result is an exact
    /// function of the old signature's view and the arguments, so
    /// identical draws always rebuild view-equal signatures.
    pub fn insert(&mut self, buffer: BufferHandle, bindings: Vec<BufferBinding>)
        requires
            old(self).wf(),
        ensures
            final(self).wf(),
            final(self).entries@ == Self::spec_sig_inserted(old(self).entries@, buffer, bindings),
            final(self).view_entries() == Self::spec_sig_inserted_view(
                old(self).view_entries(),
                buffer,
                bindings@,
            ),
    {
        let ghost pos_spec = Self::spec_insert_pos(old(self).entries@, buffer.id);
        let n = self.entries.len();
        let mut pos: usize = 0;
        while pos < n && self.entries[pos].0.id < buffer.id
            invariant
                0 <= pos <= n,
                n == self.entries@.len(),
                *self == *old(self),
                forall|i: int| 0 <= i < pos ==> (#[trigger] self.entries@[i]).0.id < buffer.id,
            decreases n - pos,
        {
            pos = pos + 1;
        }
        proof {
            lemma_insert_pos_characterization(old(self).entries@, buffer.id);
            assert(pos == pos_spec) by {
                if pos < pos_spec {
                    assert(self.entries@[pos as int].0.id < buffer.id);
                } else if pos_spec < pos {
                    assert(self.entries@[pos_spec].0.id < buffer.id);
                }
            }
        }
        if pos < n {
            let found_id = self.entries[pos].0.id;
            if found_id == buffer.id {
                self.entries.set(pos, (buffer, bindings));
            } else {
                self.entries.insert(pos, (buffer, bindings));
            }
        } else {
            self.entries.push((buffer, bindings));
            proof {
                assert(self.entries@ =~= old(self).entries@.insert(
                    old(self).entries@.len() as int,
                    (buffer, bindings),
                ));
            }
        }
        proof {
            lemma_insert_pos_view_agrees(old(self).entries@, buffer.id);
            let s0 = old(self).entries@;
            let v0 = old(self).view_entries();
            let p = Self::spec_insert_pos(s0, buffer.id);
            if p < s0.len() && s0[p].0.id == buffer.id {
                assert(self.view_entries() =~~= v0.update(p, (buffer, bindings@)));
            } else {
                assert(self.view_entries() =~~= v0.insert(p, (buffer, bindings@)));
            }
        }
    }

    /// Whether two signatures are the same mapping.
    pub fn matches(&self, other: &LayoutSignature) -> (r: bool)
        ensures
            r == (self.view_entries() =~~= other.view_entries()),
    {
        if self.entries.len() != other.entries.len() {
            proof {
                assert(self.view_entries().len() != other.view_entries().len());
            }
            return false;
        }
        let n = self.entries.len();
        let mut i: usize = 0;
        while i < n
            invariant
                0 <= i <= n,
                n == self.entries@.len(),
                n == other.entries@.len(),
                forall|k: int|
                    0 <= k < i ==> self.view_entries()[k] == #[trigger] other.view_entries()[k],
            decreases n - i,
        {
            proof {
                assert(self.view_entries()[i as int] == (
                    self.entries@[i as int].0,
                    self.entries@[i as int].1@,
                ));
                assert(other.view_entries()[i as int] == (
                    other.entries@[i as int].0,
                    other.entries@[i as int].1@,
                ));
            }
            if self.entries[i].0.id != other.entries[i].0.id {
                proof {
                    assert(self.view_entries()[i as int].0.id != other.view_entries()[i as int].0.id);
                }
                return false;
            }
            let a = &self.entries[i].1;
            let b = &other.entries[i].1;
            if a.len() != b.len() {
                proof {
                    assert(self.view_entries()[i as int].1.len() != other.view_entries()[i as int].1.len());
                }
                return false;
            }
            let m = a.len();
            let mut j: usize = 0;
            while j < m
                invariant
                    0 <= j <= m,
                    0 <= i < n,
                    n == self.entries@.len(),
                    n == other.entries@.len(),
                    m == a@.len(),
                    m == b@.len(),
                    a@ == self.entries@[i as int].1@,
                    b@ == other.entries@[i as int].1@,
                    forall|k: int| 0 <= k < j ==> a@[k] == #[trigger] b@[k],
                decreases m - j,
            {
                if a[j] != b[j] {
                    proof {
                        assert(self.view_entries()[i as int] == (
                            self.entries@[i as int].0,
                            self.entries@[i as int].1@,
                        ));
                        assert(other.view_entries()[i as int] == (
                            other.entries@[i as int].0,
                            other.entries@[i as int].1@,
                        ));
                        assert(self.view_entries()[i as int].1 != other.view_entries()[
                            i as int
                        ].1) by {
                            assert(self.view_entries()[i as int].1[j as int] != other.view_entries()[
                                i as int
                            ].1[j as int]);
                        }
                    }
                    return false;
                }
                j = j + 1;
            }
            proof {
                assert(a@ =~= b@);
                assert(self.view_entries()[i as int] =~~= other.view_entries()[i as int]);
            }
            i = i + 1;
        }
        proof {
            assert(self.view_entries() =~~= other.view_entries());
        }
        true
    }
}

/// Everything a draw call asks to be current on the device.
#[derive(Clone, Debug)]
pub struct GpuState {
    pub program: Option<ProgramHandle>,
    pub buffers: LayoutSignature,
    pub uniforms: Vec<(UniformHandle, UniformValue)>,
    /// Fixed-function state carried with the request; the shadow does
    /// not yet diff it.
    pub globals: StateDescriptor,
}

/// Where an id stands in a sorted signature: entries before
/// `spec_insert_pos` have smaller ids, the entry there (if any) has an
/// id at least as large.
pub proof fn lemma_insert_pos_characterization(
    s: Seq<(BufferHandle, Vec<BufferBinding>)>,
    id: usize,
)
    ensures
        0 <= LayoutSignature::spec_insert_pos(s, id) <= s.len(),
        forall|i: int|
            0 <= i < LayoutSignature::spec_insert_pos(s, id) ==> (#[trigger] s[i]).0.id < id,
        LayoutSignature::spec_insert_pos(s, id) < s.len() ==> s[LayoutSignature::spec_insert_pos(
            s,
            id,
        )].0.id >= id,
    decreases s.len(),
{
    if s.len() > 0 && s[0].0.id < id {
        lemma_insert_pos_characterization(s.drop_first(), id);
        assert forall|i: int|
            0 <= i < LayoutSignature::spec_insert_pos(s, id) implies (#[trigger] s[i]).0.id
            < id by {
            if i > 0 {
                assert(s.drop_first()[i - 1] == s[i]);
            }
        }
        if LayoutSignature::spec_insert_pos(s, id) < s.len() {
            assert(s.drop_first()[LayoutSignature::spec_insert_pos(s.drop_first(), id)] == s[
                LayoutSignature::spec_insert_pos(s, id)]);
        }
    }
}

/// The Vec-level and view-level insert positions agree: the view keeps
/// every buffer id.
pub proof fn lemma_insert_pos_view_agrees(s: Seq<(BufferHandle, Vec<BufferBinding>)>, id: usize)
    ensures
        LayoutSignature::spec_insert_pos_view(
            s.map_values(|e: (BufferHandle, Vec<BufferBinding>)| (e.0, e.1@)),
            id,
        ) == LayoutSignature::spec_insert_pos(s, id),
    decreases s.len(),
{
    let v = s.map_values(|e: (BufferHandle, Vec<BufferBinding>)| (e.0, e.1@));
    if s.len() > 0 {
        lemma_insert_pos_view_agrees(s.drop_first(), id);
        assert(v.drop_first() =~= s.drop_first().map_values(
            |e: (BufferHandle, Vec<BufferBinding>)| (e.0, e.1@),
        ));
        assert(v[0] == (s[0].0, s[0].1@));
    }
}

/// Copy a binding list.
pub fn clone_bindings(v: &Vec<BufferBinding>) -> (r: Vec<BufferBinding>)
    ensures
        r@ == v@,
{
    let n = v.len();
    let mut out: Vec<BufferBinding> = Vec::new();
    let mut i: usize = 0;
    while i < n
        invariant
            0 <= i <= n,
            n == v@.len(),
            out@ =~= v@.take(i as int),
        decreases n - i,
    {
        out.push(v[i]);
        proof {
            assert(out@ =~= v@.take(i + 1));
        }
        i = i + 1;
    }
    proof {
        assert(v@.take(n as int) =~= v@);
    }
    out
}

/// Copy a signature; the copy has the same view, and the same order.
pub fn clone_sig(sig: &LayoutSignature) -> (r: LayoutSignature)
    ensures
        r.view_entries() == sig.view_entries(),
        r.entries@.len() == sig.entries@.len(),
        forall|i: int|
            0 <= i < sig.entries@.len() ==> (#[trigger] r.entries@[i]).0 == sig.entries@[i].0
                && r.entries@[i].1@ == sig.entries@[i].1@,
        sig.wf() ==> r.wf(),
{
    let n = sig.entries.len();
    let mut out: Vec<(BufferHandle, Vec<BufferBinding>)> = Vec::new();
    let mut i: usize = 0;
    while i < n
        invariant
            0 <= i <= n,
            n == sig.entries@.len(),
            out@.len() == i,
            forall|j: int|
                0 <= j < i ==> (#[trigger] out@[j]).0 == sig.entries@[j].0 && out@[j].1@
                    == sig.entries@[j].1@,
        decreases n - i,
    {
        let bindings = clone_bindings(&sig.entries[i].1);
        out.push((sig.entries[i].0, bindings));
        i = i + 1;
    }
    let r = LayoutSignature { entries: out };
    proof {
        assert(r.view_entries() =~~= sig.view_entries());
    }
    r
}

/// The identity of an optional program: its id.
pub open spec fn spec_program_id(p: Option<ProgramHandle>) -> Option<usize> {
    match p {
        Some(h) => Some(h.id),
        None => None,
    }
}

impl GpuState {
    /// Handles in the uniform list are pairwise distinct.
    pub open spec fn uniforms_wf(self) -> bool {
        crate::shadow_gpu::uniforms::spec_uniforms_distinct(self.uniforms@)
    }

    pub fn new() -> (r: GpuState)
        ensures
            r.program is None,
            r.buffers.entries@.len() == 0,
            r.uniforms@.len() == 0,
            r.buffers.wf(),
            r.uniforms_wf(),
    {
        GpuState {
            program: None,
            buffers: LayoutSignature::new(),
            uniforms: Vec::new(),
            globals: StateDescriptor::default(),
        }
    }
}

} // verus!
