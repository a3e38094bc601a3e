//! Uniform slots and the tagged values bound to them.

use vstd::prelude::*;
use vstd::pervasive::VecAdditionalExecFns;

use crate::shadow_gpu::commands::{count_where, lemma_count_where_push, GpuCommand};

verus! {

/// Names one uniform slot of one linked program.
///
/// `id` is unique across every slot the engine has handed out, so two
/// handles are the same slot exactly when they are equal; `location` is
/// the value the caller supplied when the slot was resolved — the
/// executor keeps its own table from slot ids to device location
/// objects, so this field is informational.
#[derive(Clone, Copy, Debug, PartialEq, Eq, Structural)]
pub struct UniformHandle {
    pub id: usize,
    pub location: u32,
}

impl UniformHandle {
    pub fn new(id: usize, location: u32) -> (r: UniformHandle)
        ensures
            r == (UniformHandle { id, location }),
    {
        UniformHandle { id, location }
    }
}

/// A uniform value of one of the supported scalar, vector or matrix
/// shapes.
///
/// Float components are carried as their bit patterns, so values compare
/// exactly and without floating-point arithmetic; matrices are flattened
/// in column-major order. The executor reassembles the device's own
/// representation.
#[derive(Clone, Copy, Debug, PartialEq, Eq, Structural)]
pub enum UniformValue {
    Float(u32),
    Vec2(u32, u32),
    Vec3(u32, u32, u32),
    Vec4(u32, u32, u32, u32),
    Mat2(u32, u32, u32, u32),
    Mat3(u32, u32, u32, u32, u32, u32, u32, u32, u32),
    Mat4(
        u32,
        u32,
        u32,
        u32,
        u32,
        u32,
        u32,
        u32,
        u32,
        u32,
        u32,
        u32,
        u32,
        u32,
        u32,
        u32,
    ),
    Int(i32),
    IntVec2(i32, i32),
    IntVec3(i32, i32, i32),
    IntVec4(i32, i32, i32, i32),
    UnsignedInt(u32),
    UnsignedIntVec2(u32, u32),
    UnsignedIntVec3(u32, u32, u32),
    UnsignedIntVec4(u32, u32, u32, u32),
}

/// The value a uniform association list holds for a handle, if any:
/// the first entry with that handle.
pub open spec fn spec_uniform_lookup(
    s: Seq<(UniformHandle, UniformValue)>,
    h: UniformHandle,
) -> Option<UniformValue>
    decreases s.len(),
{
    if s.len() == 0 {
        None
    } else if s[0].0 == h {
        Some(s[0].1)
    } else {
        spec_uniform_lookup(s.drop_first(), h)
    }
}

/// Handles in the list are pairwise distinct.
pub open spec fn spec_uniforms_distinct(s: Seq<(UniformHandle, UniformValue)>) -> bool {
    forall|i: int, j: int|
        0 <= i < j < s.len() ==> (#[trigger] s[i]).0 != (#[trigger] s[j]).0
}

/// A handle no entry carries looks up to nothing.
pub proof fn lemma_uniform_lookup_none(s: Seq<(UniformHandle, UniformValue)>, h: UniformHandle)
    requires
        forall|j: int| 0 <= j < s.len() ==> (#[trigger] s[j]).0 != h,
    ensures
        spec_uniform_lookup(s, h) is None,
    decreases s.len(),
{
    if s.len() > 0 {
        lemma_uniform_lookup_none(s.drop_first(), h);
    }
}

/// Updating one entry's value changes exactly that handle's lookup.
pub proof fn lemma_uniform_lookup_update(
    s: Seq<(UniformHandle, UniformValue)>,
    i: int,
    v: UniformValue,
    g: UniformHandle,
)
    requires
        spec_uniforms_distinct(s),
        0 <= i < s.len(),
    ensures
        spec_uniform_lookup(s.update(i, (s[i].0, v)), g) == if g == s[i].0 {
            Some(v)
        } else {
            spec_uniform_lookup(s, g)
        },
    decreases i,
{
    let t = s.update(i, (s[i].0, v));
    if i == 0 {
        if g != s[0].0 {
            assert(t.drop_first() =~= s.drop_first());
        }
    } else {
        assert(t.drop_first() =~= s.drop_first().update(i - 1, (s.drop_first()[i - 1].0, v)));
        lemma_uniform_lookup_update(s.drop_first(), i - 1, v, g);
        assert(s[0].0 != s[i].0);
    }
}

/// Appending a fresh handle's entry changes exactly its lookup.
pub proof fn lemma_uniform_lookup_push(
    s: Seq<(UniformHandle, UniformValue)>,
    h: UniformHandle,
    v: UniformValue,
    g: UniformHandle,
)
    requires
        forall|j: int| 0 <= j < s.len() ==> (#[trigger] s[j]).0 != h,
    ensures
        spec_uniform_lookup(s.push((h, v)), g) == if g == h {
            Some(v)
        } else {
            spec_uniform_lookup(s, g)
        },
    decreases s.len(),
{
    if s.len() == 0 {
        assert(s.push((h, v))[0] == (h, v));
        if g != h {
            assert(s.push((h, v)).drop_first() =~= s);
        }
    } else {
        assert(s.push((h, v))[0] == s[0]);
        assert(s.push((h, v)).drop_first() =~= s.drop_first().push((h, v)));
        lemma_uniform_lookup_push(s.drop_first(), h, v, g);
    }
}

/// Look a handle up in a uniform store.
pub fn uniform_lookup(s: &Vec<(UniformHandle, UniformValue)>, h: UniformHandle) -> (r: Option<
    UniformValue,
>)
    ensures
        r == spec_uniform_lookup(s@, h),
    decreases s@.len(),
{
    let n = s.len();
    let mut i: usize = 0;
    proof {
        assert(s@.skip(0) =~= s@);
    }
    while i < n
        invariant
            0 <= i <= n,
            n == s@.len(),
            spec_uniform_lookup(s@, h) == spec_uniform_lookup(s@.skip(i as int), h),
        decreases n - i,
    {
        proof {
            assert(s@.skip(i as int)[0] == s@[i as int]);
        }
        if s[i].0 == h {
            return Some(s[i].1);
        }
        proof {
            assert(s@.skip(i as int).drop_first() =~= s@.skip(i as int + 1));
        }
        i = i + 1;
    }
    proof {
        assert(s@.skip(n as int).len() == 0);
    }
    None
}

/// Record a handle's current value in a uniform store.
pub fn uniform_store(s: &mut Vec<(UniformHandle, UniformValue)>, h: UniformHandle, v: UniformValue)
    requires
        spec_uniforms_distinct(old(s)@),
    ensures
        spec_uniforms_distinct(final(s)@),
        spec_uniform_lookup(final(s)@, h) == Some(v),
        forall|g: UniformHandle| g != h ==> spec_uniform_lookup(final(s)@, g)
            == spec_uniform_lookup(old(s)@, g),
{
    let n = s.len();
    let mut i: usize = 0;
    while i < n
        invariant
            0 <= i <= n,
            n == s@.len(),
            *s == *old(s),
            spec_uniforms_distinct(old(s)@),
            forall|j: int| 0 <= j < i ==> (#[trigger] s@[j]).0 != h,
        decreases n - i,
    {
        if s[i].0 == h {
            s.set(i, (h, v));
            proof {
                assert(s@ =~= old(s)@.update(i as int, (old(s)@[i as int].0, v)));
                assert forall|g: UniformHandle| true implies spec_uniform_lookup(s@, g) == if g
                    == old(s)@[i as int].0 {
                    Some(v)
                } else {
                    spec_uniform_lookup(old(s)@, g)
                } by {
                    lemma_uniform_lookup_update(old(s)@, i as int, v, g);
                }
            }
            return ;
        }
        i = i + 1;
    }
    s.push((h, v));
    proof {
        assert(s@ =~= old(s)@.push((h, v)));
        assert forall|g: UniformHandle| true implies spec_uniform_lookup(s@, g) == if g == h {
            Some(v)
        } else {
            spec_uniform_lookup(old(s)@, g)
        } by {
            lemma_uniform_lookup_push(old(s)@, h, v, g);
        }
    }
}

/// How many of the requested uniform values differ from what the shadow
/// store holds: equal values cost nothing, changed or unseen ones cost
/// one upload each.
pub open spec fn spec_count_uniform_changes(
    shadow: Seq<(UniformHandle, UniformValue)>,
    us: Seq<(UniformHandle, UniformValue)>,
) -> int
    decreases us.len(),
{
    if us.len() == 0 {
        0
    } else {
        spec_count_uniform_changes(shadow, us.drop_last()) + if spec_uniform_lookup(
            shadow,
            us.last().0,
        ) == Some(us.last().1) {
            0int
        } else {
            1int
        }
    }
}

/// Values the shadow store already holds cost no upload at all.
pub proof fn lemma_count_uniform_changes_zero(
    shadow: Seq<(UniformHandle, UniformValue)>,
    us: Seq<(UniformHandle, UniformValue)>,
)
    requires
        forall|k: int|
            0 <= k < us.len() ==> spec_uniform_lookup(shadow, (#[trigger] us[k]).0) == Some(
                us[k].1,
            ),
    ensures
        spec_count_uniform_changes(shadow, us) == 0,
    decreases us.len(),
{
    if us.len() > 0 {
        assert(us.last() == us[us.len() - 1]);
        lemma_count_uniform_changes_zero(shadow, us.drop_last());
    }
}

/// The exact commands one uniform phase emits: one upload per
/// requested value the shadow store does not already hold, in request
/// order. Distinct handles make the check against the starting store
/// exact.
pub open spec fn spec_uniform_cmds(
    shadow: Seq<(UniformHandle, UniformValue)>,
    us: Seq<(UniformHandle, UniformValue)>,
) -> Seq<GpuCommand>
    decreases us.len(),
{
    if us.len() == 0 {
        Seq::empty()
    } else {
        spec_uniform_cmds(shadow, us.drop_last()) + (
        if spec_uniform_lookup(shadow, us.last().0) == Some(us.last().1) {
            Seq::empty()
        } else {
            seq![GpuCommand::SetUniform { uniform: us.last().0.id, value: us.last().1 }]
        })
    }
}

/// Upload exactly the requested uniform values the shadow store does not
/// already hold, and record them; the commands returned are uniform
/// uploads alone, one per changed value.
pub fn apply_uniforms(
    shadow: &mut Vec<(UniformHandle, UniformValue)>,
    us: &Vec<(UniformHandle, UniformValue)>,
) -> (cmds: Vec<GpuCommand>)
    requires
        spec_uniforms_distinct(old(shadow)@),
        spec_uniforms_distinct(us@),
    ensures
        spec_uniforms_distinct(final(shadow)@),
        forall|k: int|
            0 <= k < us@.len() ==> spec_uniform_lookup(final(shadow)@, (#[trigger] us@[k]).0)
                == Some(us@[k].1),
        forall|g: UniformHandle|
            (forall|k: int| 0 <= k < us@.len() ==> (#[trigger] us@[k]).0 != g)
                ==> spec_uniform_lookup(final(shadow)@, g) == spec_uniform_lookup(old(shadow)@, g),
        forall|i: int| 0 <= i < cmds@.len() ==> (#[trigger] cmds@[i]) is SetUniform,
        count_where(cmds@, |c: GpuCommand| c.is_uniform_upload()) == cmds@.len(),
        count_where(cmds@, |c: GpuCommand| c.is_uniform_upload()) == spec_count_uniform_changes(
            old(shadow)@,
            us@,
        ),
        cmds@ == spec_uniform_cmds(old(shadow)@, us@),
{
    let mut cmds: Vec<GpuCommand> = Vec::new();
    let n = us.len();
    let mut k: usize = 0;
    while k < n
        invariant
            0 <= k <= n,
            n == us@.len(),
            spec_uniforms_distinct(us@),
            spec_uniforms_distinct(shadow@),
            forall|j: int|
                0 <= j < k ==> spec_uniform_lookup(shadow@, (#[trigger] us@[j]).0) == Some(
                    us@[j].1,
                ),
            forall|g: UniformHandle|
                (forall|j: int| 0 <= j < k ==> (#[trigger] us@[j]).0 != g)
                    ==> spec_uniform_lookup(shadow@, g) == spec_uniform_lookup(old(shadow)@, g),
            forall|i: int| 0 <= i < cmds@.len() ==> (#[trigger] cmds@[i]) is SetUniform,
            count_where(cmds@, |c: GpuCommand| c.is_uniform_upload()) == cmds@.len(),
            count_where(cmds@, |c: GpuCommand| c.is_uniform_upload())
                == spec_count_uniform_changes(old(shadow)@, us@.take(k as int)),
            cmds@ == spec_uniform_cmds(old(shadow)@, us@.take(k as int)),
        decreases n - k,
    {
        let h = us[k].0;
        let v = us[k].1;
        proof {
            assert forall|j: int| 0 <= j < k implies (#[trigger] us@[j]).0 != h by {}
            assert(spec_uniform_lookup(shadow@, h) == spec_uniform_lookup(old(shadow)@, h));
            assert(us@.take(k + 1).drop_last() =~= us@.take(k as int));
            assert(us@.take(k + 1).last() == us@[k as int]);
        }
        let cur = uniform_lookup(shadow, h);
        let up_to_date: bool = match cur {
            Some(c) => c == v,
            None => false,
        };
        if !up_to_date {
            let ghost cmds0 = cmds@;
            cmds.push(GpuCommand::SetUniform { uniform: h.id, value: v });
            proof {
                lemma_count_where_push(
                    cmds0,
                    GpuCommand::SetUniform { uniform: h.id, value: v },
                    |c: GpuCommand| c.is_uniform_upload(),
                );
                assert(cmds@ =~= cmds0.push(GpuCommand::SetUniform { uniform: h.id, value: v }));
            }
            uniform_store(shadow, h, v);
        }
        proof {
            assert(cmds@ =~= spec_uniform_cmds(old(shadow)@, us@.take(k + 1)));
        }
        k = k + 1;
    }
    proof {
        assert(us@.take(n as int) =~= us@);
    }
    cmds
}

} // verus!
