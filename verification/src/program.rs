//! Shader programs: built unbound from two source strings and a set of
//! uniform bindings, and bound exactly once, on first use, against the
//! device's compile, link and reflection answers.

use vstd::prelude::*;

use crate::draw_modes::DrawMode;
use crate::error::GpuError;
use crate::shadow_gpu::program::ProgramHandle;
use crate::shadow_gpu::uniforms::{UniformHandle, UniformValue};
use crate::shadow_gpu::{AttributeInfo, LinkOutcome, ShadowGpu, ShaderOutcome};
use crate::state::StateDescriptor;

verus! {

/// The device location an answer list reports for a uniform name, if
/// the compiled program has that uniform.
pub open spec fn spec_location_of(s: Seq<(String, Option<u32>)>, name: Seq<char>) -> Option<u32>
    decreases s.len(),
{
    if s.len() == 0 {
        None
    } else if s[0].0@ == name {
        s[0].1
    } else {
        spec_location_of(s.drop_first(), name)
    }
}

/// Look a uniform name up in the device's location answers.
pub fn location_of(s: &Vec<(String, Option<u32>)>, name: &String) -> (r: Option<u32>)
    ensures
        r == spec_location_of(s@, name@),
{
    let n = s.len();
    let mut i: usize = 0;
    proof {
        assert(s@.skip(0) =~= s@);
    }
    while i < n
        invariant
            0 <= i <= n,
            n == s@.len(),
            spec_location_of(s@, name@) == spec_location_of(s@.skip(i as int), name@),
        decreases n - i,
    {
        proof {
            assert(s@.skip(i as int)[0] == s@[i as int]);
        }
        if s[i].0 == *name {
            return s[i].1;
        }
        proof {
            assert(s@.skip(i as int).drop_first() =~= s@.skip(i as int + 1));
        }
        i = i + 1;
    }
    proof {
        assert(s@.skip(n as int).len() == 0);
    }
    None
}

/// The first attached name the device reports no location for, if any.
pub open spec fn spec_first_unlocated(
    us: Seq<(String, UniformValue)>,
    locs: Seq<(String, Option<u32>)>,
) -> Option<Seq<char>>
    decreases us.len(),
{
    if us.len() == 0 {
        None
    } else if spec_location_of(locs, us[0].0@) is None {
        Some(us[0].0@)
    } else {
        spec_first_unlocated(us.drop_first(), locs)
    }
}

/// When every earlier name is located and this one is not, it is the
/// first unlocated name.
pub proof fn lemma_first_unlocated_at(
    us: Seq<(String, UniformValue)>,
    locs: Seq<(String, Option<u32>)>,
    i: int,
)
    requires
        0 <= i < us.len(),
        forall|j: int| 0 <= j < i ==> spec_location_of(locs, (#[trigger] us[j]).0@) is Some,
        spec_location_of(locs, us[i].0@) is None,
    ensures
        spec_first_unlocated(us, locs) == Some(us[i].0@),
    decreases i,
{
    if i > 0 {
        lemma_first_unlocated_at(us.drop_first(), locs, i - 1);
        assert forall|j: int| 0 <= j < i - 1 implies spec_location_of(
            locs,
            (#[trigger] us.drop_first()[j]).0@,
        ) is Some by {
            assert(us.drop_first()[j] == us[j + 1]);
        }
        assert(us.drop_first()[i - 1] == us[i]);
    }
}

/// When every attached name is located, none is the first unlocated.
pub proof fn lemma_first_unlocated_none(
    us: Seq<(String, UniformValue)>,
    locs: Seq<(String, Option<u32>)>,
)
    requires
        forall|j: int| 0 <= j < us.len() ==> spec_location_of(locs, (#[trigger] us[j]).0@) is Some,
    ensures
        spec_first_unlocated(us, locs) is None,
    decreases us.len(),
{
    if us.len() > 0 {
        assert forall|j: int| 0 <= j < us.drop_first().len() implies spec_location_of(
            locs,
            (#[trigger] us.drop_first()[j]).0@,
        ) is Some by {
            assert(us.drop_first()[j] == us[j + 1]);
        }
        lemma_first_unlocated_none(us.drop_first(), locs);
    }
}

/// A program that has not touched the device yet: sources, the uniform
/// values attached so far, and how it will draw.
#[derive(Debug)]
pub struct UnboundProgram {
    pub vertex_shader_source: String,
    pub fragment_shader_source: String,
    pub uniforms: Vec<(String, UniformValue)>,
    pub draw_mode: DrawMode,
    pub state: StateDescriptor,
}

/// A program the device has compiled and linked: its handle, its
/// resolved uniform slots with their current values, and how it draws.
#[derive(Debug)]
pub struct BoundProgram {
    pub handle: ProgramHandle,
    pub uniforms: Vec<(String, UniformHandle, UniformValue)>,
    pub draw_mode: DrawMode,
    pub state: StateDescriptor,
}

impl UnboundProgram {
    /// Attached uniform names are pairwise distinct.
    pub open spec fn wf(self) -> bool {
        forall|i: int, j: int|
            0 <= i < j < self.uniforms@.len() ==> (#[trigger] self.uniforms@[i]).0@ != (
            #[trigger] self.uniforms@[j]).0@
    }

    /// Attach a uniform value under a name; attaching a name twice
    /// fails and changes nothing.
    pub fn with_uniform(&mut self, name: &str, value: UniformValue) -> (r: Result<(), GpuError>)
        requires
            old(self).wf(),
        ensures
            final(self).wf(),
            r is Ok <==> (forall|i: int|
                0 <= i < old(self).uniforms@.len() ==> (#[trigger] old(self).uniforms@[i]).0@
                    != name@),
            r is Ok ==> final(self).uniforms@.len() == old(self).uniforms@.len() + 1
                && final(self).uniforms@.last().0@ == name@ && final(self).uniforms@.last().1
                == value && (forall|i: int|
                0 <= i < old(self).uniforms@.len() ==> final(self).uniforms@[i] == old(
                    self,
                ).uniforms@[i]),
            r is Err ==> *final(self) == *old(self) && (r matches Err(e) && e
                matches GpuError::DuplicateUniformError(m) && m@ == name@),
            final(self).vertex_shader_source == old(self).vertex_shader_source,
            final(self).fragment_shader_source == old(self).fragment_shader_source,
            final(self).draw_mode == old(self).draw_mode,
            final(self).state == old(self).state,
    {
        let name_owned = name.to_owned();
        let n = self.uniforms.len();
        let mut i: usize = 0;
        while i < n
            invariant
                0 <= i <= n,
                n == self.uniforms@.len(),
                *self == *old(self),
                old(self).wf(),
                name_owned@ == name@,
                forall|j: int| 0 <= j < i ==> (#[trigger] self.uniforms@[j]).0@ != name@,
            decreases n - i,
        {
            if self.uniforms[i].0 == name_owned {
                return Err(GpuError::DuplicateUniformError(name_owned));
            }
            i = i + 1;
        }
        self.uniforms.push((name_owned, value));
        Ok(())
    }

    /// Replace the pending value attached under `name`.
    pub fn set_uniform(&mut self, name: &str, value: UniformValue) -> (r: Result<(), GpuError>)
        requires
            old(self).wf(),
        ensures
            final(self).wf(),
            final(self).vertex_shader_source == old(self).vertex_shader_source,
            final(self).fragment_shader_source == old(self).fragment_shader_source,
            final(self).draw_mode == old(self).draw_mode,
            final(self).state == old(self).state,
            final(self).uniforms@.len() == old(self).uniforms@.len(),
            r is Ok <==> (exists|i: int|
                0 <= i < old(self).uniforms@.len() && (#[trigger] old(self).uniforms@[i]).0@
                    == name@),
            r is Err ==> *final(self) == *old(self) && (r matches Err(e) && e
                is UnknownUniformError),
            forall|j: int|
                0 <= j < old(self).uniforms@.len() && (#[trigger] old(self).uniforms@[j]).0@
                    != name@ ==> final(self).uniforms@[j] == old(self).uniforms@[j],
            r is Ok ==> forall|j: int|
                0 <= j < old(self).uniforms@.len() && (#[trigger] old(self).uniforms@[j]).0@
                    == name@ ==> final(self).uniforms@[j].0@ == old(self).uniforms@[j].0@
                    && final(self).uniforms@[j].1 == value,
    {
        let name_owned = name.to_owned();
        let n = self.uniforms.len();
        let mut i: usize = 0;
        while i < n
            invariant
                0 <= i <= n,
                n == self.uniforms@.len(),
                *self == *old(self),
                old(self).wf(),
                name_owned@ == name@,
                forall|j: int| 0 <= j < i ==> (#[trigger] self.uniforms@[j]).0@ != name@,
            decreases n - i,
        {
            if self.uniforms[i].0 == name_owned {
                let ghost before = self.uniforms@;
                self.uniforms.set(i, (name_owned, value));
                proof {
                    assert(self.uniforms@ =~= before.update(i as int, (name_owned, value)));
                    assert forall|x: int, y: int|
                        0 <= x < y < self.uniforms@.len() implies (#[trigger] self.uniforms@[x]).0@ != (#[trigger] self.uniforms@[y]).0@ by {
                        assert(before[x].0@ != before[y].0@);
                        if x == i {
                            assert(self.uniforms@[x].0@ == before[x].0@);
                        } else if y == i {
                            assert(self.uniforms@[y].0@ == before[y].0@);
                        }
                    }
                }
                return Ok(());
            }
            i = i + 1;
        }
        Err(GpuError::UnknownUniformError(name_owned))
    }
}

/// A program in one of its two lives: unbound until its first use, then
/// bound for good.
#[derive(Debug)]
pub enum Program {
    Unbound(UnboundProgram),
    Bound(BoundProgram),
}

impl BoundProgram {
    /// The handle is well formed, and the resolved uniform slots are
    /// pairwise distinct.
    pub open spec fn wf(self) -> bool {
        &&& self.handle.wf()
        &&& forall|i: int, j: int|
            0 <= i < j < self.uniforms@.len() ==> (#[trigger] self.uniforms@[i]).1.id != (
            #[trigger] self.uniforms@[j]).1.id
        &&& forall|i: int, j: int|
            0 <= i < j < self.uniforms@.len() ==> (#[trigger] self.uniforms@[i]).0@ != (
            #[trigger] self.uniforms@[j]).0@
    }

    /// Replace the current value of the uniform slot attached under
    /// `name`; the value reaches the device on the next draw that finds
    /// it changed.
    pub fn set_uniform(&mut self, name: &str, value: UniformValue) -> (r: Result<(), GpuError>)
        requires
            old(self).wf(),
        ensures
            final(self).wf(),
            final(self).handle == old(self).handle,
            final(self).draw_mode == old(self).draw_mode,
            final(self).state == old(self).state,
            final(self).uniforms@.len() == old(self).uniforms@.len(),
            r is Ok <==> (exists|i: int|
                0 <= i < old(self).uniforms@.len() && (#[trigger] old(self).uniforms@[i]).0@
                    == name@),
            r is Err ==> *final(self) == *old(self) && (r matches Err(e) && e
                matches GpuError::UnknownUniformError(m) && m@ == name@),
            forall|j: int|
                0 <= j < old(self).uniforms@.len() && (#[trigger] old(self).uniforms@[j]).0@
                    != name@ ==> final(self).uniforms@[j] == old(self).uniforms@[j],
            r is Ok ==> forall|j: int|
                0 <= j < old(self).uniforms@.len() && (#[trigger] old(self).uniforms@[j]).0@
                    == name@ ==> final(self).uniforms@[j].0@ == old(self).uniforms@[j].0@
                    && final(self).uniforms@[j].1 == old(self).uniforms@[j].1
                    && final(self).uniforms@[j].2 == value,
    {
        let name_owned = name.to_owned();
        let n = self.uniforms.len();
        let mut i: usize = 0;
        while i < n
            invariant
                0 <= i <= n,
                n == self.uniforms@.len(),
                *self == *old(self),
                old(self).wf(),
                name_owned@ == name@,
                forall|j: int| 0 <= j < i ==> (#[trigger] self.uniforms@[j]).0@ != name@,
            decreases n - i,
        {
            if self.uniforms[i].0 == name_owned {
                let handle = self.uniforms[i].1;
                self.uniforms.set(i, (name_owned, handle, value));
                return Ok(());
            }
            i = i + 1;
        }
        Err(GpuError::UnknownUniformError(name_owned))
    }

    /// The slot-to-value pairs a draw with this program asks for.
    pub open spec fn spec_uniform_pairs(self) -> Seq<(UniformHandle, UniformValue)> {
        self.uniforms@.map_values(|u: (String, UniformHandle, UniformValue)| (u.1, u.2))
    }

    pub fn handle(&self) -> (r: &ProgramHandle)
        ensures
            r == &self.handle,
    {
        &self.handle
    }

    pub fn attributes(&self) -> (r: &Vec<(String, AttributeInfo)>)
        ensures
            r == &self.handle.attributes,
    {
        &self.handle.attributes
    }
}

impl UnboundProgram {
    /// Bind against the device's answers: compile outcomes for the two
    /// shaders, the link outcome with its reflection, and the location
    /// the device reports for each attached uniform name.
    ///
    /// Fails with the carried diagnostic if a shader did not compile or
    /// the program did not link or reflect cleanly, and with the first
    /// attached name the compiled program has no uniform for.
    pub fn bind(
        &self,
        gpu: &mut ShadowGpu,
        vertex: &ShaderOutcome,
        fragment: &ShaderOutcome,
        link: &LinkOutcome,
        uniform_locations: &Vec<(String, Option<u32>)>,
    ) -> (r: Result<BoundProgram, GpuError>)
        requires
            old(gpu).inv(),
            self.wf(),
            link.names_distinct(),
        ensures
            final(gpu).inv(),
            !vertex.compiled ==> (r matches Err(e) && e matches GpuError::ShaderCompileError(m)
                && m@ == vertex.info_log@),
            vertex.compiled && !fragment.compiled ==> (r matches Err(e) && e
                matches GpuError::ShaderCompileError(m) && m@ == fragment.info_log@),
            vertex.compiled && fragment.compiled && !link.linked ==> (r matches Err(e) && e
                matches GpuError::ShaderLinkError(m) && m@ == link.info_log@),
            vertex.compiled && fragment.compiled && link.linked && !(forall|i: int|
                0 <= i < link.attributes@.len() ==> crate::shadow_gpu::spec_link_attr_ok(
                    #[trigger] link.attributes@[i],
                )) ==> (r matches Err(e) && e is ShaderLinkError),
            vertex.compiled && fragment.compiled && link.linked && (forall|i: int|
                0 <= i < link.attributes@.len() ==> crate::shadow_gpu::spec_link_attr_ok(
                    #[trigger] link.attributes@[i],
                )) ==> (spec_first_unlocated(self.uniforms@, uniform_locations@) matches Some(n)
                ==> (r matches Err(e) && e matches GpuError::UnknownUniformError(m) && m@ == n)),
            r is Ok <==> vertex.compiled && fragment.compiled && link.linked && (forall|i: int|
                0 <= i < link.attributes@.len() ==> crate::shadow_gpu::spec_link_attr_ok(
                    #[trigger] link.attributes@[i],
                )) && (forall|i: int|
                0 <= i < self.uniforms@.len() ==> spec_location_of(
                    uniform_locations@,
                    (#[trigger] self.uniforms@[i]).0@,
                ) is Some),
            r matches Ok(bp) ==> {
                &&& bp.wf()
                &&& bp.handle.id == old(gpu).programs@.len()
                &&& bp.handle.attributes@.len() == link.attributes@.len()
                &&& forall|i: int|
                    0 <= i < link.attributes@.len() ==> (#[trigger] bp.handle.attributes@[i]).0@
                        == link.attributes@[i].name@ && bp.handle.attributes@[i].1
                        == crate::shadow_gpu::spec_link_attr_info(link.attributes@[i])
                &&& bp.uniforms@.len() == self.uniforms@.len()
                &&& forall|i: int|
                    0 <= i < self.uniforms@.len() ==> (#[trigger] bp.uniforms@[i]).0@
                        == self.uniforms@[i].0@ && bp.uniforms@[i].2 == self.uniforms@[i].1
                        && bp.uniforms@[i].1.location == spec_location_of(
                        uniform_locations@,
                        self.uniforms@[i].0@,
                    ).unwrap()
                &&& bp.draw_mode == self.draw_mode
                &&& bp.state == self.state
            },
            final(gpu).buffers == old(gpu).buffers,
            final(gpu).vaos == old(gpu).vaos,
            final(gpu).allocated_buffers == old(gpu).allocated_buffers,
            final(gpu).state == old(gpu).state,
    {
        if !vertex.compiled {
            return Err(GpuError::ShaderCompileError(vertex.info_log.clone()));
        }
        if !fragment.compiled {
            return Err(GpuError::ShaderCompileError(fragment.info_log.clone()));
        }
        let handle = match gpu.link_program(link) {
            Ok(h) => h,
            Err(e) => {
                return Err(e);
            },
        };
        let n = self.uniforms.len();
        let mut resolved: Vec<(String, UniformHandle, UniformValue)> = Vec::new();
        let ghost uid0 = old(gpu).uniform_locations@.len();
        let mut i: usize = 0;
        while i < n
            invariant
                0 <= i <= n,
                n == self.uniforms@.len(),
                gpu.inv(),
                gpu.buffers == old(gpu).buffers,
                gpu.vaos == old(gpu).vaos,
                gpu.allocated_buffers == old(gpu).allocated_buffers,
                gpu.state == old(gpu).state,
                gpu.programs@.len() == old(gpu).programs@.len() + 1,
                handle.id == old(gpu).programs@.len(),
                handle.wf(),
                handle.attributes@.len() == link.attributes@.len(),
                forall|j: int|
                    0 <= j < link.attributes@.len() ==> (#[trigger] handle.attributes@[j]).0@
                        == link.attributes@[j].name@ && handle.attributes@[j].1
                        == crate::shadow_gpu::spec_link_attr_info(link.attributes@[j]),
                forall|j: int|
                    0 <= j < link.attributes@.len() ==> crate::shadow_gpu::spec_link_attr_ok(
                        #[trigger] link.attributes@[j],
                    ),
                link.linked,
                vertex.compiled,
                fragment.compiled,
                resolved@.len() == i,
                gpu.uniform_locations@.len() == uid0 + i,
                forall|j: int|
                    0 <= j < i ==> {
                        let u = #[trigger] resolved@[j];
                        &&& u.0@ == self.uniforms@[j].0@
                        &&& u.2 == self.uniforms@[j].1
                        &&& u.1.id == uid0 + j
                        &&& u.1.location == spec_location_of(
                            uniform_locations@,
                            self.uniforms@[j].0@,
                        ).unwrap()
                    },
                forall|j: int|
                    0 <= j < i ==> spec_location_of(
                        uniform_locations@,
                        (#[trigger] self.uniforms@[j]).0@,
                    ) is Some,
            decreases n - i,
        {
            let name = &self.uniforms[i].0;
            let value = self.uniforms[i].1;
            let loc = location_of(uniform_locations, name);
            let uh = match gpu.get_uniform_handle(&handle, name.as_str(), loc) {
                Ok(h) => h,
                Err(e) => {
                    proof {
                        lemma_first_unlocated_at(self.uniforms@, uniform_locations@, i as int);
                    }
                    return Err(e);
                },
            };
            resolved.push((name.clone(), uh, value));
            i = i + 1;
        }
        proof {
            lemma_first_unlocated_none(self.uniforms@, uniform_locations@);
        }
        let bp = BoundProgram {
            handle,
            uniforms: resolved,
            draw_mode: self.draw_mode,
            state: self.state,
        };
        proof {
            assert forall|x: int, y: int|
                0 <= x < y < bp.uniforms@.len() implies (#[trigger] bp.uniforms@[x]).1.id != (
            #[trigger] bp.uniforms@[y]).1.id by {
                assert(bp.uniforms@[x].1.id == uid0 + x);
                assert(bp.uniforms@[y].1.id == uid0 + y);
            }
        }
        Ok(bp)
    }
}

impl Program {
    pub open spec fn wf(self) -> bool {
        match self {
            Program::Unbound(u) => u.wf(),
            Program::Bound(b) => b.wf(),
        }
    }

    pub open spec fn spec_is_bound(self) -> bool {
        self is Bound
    }

    pub open spec fn spec_draw_mode(self) -> DrawMode {
        match self {
            Program::Unbound(u) => u.draw_mode,
            Program::Bound(b) => b.draw_mode,
        }
    }

    /// A program from its two shader sources and draw mode; it stays
    /// unbound until its first use.
    pub fn new(
        vertex_shader_source: &str,
        fragment_shader_source: &str,
        draw_mode: DrawMode,
    ) -> (r: Program)
        ensures
            r matches Program::Unbound(u) && u.vertex_shader_source@ == vertex_shader_source@
                && u.fragment_shader_source@ == fragment_shader_source@ && u.uniforms@.len() == 0
                && u.draw_mode == draw_mode && u.state.blend_func is None && u.state.culling is None && u.state.depth_func is None,
            r.wf(),
            !r.spec_is_bound(),
    {
        Program::Unbound(
            UnboundProgram {
                vertex_shader_source: vertex_shader_source.to_owned(),
                fragment_shader_source: fragment_shader_source.to_owned(),
                uniforms: Vec::new(),
                draw_mode,
                state: StateDescriptor::default(),
            },
        )
    }

    /// Attach a uniform value; valid only while unbound, and each name
    /// at most once.
    pub fn with_uniform(self, name: &str, value: UniformValue) -> (r: Result<Program, GpuError>)
        requires
            !self.spec_is_bound(),
            self.wf(),
        ensures
            r matches Ok(p) ==> p.wf() && !p.spec_is_bound(),
            r matches Ok(p) ==> (self matches Program::Unbound(u) && p
                matches Program::Unbound(v) && v.uniforms@.len() == u.uniforms@.len() + 1
                && v.uniforms@.last().0@ == name@ && v.uniforms@.last().1 == value),
            r is Ok <==> (self matches Program::Unbound(u) && forall|i: int|
                0 <= i < u.uniforms@.len() ==> (#[trigger] u.uniforms@[i]).0@ != name@),
            r is Err ==> (r matches Err(e) && e matches GpuError::DuplicateUniformError(m) && m@
                == name@),
    {
        match self {
            Program::Unbound(mut u) => {
                match u.with_uniform(name, value) {
                    Ok(()) => Ok(Program::Unbound(u)),
                    Err(e) => Err(e),
                }
            },
            Program::Bound(_) => {
                proof {
                    assert(false);
                }
                Err(GpuError::DuplicateUniformError(name.to_owned()))
            },
        }
    }

    /// Replace the fixed-function state; valid only while unbound.
    pub fn with_state(self, state: StateDescriptor) -> (r: Program)
        requires
            !self.spec_is_bound(),
            self.wf(),
        ensures
            r.wf(),
            !r.spec_is_bound(),
            r matches Program::Unbound(v) && v.state == state,
            self matches Program::Unbound(u) ==> (r matches Program::Unbound(v)
                && v.vertex_shader_source == u.vertex_shader_source && v.fragment_shader_source
                == u.fragment_shader_source && v.uniforms == u.uniforms && v.draw_mode
                == u.draw_mode),
    {
        match self {
            Program::Unbound(u) => Program::Unbound(
                UnboundProgram {
                    vertex_shader_source: u.vertex_shader_source,
                    fragment_shader_source: u.fragment_shader_source,
                    uniforms: u.uniforms,
                    draw_mode: u.draw_mode,
                    state,
                },
            ),
            Program::Bound(b) => {
                proof {
                    assert(false);
                }
                Program::Bound(b)
            },
        }
    }

    pub fn is_bound(&self) -> (r: bool)
        ensures
            r == self.spec_is_bound(),
    {
        match self {
            Program::Bound(_) => true,
            Program::Unbound(_) => false,
        }
    }

    pub fn draw_mode(&self) -> (r: DrawMode)
        ensures
            r == self.spec_draw_mode(),
    {
        match self {
            Program::Unbound(u) => u.draw_mode,
            Program::Bound(b) => b.draw_mode,
        }
    }

    /// The bound form; only after the transition fired.
    pub fn bound(&self) -> (r: &BoundProgram)
        requires
            self.spec_is_bound(),
        ensures
            *self matches Program::Bound(b) && r == &b,
    {
        match self {
            Program::Bound(b) => b,
            Program::Unbound(_) => {
                proof {
                    assert(false);
                }
                unreached()
            },
        }
    }

    /// Replace the current value of the uniform attached under `name`,
    /// in either life of the program.
    pub fn set_uniform(&mut self, name: &str, value: UniformValue) -> (r: Result<(), GpuError>)
        requires
            old(self).wf(),
        ensures
            final(self).wf(),
            final(self).spec_is_bound() == old(self).spec_is_bound(),
            final(self).spec_draw_mode() == old(self).spec_draw_mode(),
            *old(self) matches Program::Bound(b) ==> (*final(self) matches Program::Bound(b2) && {
                &&& b2.handle == b.handle
                &&& b2.uniforms@.len() == b.uniforms@.len()
                &&& (r is Ok <==> exists|i: int|
                    0 <= i < b.uniforms@.len() && (#[trigger] b.uniforms@[i]).0@ == name@)
                &&& (r is Ok ==> forall|j: int|
                    0 <= j < b.uniforms@.len() && (#[trigger] b.uniforms@[j]).0@ == name@
                        ==> b2.uniforms@[j].1 == b.uniforms@[j].1 && b2.uniforms@[j].2 == value)
                &&& forall|j: int|
                    0 <= j < b.uniforms@.len() && (#[trigger] b.uniforms@[j]).0@ != name@
                        ==> b2.uniforms@[j] == b.uniforms@[j]
            }),
            *old(self) matches Program::Unbound(u) ==> (*final(self) matches Program::Unbound(
                u2,
            ) && {
                &&& u2.uniforms@.len() == u.uniforms@.len()
                &&& u2.vertex_shader_source == u.vertex_shader_source
                &&& u2.fragment_shader_source == u.fragment_shader_source
                &&& u2.state == u.state
                &&& (r is Ok <==> exists|i: int|
                    0 <= i < u.uniforms@.len() && (#[trigger] u.uniforms@[i]).0@ == name@)
                &&& (r is Ok ==> forall|j: int|
                    0 <= j < u.uniforms@.len() && (#[trigger] u.uniforms@[j]).0@ == name@
                        ==> u2.uniforms@[j].0@ == u.uniforms@[j].0@ && u2.uniforms@[j].1 == value)
                &&& forall|j: int|
                    0 <= j < u.uniforms@.len() && (#[trigger] u.uniforms@[j]).0@ != name@
                        ==> u2.uniforms@[j] == u.uniforms@[j]
            }),
            r is Err ==> (r matches Err(e) && e is UnknownUniformError),
    {
        match self {
            Program::Bound(b) => b.set_uniform(name, value),
            Program::Unbound(u) => u.set_uniform(name, value),
        }
    }

    /// Fire the unbound-to-bound transition against the device's
    /// answers; on a program that is already bound this is a no-op, so
    /// the transition fires at most once.
    pub fn bind(
        &mut self,
        gpu: &mut ShadowGpu,
        vertex: &ShaderOutcome,
        fragment: &ShaderOutcome,
        link: &LinkOutcome,
        uniform_locations: &Vec<(String, Option<u32>)>,
    ) -> (r: Result<(), GpuError>)
        requires
            old(gpu).inv(),
            old(self).wf(),
            link.names_distinct(),
        ensures
            final(gpu).inv(),
            final(self).wf(),
            old(self).spec_is_bound() ==> *final(self) == *old(self) && *final(gpu) == *old(gpu)
                && r is Ok,
            !old(self).spec_is_bound() ==> (r is Ok <==> final(self).spec_is_bound()),
            !old(self).spec_is_bound() && r is Err ==> *final(self) == *old(self),
            final(self).spec_draw_mode() == old(self).spec_draw_mode(),
            final(gpu).buffers == old(gpu).buffers,
            final(gpu).vaos == old(gpu).vaos,
            final(gpu).allocated_buffers == old(gpu).allocated_buffers,
            final(gpu).state == old(gpu).state,
            // the transition succeeds exactly on clean device answers,
            // fails with the spec's typed errors, and on success the
            // bound program carries the answers verbatim
            *old(self) matches Program::Unbound(u) ==> {
                &&& (r is Ok <==> vertex.compiled && fragment.compiled && link.linked && (forall|
                    i: int|
                    0 <= i < link.attributes@.len() ==> crate::shadow_gpu::spec_link_attr_ok(
                        #[trigger] link.attributes@[i],
                    )) && (forall|i: int|
                    0 <= i < u.uniforms@.len() ==> spec_location_of(
                        uniform_locations@,
                        (#[trigger] u.uniforms@[i]).0@,
                    ) is Some))
                &&& (!vertex.compiled ==> (r matches Err(e) && e
                    matches GpuError::ShaderCompileError(m) && m@ == vertex.info_log@))
                &&& (vertex.compiled && !fragment.compiled ==> (r matches Err(e) && e
                    matches GpuError::ShaderCompileError(m) && m@ == fragment.info_log@))
                &&& (vertex.compiled && fragment.compiled && !link.linked ==> (r matches Err(e)
                    && e matches GpuError::ShaderLinkError(m) && m@ == link.info_log@))
                &&& (vertex.compiled && fragment.compiled && link.linked && !(forall|i: int|
                    0 <= i < link.attributes@.len() ==> crate::shadow_gpu::spec_link_attr_ok(
                        #[trigger] link.attributes@[i],
                    )) ==> (r matches Err(e) && e is ShaderLinkError))
                &&& (vertex.compiled && fragment.compiled && link.linked && (forall|i: int|
                    0 <= i < link.attributes@.len() ==> crate::shadow_gpu::spec_link_attr_ok(
                        #[trigger] link.attributes@[i],
                    )) ==> (spec_first_unlocated(u.uniforms@, uniform_locations@)
                    matches Some(n) ==> (r matches Err(e) && e
                    matches GpuError::UnknownUniformError(m) && m@ == n)))
                &&& (r is Ok ==> (*final(self) matches Program::Bound(bp) && {
                    &&& bp.handle.id == old(gpu).programs@.len()
                    &&& bp.handle.attributes@.len() == link.attributes@.len()
                    &&& forall|i: int|
                        0 <= i < link.attributes@.len() ==> (
                        #[trigger] bp.handle.attributes@[i]).0@ == link.attributes@[i].name@
                            && bp.handle.attributes@[i].1
                            == crate::shadow_gpu::spec_link_attr_info(link.attributes@[i])
                    &&& bp.uniforms@.len() == u.uniforms@.len()
                    &&& forall|i: int|
                        0 <= i < u.uniforms@.len() ==> (#[trigger] bp.uniforms@[i]).0@
                            == u.uniforms@[i].0@ && bp.uniforms@[i].2 == u.uniforms@[i].1
                            && bp.uniforms@[i].1.location == spec_location_of(
                            uniform_locations@,
                            u.uniforms@[i].0@,
                        ).unwrap()
                    &&& bp.draw_mode == u.draw_mode
                    &&& bp.state == u.state
                }))
            },
    {
        if self.is_bound() {
            return Ok(());
        }
        let attempt = match &*self {
            Program::Unbound(u) => u.bind(gpu, vertex, fragment, link, uniform_locations),
            Program::Bound(_) => {
                proof {
                    assert(false);
                }
                Err(GpuError::VertexLayoutCreationError)
            },
        };
        match attempt {
            Ok(bp) => {
                *self = Program::Bound(bp);
                Ok(())
            },
            Err(e) => Err(e),
        }
    }
}

} // verus!
