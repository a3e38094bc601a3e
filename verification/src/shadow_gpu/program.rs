//! Handles to linked device programs.

use vstd::prelude::*;

use crate::shadow_gpu::AttributeInfo;

verus! {

/// A linked program: its device id and the attribute table reflection
/// reported, as name-to-info pairs with pairwise distinct names.
///
/// Identity is the id: the engine gives every linked program a fresh
/// one, so two handles name the same device program exactly when their
/// ids are equal.
#[derive(Clone, Debug)]
pub struct ProgramHandle {
    pub id: usize,
    pub attributes: Vec<(String, AttributeInfo)>,
}

impl ProgramHandle {
    /// Names in the attribute table are pairwise distinct.
    pub open spec fn wf(self) -> bool {
        forall|i: int, j: int|
            0 <= i < j < self.attributes@.len() ==> (#[trigger] self.attributes@[i]).0@ != (
            #[trigger] self.attributes@[j]).0@
    }

    /// The reflected info for an attribute name, if the program has it.
    pub open spec fn spec_attribute_lookup(self, name: Seq<char>) -> Option<AttributeInfo> {
        spec_attr_lookup(self.attributes@, name)
    }
}

/// The first info an attribute table associates with a name.
pub open spec fn spec_attr_lookup(
    s: Seq<(String, AttributeInfo)>,
    name: Seq<char>,
) -> Option<AttributeInfo>
    decreases s.len(),
{
    if s.len() == 0 {
        None
    } else if s[0].0@ == name {
        Some(s[0].1)
    } else {
        spec_attr_lookup(s.drop_first(), name)
    }
}

/// Look a name up in an attribute table.
pub fn attr_lookup(attributes: &Vec<(String, AttributeInfo)>, name: &String) -> (r: Option<
    AttributeInfo,
>)
    ensures
        r == spec_attr_lookup(attributes@, name@),
{
    let n = attributes.len();
    let mut i: usize = 0;
    proof {
        assert(attributes@.skip(0) =~= attributes@);
    }
    while i < n
        invariant
            0 <= i <= n,
            n == attributes@.len(),
            spec_attr_lookup(attributes@, name@) == spec_attr_lookup(
                attributes@.skip(i as int),
                name@,
            ),
        decreases n - i,
    {
        proof {
            assert(attributes@.skip(i as int)[0] == attributes@[i as int]);
        }
        if attributes[i].0 == *name {
            proof {
                assert(spec_attr_lookup(attributes@.skip(i as int), name@) == Some(
                    attributes@[i as int].1,
                ));
            }
            return Some(attributes[i].1);
        }
        proof {
            assert(spec_attr_lookup(attributes@.skip(i as int), name@) == spec_attr_lookup(
                attributes@.skip(i as int).drop_first(),
                name@,
            ));
            assert(attributes@.skip(i as int).drop_first() =~= attributes@.skip(i as int + 1));
        }
        i = i + 1;
    }
    proof {
        assert(attributes@.skip(n as int).len() == 0);
    }
    None
}

} // verus!
