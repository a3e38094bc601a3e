//! Named, typed fields of a per-vertex or per-instance record, as a
//! shader consumes them.

use vstd::prelude::*;

use crate::types::{DataType, SizedDataType};

verus! {

/// One named field of a vertex record: the shader variable it feeds and
/// its scalar type and component count.
#[derive(Clone, Debug)]
pub struct AttributeBinding {
    pub variable_name: String,
    pub kind: SizedDataType,
}

impl AttributeBinding {
    pub open spec fn wf(self) -> bool {
        self.kind.wf()
    }

    pub fn new(name: &str, data_type: DataType, size: i32) -> (r: AttributeBinding)
        requires
            1 <= size <= 4,
        ensures
            r.variable_name@ == name@,
            r.kind == (SizedDataType { data_type, size }),
            r.wf(),
    {
        AttributeBinding { variable_name: name.to_owned(), kind: SizedDataType::new(data_type, size) }
    }
}

impl PartialEq for AttributeBinding {
    fn eq(&self, other: &AttributeBinding) -> (r: bool) {
        self.variable_name == other.variable_name && self.kind == other.kind
    }
}

impl vstd::std_specs::cmp::PartialEqSpecImpl for AttributeBinding {
    open spec fn obeys_eq_spec() -> bool {
        true
    }

    open spec fn eq_spec(&self, other: &AttributeBinding) -> bool {
        self.variable_name@ == other.variable_name@ && self.kind == other.kind
    }
}

/// A record type whose fields can feed vertex attributes; `describe`
/// lists the fields in declared order.
pub trait Attribute {
    fn describe() -> Vec<AttributeBinding>;
}

impl Attribute for () {
    fn describe() -> (r: Vec<AttributeBinding>) {
        Vec::new()
    }
}

/// One named field of a vertex record, under the older name.
#[derive(Clone, Debug)]
pub struct VertexAttributeBinding {
    pub variable_name: String,
    pub kind: SizedDataType,
}

impl VertexAttributeBinding {
    pub fn new(name: &str, data_type: DataType, size: i32) -> (r: VertexAttributeBinding)
        requires
            1 <= size <= 4,
        ensures
            r.variable_name@ == name@,
            r.kind == (SizedDataType { data_type, size }),
    {
        VertexAttributeBinding {
            variable_name: name.to_owned(),
            kind: SizedDataType::new(data_type, size),
        }
    }
}

impl PartialEq for VertexAttributeBinding {
    fn eq(&self, other: &VertexAttributeBinding) -> (r: bool) {
        self.variable_name == other.variable_name && self.kind == other.kind
    }
}

impl vstd::std_specs::cmp::PartialEqSpecImpl for VertexAttributeBinding {
    open spec fn obeys_eq_spec() -> bool {
        true
    }

    open spec fn eq_spec(&self, other: &VertexAttributeBinding) -> bool {
        self.variable_name@ == other.variable_name@ && self.kind == other.kind
    }
}

/// A record type whose fields can feed vertex attributes, under the
/// older name.
pub trait VertexAttribute {
    fn describe() -> Vec<VertexAttributeBinding>;
}

impl VertexAttribute for () {
    fn describe() -> (r: Vec<VertexAttributeBinding>) {
        Vec::new()
    }
}

} // verus!
