//! Scalar data types for vertex attributes, with their widths and the
//! numeric codes the graphics device uses for them.

use vstd::prelude::*;

verus! {

/// A scalar type a vertex attribute component can have.
#[derive(Clone, Copy, Debug, PartialEq, Eq, Hash, Structural)]
pub enum DataType {
    Byte,
    UnsignedByte,
    Short,
    UnsignedShort,
    Int,
    UnsignedInt,
    Float,
}

impl DataType {
    /// The device's numeric code for this scalar type.
    pub open spec fn spec_gl_code(self) -> u32 {
        match self {
            DataType::Byte => 0x1400,
            DataType::UnsignedByte => 0x1401,
            DataType::Short => 0x1402,
            DataType::UnsignedShort => 0x1403,
            DataType::Int => 0x1404,
            DataType::UnsignedInt => 0x1405,
            DataType::Float => 0x1406,
        }
    }

    /// Width of one scalar of this type, in bytes.
    pub open spec fn spec_size(self) -> i32 {
        match self {
            DataType::Byte | DataType::UnsignedByte => 1,
            DataType::Short | DataType::UnsignedShort => 2,
            DataType::Int | DataType::UnsignedInt => 4,
            DataType::Float => 4,
        }
    }

    pub fn gl_code(&self) -> (r: u32)
        ensures
            r == self.spec_gl_code(),
    {
        match self {
            DataType::Byte => 0x1400,
            DataType::UnsignedByte => 0x1401,
            DataType::Short => 0x1402,
            DataType::UnsignedShort => 0x1403,
            DataType::Int => 0x1404,
            DataType::UnsignedInt => 0x1405,
            DataType::Float => 0x1406,
        }
    }

    /// The scalar type for a device code, if the code names one.
    pub fn from_gl_code(value: u32) -> (r: Option<DataType>)
        ensures
            match r {
                Some(d) => d.spec_gl_code() == value,
                None => forall|d: DataType| d.spec_gl_code() != value,
            },
    {
        match value {
            0x1400 => Some(DataType::Byte),
            0x1401 => Some(DataType::UnsignedByte),
            0x1402 => Some(DataType::Short),
            0x1403 => Some(DataType::UnsignedShort),
            0x1404 => Some(DataType::Int),
            0x1405 => Some(DataType::UnsignedInt),
            0x1406 => Some(DataType::Float),
            _ => None,
        }
    }

    pub fn size(&self) -> (r: i32)
        ensures
            r == self.spec_size(),
    {
        match self {
            DataType::Byte | DataType::UnsignedByte => 1,
            DataType::Short | DataType::UnsignedShort => 2,
            DataType::Int | DataType::UnsignedInt => 4,
            DataType::Float => 4,
        }
    }
}

/// A scalar type together with a component count in `1..=4`, as in the
/// shading language's scalar and `vec2`/`vec3`/`vec4` attribute types.
#[derive(Clone, Copy, Debug, PartialEq, Eq, Hash, Structural)]
pub struct SizedDataType {
    pub data_type: DataType,
    pub size: i32,
}

impl SizedDataType {
    pub open spec fn wf(self) -> bool {
        1 <= self.size <= 4
    }

    pub open spec fn spec_data_type(self) -> DataType {
        self.data_type
    }

    pub open spec fn spec_size(self) -> i32 {
        self.size
    }

    /// Total width in bytes: scalar width times component count.
    pub open spec fn spec_byte_size(self) -> int {
        self.data_type.spec_size() * self.size
    }

    pub fn new(data_type: DataType, size: i32) -> (r: SizedDataType)
        requires
            1 <= size <= 4,
        ensures
            r == (SizedDataType { data_type, size }),
            r.wf(),
    {
        SizedDataType { data_type, size }
    }

    pub fn byte_size(&self) -> (r: i32)
        requires
            self.wf(),
        ensures
            r == self.spec_byte_size(),
    {
        self.data_type.size() * self.size
    }

    pub fn size(&self) -> (r: i32)
        ensures
            r == self.spec_size(),
    {
        self.size
    }

    pub fn data_type(&self) -> (r: DataType)
        ensures
            r == self.spec_data_type(),
    {
        self.data_type
    }
}

/// Scalar types that can stand directly as a one-component attribute.
pub trait AsSizedDataType {
    fn as_sized_data_type() -> SizedDataType;
}

impl AsSizedDataType for i32 {
    fn as_sized_data_type() -> (r: SizedDataType) {
        SizedDataType::new(DataType::Int, 1)
    }
}

impl AsSizedDataType for u32 {
    fn as_sized_data_type() -> (r: SizedDataType) {
        SizedDataType::new(DataType::UnsignedInt, 1)
    }
}

impl AsSizedDataType for i16 {
    fn as_sized_data_type() -> (r: SizedDataType) {
        SizedDataType::new(DataType::Short, 1)
    }
}

impl AsSizedDataType for u16 {
    fn as_sized_data_type() -> (r: SizedDataType) {
        SizedDataType::new(DataType::UnsignedShort, 1)
    }
}

impl AsSizedDataType for u8 {
    fn as_sized_data_type() -> (r: SizedDataType) {
        SizedDataType::new(DataType::UnsignedByte, 1)
    }
}

impl AsSizedDataType for i8 {
    fn as_sized_data_type() -> (r: SizedDataType) {
        SizedDataType::new(DataType::Byte, 1)
    }
}

/// An attribute or uniform type as the device reports it from program
/// reflection, including the vector and matrix forms.
#[derive(Clone, Copy, Debug, PartialEq, Eq, Structural)]
pub enum GlSizedDataType {
    Byte,
    UnsignedByte,
    Short,
    UnsignedShort,
    Int,
    UnsignedInt,
    Float,
    FloatVec2,
    FloatVec3,
    FloatVec4,
    IntVec2,
    IntVec3,
    IntVec4,
    Bool,
    BoolVec2,
    BoolVec3,
    BoolVec4,
    FloatMat2,
    FloatMat3,
    FloatMat4,
    Sampler2D,
    SamplerCube,
}

impl GlSizedDataType {
    /// The device's numeric code for this reflected type.
    pub open spec fn spec_gl_code(self) -> u32 {
        match self {
            GlSizedDataType::Byte => 0x1400,
            GlSizedDataType::UnsignedByte => 0x1401,
            GlSizedDataType::Short => 0x1402,
            GlSizedDataType::UnsignedShort => 0x1403,
            GlSizedDataType::Int => 0x1404,
            GlSizedDataType::UnsignedInt => 0x1405,
            GlSizedDataType::Float => 0x1406,
            GlSizedDataType::FloatVec2 => 0x8B50,
            GlSizedDataType::FloatVec3 => 0x8B51,
            GlSizedDataType::FloatVec4 => 0x8B52,
            GlSizedDataType::IntVec2 => 0x8B53,
            GlSizedDataType::IntVec3 => 0x8B54,
            GlSizedDataType::IntVec4 => 0x8B55,
            GlSizedDataType::Bool => 0x8B56,
            GlSizedDataType::BoolVec2 => 0x8B57,
            GlSizedDataType::BoolVec3 => 0x8B58,
            GlSizedDataType::BoolVec4 => 0x8B59,
            GlSizedDataType::FloatMat2 => 0x8B5A,
            GlSizedDataType::FloatMat3 => 0x8B5B,
            GlSizedDataType::FloatMat4 => 0x8B5C,
            GlSizedDataType::Sampler2D => 0x8B5E,
            GlSizedDataType::SamplerCube => 0x8B60,
        }
    }

    /// Whether this reflected type has an attribute-pointer form: a scalar
    /// or a float vector, as opposed to bools, matrices and samplers.
    pub open spec fn spec_supported(self) -> bool {
        match self {
            GlSizedDataType::Float
            | GlSizedDataType::FloatVec2
            | GlSizedDataType::FloatVec3
            | GlSizedDataType::FloatVec4
            | GlSizedDataType::Int
            | GlSizedDataType::UnsignedInt => true,
            _ => false,
        }
    }

    /// The scalar type and component count of a supported reflected type.
    pub open spec fn spec_as_sized_type(self) -> SizedDataType {
        match self {
            GlSizedDataType::Float => SizedDataType { data_type: DataType::Float, size: 1 },
            GlSizedDataType::FloatVec2 => SizedDataType { data_type: DataType::Float, size: 2 },
            GlSizedDataType::FloatVec3 => SizedDataType { data_type: DataType::Float, size: 3 },
            GlSizedDataType::FloatVec4 => SizedDataType { data_type: DataType::Float, size: 4 },
            GlSizedDataType::Int => SizedDataType { data_type: DataType::Int, size: 1 },
            GlSizedDataType::UnsignedInt => SizedDataType {
                data_type: DataType::UnsignedInt,
                size: 1,
            },
            _ => SizedDataType { data_type: DataType::Float, size: 1 },
        }
    }

    pub fn from_gl_code(value: u32) -> (r: Option<GlSizedDataType>)
        ensures
            match r {
                Some(d) => d.spec_gl_code() == value,
                None => forall|d: GlSizedDataType| d.spec_gl_code() != value,
            },
    {
        match value {
            0x1400 => Some(GlSizedDataType::Byte),
            0x1401 => Some(GlSizedDataType::UnsignedByte),
            0x1402 => Some(GlSizedDataType::Short),
            0x1403 => Some(GlSizedDataType::UnsignedShort),
            0x1404 => Some(GlSizedDataType::Int),
            0x1405 => Some(GlSizedDataType::UnsignedInt),
            0x1406 => Some(GlSizedDataType::Float),
            0x8B50 => Some(GlSizedDataType::FloatVec2),
            0x8B51 => Some(GlSizedDataType::FloatVec3),
            0x8B52 => Some(GlSizedDataType::FloatVec4),
            0x8B53 => Some(GlSizedDataType::IntVec2),
            0x8B54 => Some(GlSizedDataType::IntVec3),
            0x8B55 => Some(GlSizedDataType::IntVec4),
            0x8B56 => Some(GlSizedDataType::Bool),
            0x8B57 => Some(GlSizedDataType::BoolVec2),
            0x8B58 => Some(GlSizedDataType::BoolVec3),
            0x8B59 => Some(GlSizedDataType::BoolVec4),
            0x8B5A => Some(GlSizedDataType::FloatMat2),
            0x8B5B => Some(GlSizedDataType::FloatMat3),
            0x8B5C => Some(GlSizedDataType::FloatMat4),
            0x8B5E => Some(GlSizedDataType::Sampler2D),
            0x8B60 => Some(GlSizedDataType::SamplerCube),
            _ => None,
        }
    }

    pub fn supported(&self) -> (r: bool)
        ensures
            r == self.spec_supported(),
    {
        match self {
            GlSizedDataType::Float
            | GlSizedDataType::FloatVec2
            | GlSizedDataType::FloatVec3
            | GlSizedDataType::FloatVec4
            | GlSizedDataType::Int
            | GlSizedDataType::UnsignedInt => true,
            _ => false,
        }
    }

    pub fn as_sized_type(&self) -> (r: SizedDataType)
        requires
            self.spec_supported(),
        ensures
            r == self.spec_as_sized_type(),
            r.wf(),
    {
        match self {
            GlSizedDataType::Float => SizedDataType::new(DataType::Float, 1),
            GlSizedDataType::FloatVec2 => SizedDataType::new(DataType::Float, 2),
            GlSizedDataType::FloatVec3 => SizedDataType::new(DataType::Float, 3),
            GlSizedDataType::FloatVec4 => SizedDataType::new(DataType::Float, 4),
            GlSizedDataType::Int => SizedDataType::new(DataType::Int, 1),
            _ => SizedDataType::new(DataType::UnsignedInt, 1),
        }
    }
}

/// The reflected type of a uniform slot; the same code space as
/// [`GlSizedDataType`].
#[derive(Clone, Copy, Debug, PartialEq, Eq, Structural)]
pub enum UniformType {
    Byte,
    UnsignedByte,
    Short,
    UnsignedShort,
    Int,
    UnsignedInt,
    Float,
    FloatVec2,
    FloatVec3,
    FloatVec4,
    IntVec2,
    IntVec3,
    IntVec4,
    Bool,
    BoolVec2,
    BoolVec3,
    BoolVec4,
    FloatMat2,
    FloatMat3,
    FloatMat4,
    Sampler2D,
    SamplerCube,
}

impl UniformType {
    /// Whether the slot's type has a scalar-and-count form.
    pub open spec fn spec_supported(self) -> bool {
        match self {
            UniformType::Float
            | UniformType::FloatVec2
            | UniformType::FloatVec3
            | UniformType::FloatVec4
            | UniformType::Int
            | UniformType::UnsignedInt => true,
            _ => false,
        }
    }

    pub open spec fn spec_as_sized_type(self) -> SizedDataType {
        match self {
            UniformType::Float => SizedDataType { data_type: DataType::Float, size: 1 },
            UniformType::FloatVec2 => SizedDataType { data_type: DataType::Float, size: 2 },
            UniformType::FloatVec3 => SizedDataType { data_type: DataType::Float, size: 3 },
            UniformType::FloatVec4 => SizedDataType { data_type: DataType::Float, size: 4 },
            UniformType::Int => SizedDataType { data_type: DataType::Int, size: 1 },
            UniformType::UnsignedInt => SizedDataType { data_type: DataType::UnsignedInt, size: 1 },
            _ => SizedDataType { data_type: DataType::Float, size: 1 },
        }
    }

    pub fn as_sized_type(&self) -> (r: SizedDataType)
        requires
            self.spec_supported(),
        ensures
            r == self.spec_as_sized_type(),
            r.wf(),
    {
        match self {
            UniformType::Float => SizedDataType::new(DataType::Float, 1),
            UniformType::FloatVec2 => SizedDataType::new(DataType::Float, 2),
            UniformType::FloatVec3 => SizedDataType::new(DataType::Float, 3),
            UniformType::FloatVec4 => SizedDataType::new(DataType::Float, 4),
            UniformType::Int => SizedDataType::new(DataType::Int, 1),
            _ => SizedDataType::new(DataType::UnsignedInt, 1),
        }
    }
}

} // verus!
