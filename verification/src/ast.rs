use vstd::prelude::*;

verus! {

/// A scalar or named XDR type.
#[derive(Clone, Debug)]
pub enum BasicType {
    U32,
    U64,
    I32,
    I64,
    F32,
    F64,
    Bool,
    String,
    Opaque,
    /// A reference to a named type (struct, union, enum or typedef).
    Ident(String),
}

/// The size of a fixed array, or the bound of a variable one.
#[derive(Clone, Debug)]
pub enum ArraySize {
    /// A literal size.
    Known(u32),
    /// The name of a declared constant.
    Constant(String),
}

/// A field type: a single value, a fixed-size array or a length-prefixed array.
#[derive(Clone, Debug)]
pub enum ArrayType {
    Scalar(BasicType),
    FixedSize(BasicType, ArraySize),
    VariableSize(BasicType, Option<ArraySize>),
}

/// A field of a struct.
#[derive(Clone, Debug)]
pub struct StructField {
    pub field_name: String,
    pub field_value: ArrayType,
    /// True for an optional (`type *name`) field.
    pub is_optional: bool,
}

#[derive(Clone, Debug)]
pub struct Struct {
    pub name: String,
    pub fields: Vec<StructField>,
}

/// The discriminant of a union.
#[derive(Clone, Debug)]
pub struct UnionSwitch {
    pub var_name: String,
    pub var_type: BasicType,
}

/// An arm of a union; several case values may share it (fallthrough).
#[derive(Clone, Debug)]
pub struct UnionCase {
    pub case_values: Vec<String>,
    pub field_name: String,
    pub field_value: ArrayType,
}

/// The `default:` arm of a union that carries data.
#[derive(Clone, Debug)]
pub struct UnionDefault {
    pub field_name: String,
    pub field_value: ArrayType,
}

#[derive(Clone, Debug)]
pub struct Union {
    pub name: String,
    pub switch: UnionSwitch,
    pub cases: Vec<UnionCase>,
    /// Case values whose arm is `void` (`default` among them, if void).
    pub void_cases: Vec<String>,
    pub default: Option<UnionDefault>,
}

#[derive(Clone, Debug)]
pub struct EnumVariant {
    pub name: String,
    /// The value as written in the definition.
    pub value: String,
}

#[derive(Clone, Debug)]
pub struct Enum {
    pub name: String,
    pub variants: Vec<EnumVariant>,
}

/// `typedef target alias;`
#[derive(Clone, Debug)]
pub struct Typedef {
    pub target: BasicType,
    pub alias: BasicType,
}

#[derive(Clone, Debug)]
pub struct Constant {
    pub name: String,
    pub value: String,
}

/// A node of the XDR syntax tree.
#[derive(Debug)]
pub enum Node {
    EOF,
    Root(Vec<Node>),
    Struct(Struct),
    Union(Union),
    Enum(Enum),
    Typedef(Typedef),
    Constant(Constant),
    Ident(String),
    Type(BasicType),
    Option(BasicType),
    UnionDefault(UnionDefault),
    UnionCase(UnionCase),
    UnionDataField(StructField),
    UnionVoid,
    StructDataField(StructField),
    Array(ArrayType),
    EnumVariant(EnumVariant),
    ArrayVariable(String),
    ArrayFixed(String),
}

/// The name a basic type is written with in generated Rust code.
pub open spec fn rust_name(t: BasicType) -> Seq<char> {
    match t {
        BasicType::U32 => "u32"@,
        BasicType::U64 => "u64"@,
        BasicType::I32 => "i32"@,
        BasicType::I64 => "i64"@,
        BasicType::F32 => "f32"@,
        BasicType::F64 => "f64"@,
        BasicType::Bool => "bool"@,
        BasicType::String => "String"@,
        BasicType::Opaque => "Bytes"@,
        BasicType::Ident(name) => name@,
    }
}

/// The element type of an array type.
pub open spec fn element_type(t: ArrayType) -> BasicType {
    match t {
        ArrayType::Scalar(b) => b,
        ArrayType::FixedSize(b, _) => b,
        ArrayType::VariableSize(b, _) => b,
    }
}

impl BasicType {
    /// The name this type is written with in generated Rust code.
    pub fn as_str(&self) -> (s: &str)
        ensures
            s@ == rust_name(*self),
    {
        match self {
            BasicType::U32 => "u32",
            BasicType::U64 => "u64",
            BasicType::I32 => "i32",
            BasicType::I64 => "i64",
            BasicType::F32 => "f32",
            BasicType::F64 => "f64",
            BasicType::Bool => "bool",
            BasicType::String => "String",
            BasicType::Opaque => "Bytes",
            BasicType::Ident(name) => name.as_str(),
        }
    }
}

impl ArrayType {
    /// The element type, whatever the array shape.
    pub fn unwrap_array(&self) -> (b: &BasicType)
        ensures
            *b == element_type(*self),
    {
        match self {
            ArrayType::Scalar(b) => b,
            ArrayType::FixedSize(b, _) => b,
            ArrayType::VariableSize(b, _) => b,
        }
    }
}

} // verus!
