use vstd::prelude::*;

use crate::error::StructMapError;

verus! {

/// Name and declared type of one record field, both as source text, as the
/// type-declaration facility hands them to the generator.
#[derive(Debug, PartialEq, Eq)]
pub struct FieldDef {
    pub name: String,
    pub ty: String,
}

/// Shape of the fields of an aggregate declaration.
#[derive(Debug, PartialEq, Eq)]
pub enum FieldsShape {
    /// Named fields, in declaration order: the only eligible shape.
    Named(Vec<FieldDef>),
    /// Positional (unnamed) fields.
    Unnamed,
    /// No fields at all.
    Unit,
}

/// Shape of a type declaration handed to the generator.
#[derive(Debug, PartialEq, Eq)]
pub enum TypeShape {
    Struct(FieldsShape),
    Enum,
    Union,
}

/// The generation plan for an eligible record: its name and its fields in
/// declaration order. The flatten body inserts each field under its literal
/// name; the build body looks each field up by name, failing when it is
/// missing or does not convert, and constructs the instance in declaration
/// order.
#[derive(Debug, PartialEq, Eq)]
pub struct RecordPlan {
    pub name: String,
    pub fields: Vec<FieldDef>,
}

/// Decides whether the mapping capability can be generated for a type
/// declaration: only a struct with named fields is eligible, and the plan
/// keeps its fields in declaration order; an enum, a union, a positional
/// struct and a unit struct are each rejected with an error naming the
/// offending shape.
pub fn derive_hash_map_param(name: String, shape: TypeShape) -> (r: Result<
    RecordPlan,
    StructMapError,
>)
    ensures
        match r {
            Ok(plan) => shape matches TypeShape::Struct(FieldsShape::Named(fields)) && plan.name
                == name && plan.fields == fields,
            Err(e) => match shape {
                TypeShape::Enum => e@ == "invalid type: Enum"@,
                TypeShape::Union => e@ == "invalid type: Union"@,
                TypeShape::Struct(FieldsShape::Unnamed) => e@ == "invalid type: Unnamed"@,
                TypeShape::Struct(FieldsShape::Unit) => e@ == "invalid type: Unit"@,
                TypeShape::Struct(FieldsShape::Named(_)) => false,
            },
        },
{
    match shape {
        TypeShape::Enum => Err(StructMapError::new("invalid type: Enum")),
        TypeShape::Union => Err(StructMapError::new("invalid type: Union")),
        TypeShape::Struct(FieldsShape::Unnamed) => Err(StructMapError::new(
            "invalid type: Unnamed",
        )),
        TypeShape::Struct(FieldsShape::Unit) => Err(StructMapError::new("invalid type: Unit")),
        TypeShape::Struct(FieldsShape::Named(fields)) => Ok(RecordPlan { name, fields }),
    }
}

} // verus!
