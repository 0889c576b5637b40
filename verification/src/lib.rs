//! Conversion between statically typed record values and a dynamic,
//! self-describing representation: a tagged-union value type together with a
//! mapping from field name to value, with per-field type validation on the
//! way back.

pub mod codegen;
pub mod convert;
pub mod error;
pub mod record;
pub mod records;
pub mod strmap;
pub mod value;

pub use codegen::{FieldDef, FieldsShape, RecordPlan, TypeShape, derive_hash_map_param};
pub use convert::Converter;
pub use error::StructMapError;
pub use record::{ToHashMap, record_to_field_value, record_to_primitive};
pub use records::{Foo, Profile};
pub use strmap::StrMap;
pub use value::FieldValue;
