//! Type forms of the WebAssembly binary format and their bit-exact encoding
//! in the type section: value, reference, storage and block types, function
//! signatures, struct and array layouts, and fluent builders for them.

pub mod codec;
pub mod types;
pub mod aggregate;
pub mod builder;
pub mod proofs;

pub use codec::{Error, Reader};
pub use types::{NumType, RefType, ValueType, StorageType, BlockType};
pub use aggregate::{FieldType, StructType, ArrayType, FunctionType, Type};
pub use builder::{ValueTypeBuilder, OptionalValueTypeBuilder, ValueTypesBuilder};
