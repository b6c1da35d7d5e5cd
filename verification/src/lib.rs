//! Generates the code of structs and enums from configuration documents.
//!
//! A document in JSON, RON, TOML or YAML is turned into a tree of typed
//! values. From the tree the library writes the declaration of a struct
//! for every record of the document and a constant that holds the
//! document's values; from the keys of a document it writes an enum with
//! one variant for each key.

pub mod enums;
pub mod error;
pub mod files;
pub mod files_enum;
pub mod format;
pub mod generation;
pub mod json_parsing;
pub mod load_fns;
pub mod options;
pub mod parsing;
pub mod ron_guard;
pub mod ron_parsing;
pub mod structs;
pub mod text;
pub mod toml_parsing;
pub mod validation;
pub mod value;
pub mod yaml_parsing;

pub use crate::enums::{
    generate_enum_code,
    generate_enum_from_source,
    generate_enum_from_source_with_filepath,
};
pub use crate::error::{Error, GenerationError, OptionsError};
pub use crate::files_enum::files_enum_from_stems;
pub use crate::format::Format;
pub use crate::options::{
    DynamicLoading,
    EnumOptions,
    FloatSize,
    IntSize,
    SerdeSupport,
    StructOptions,
};
pub use crate::structs::{
    generate_config_from_source,
    generate_config_from_source_with_filepath,
    generate_struct_code,
    generate_struct_from_source,
    generate_struct_from_source_with_filepath,
};
pub use crate::value::{GenericStruct, GenericValue};
