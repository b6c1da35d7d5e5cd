//! The errors of generation.

use vstd::prelude::*;
use vstd::string::*;

verus! {

/// An invalid [`StructOptions`](crate::options::StructOptions) or
/// [`EnumOptions`](crate::options::EnumOptions) value.
#[derive(Debug)]
pub enum OptionsError {
    /// The name of the struct or enum is not a valid identifier.
    InvalidStructName(String),
    /// The name of the constant is not a valid identifier.
    InvalidConstName(String),
}

/// The model of an [`OptionsError`].
pub ghost enum OptionsErrorModel {
    InvalidStructName(Seq<char>),
    InvalidConstName(Seq<char>),
}

impl View for OptionsError {
    type V = OptionsErrorModel;

    open spec fn view(&self) -> OptionsErrorModel {
        match self {
            OptionsError::InvalidStructName(name) => OptionsErrorModel::InvalidStructName(name@),
            OptionsError::InvalidConstName(name) => OptionsErrorModel::InvalidConstName(name@),
        }
    }
}

/// What an options error says.
pub open spec fn options_error_text(error: OptionsErrorModel) -> Seq<char> {
    match error {
        OptionsErrorModel::InvalidStructName(name) => "Invalid name for a struct: `"@ + name + "`."@,
        OptionsErrorModel::InvalidConstName(name) => "Invalid name for a const: `"@ + name + "`."@,
    }
}

impl OptionsError {
    /// What the error says, for a reader.
    pub fn message(&self) -> (r: String)
        ensures
            r@ == options_error_text(self@),
    {
        match self {
            OptionsError::InvalidStructName(name) => {
                let mut out = "Invalid name for a struct: `".to_owned();
                out.append(name.as_str());
                out.append("`.");
                out
            },
            OptionsError::InvalidConstName(name) => {
                let mut out = "Invalid name for a const: `".to_owned();
                out.append(name.as_str());
                out.append("`.");
                out
            },
        }
    }
}

/// An error that stops code generation.
#[derive(Debug)]
pub enum GenerationError {
    /// The format of the input is not given and cannot be told from a file
    /// name's extension.
    UnknownInputFormat(String),
    /// A field's name is not a valid identifier.
    InvalidFieldName(String),
    /// A key that is to name an enum variant is not a valid identifier.
    InvalidVariantName(String),
    /// The array under this key has elements of different types.
    HeterogenousArray(String),
    /// Dynamic loading functions were asked for, but the source came
    /// without the path of a file.
    MissingFilePath,
    /// The input could not be parsed.
    DeserializationFailed(String),
    /// The options are invalid.
    StructOptions(OptionsError),
}

/// The model of a [`GenerationError`].
pub ghost enum GenerationErrorModel {
    UnknownInputFormat(Seq<char>),
    InvalidFieldName(Seq<char>),
    InvalidVariantName(Seq<char>),
    HeterogenousArray(Seq<char>),
    MissingFilePath,
    DeserializationFailed(Seq<char>),
    StructOptions(OptionsErrorModel),
}

impl View for GenerationError {
    type V = GenerationErrorModel;

    open spec fn view(&self) -> GenerationErrorModel {
        match self {
            GenerationError::UnknownInputFormat(s) => GenerationErrorModel::UnknownInputFormat(s@),
            GenerationError::InvalidFieldName(s) => GenerationErrorModel::InvalidFieldName(s@),
            GenerationError::InvalidVariantName(s) => GenerationErrorModel::InvalidVariantName(s@),
            GenerationError::HeterogenousArray(s) => GenerationErrorModel::HeterogenousArray(s@),
            GenerationError::MissingFilePath => GenerationErrorModel::MissingFilePath,
            GenerationError::DeserializationFailed(s) => GenerationErrorModel::DeserializationFailed(
                s@,
            ),
            GenerationError::StructOptions(e) => GenerationErrorModel::StructOptions(e@),
        }
    }
}

/// What a generation error says.
pub open spec fn generation_error_text(error: GenerationErrorModel) -> Seq<char> {
    match error {
        GenerationErrorModel::UnknownInputFormat(name) => "Unknown input format: `"@ + name
            + "`. (Maybe you need to enable the right feature?)"@,
        GenerationErrorModel::InvalidFieldName(name) => "Invalid field name: `"@ + name + "`."@,
        GenerationErrorModel::InvalidVariantName(name) => "Invalid variant name: `"@ + name + "`."@,
        GenerationErrorModel::HeterogenousArray(key) => "Array under key `"@ + key
            + "` has elements of different types. Arrays must be homogenous."@,
        GenerationErrorModel::MissingFilePath =>
            "Cannot generate dynamic loading functions without a filename.\n(Generate struct from a file, set generate_load_fns: false, or set dynamic_loading: DynamicLoading::Never to fix.)"@,
        GenerationErrorModel::DeserializationFailed(message) => "Deserialization failed: "@
            + message,
        GenerationErrorModel::StructOptions(inner) => "Invalid options error: "@
            + options_error_text(inner),
    }
}

impl GenerationError {
    /// What the error says, for a reader.
    pub fn message(&self) -> (r: String)
        ensures
            r@ == generation_error_text(self@),
    {
        match self {
            GenerationError::UnknownInputFormat(name) => {
                let mut out = "Unknown input format: `".to_owned();
                out.append(name.as_str());
                out.append("`. (Maybe you need to enable the right feature?)");
                out
            },
            GenerationError::InvalidFieldName(name) => {
                let mut out = "Invalid field name: `".to_owned();
                out.append(name.as_str());
                out.append("`.");
                out
            },
            GenerationError::InvalidVariantName(name) => {
                let mut out = "Invalid variant name: `".to_owned();
                out.append(name.as_str());
                out.append("`.");
                out
            },
            GenerationError::HeterogenousArray(key) => {
                let mut out = "Array under key `".to_owned();
                out.append(key.as_str());
                out.append("` has elements of different types. Arrays must be homogenous.");
                out
            },
            GenerationError::MissingFilePath => {
                "Cannot generate dynamic loading functions without a filename.\n(Generate struct from a file, set generate_load_fns: false, or set dynamic_loading: DynamicLoading::Never to fix.)".to_owned()
            },
            GenerationError::DeserializationFailed(message) => {
                let mut out = "Deserialization failed: ".to_owned();
                out.append(message.as_str());
                out
            },
            GenerationError::StructOptions(inner) => {
                let mut out = "Invalid options error: ".to_owned();
                out.append(inner.message().as_str());
                out
            },
        }
    }
}

impl From<OptionsError> for GenerationError {
    fn from(error: OptionsError) -> (r: GenerationError) {
        GenerationError::StructOptions(error)
    }
}

impl vstd::std_specs::convert::FromSpecImpl<OptionsError> for GenerationError {
    open spec fn obeys_from_spec() -> bool {
        true
    }

    open spec fn from_spec(error: OptionsError) -> GenerationError {
        GenerationError::StructOptions(error)
    }
}

/// `std::io::Error`: the error of reading or writing a file, carried
/// through as it is.
#[verifier::external_type_specification]
#[verifier::external_body]
pub struct ExIoError(std::io::Error);

/// An error of reading, generating or writing: either the files could not
/// be read or written, or the generation failed.
#[derive(Debug)]
pub enum Error {
    /// The generation failed.
    Generation(GenerationError),
    /// A file could not be read or written.
    IO(std::io::Error),
}

impl From<GenerationError> for Error {
    fn from(error: GenerationError) -> (r: Error) {
        Error::Generation(error)
    }
}

impl vstd::std_specs::convert::FromSpecImpl<GenerationError> for Error {
    open spec fn obeys_from_spec() -> bool {
        true
    }

    open spec fn from_spec(error: GenerationError) -> Error {
        Error::Generation(error)
    }
}

impl From<std::io::Error> for Error {
    fn from(error: std::io::Error) -> (r: Error) {
        Error::IO(error)
    }
}

impl vstd::std_specs::convert::FromSpecImpl<std::io::Error> for Error {
    open spec fn obeys_from_spec() -> bool {
        true
    }

    open spec fn from_spec(error: std::io::Error) -> Error {
        Error::IO(error)
    }
}

} // verus!
