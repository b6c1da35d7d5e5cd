//! The generation of struct code from a configuration document.

use vstd::prelude::*;
use vstd::string::*;
use crate::error::{GenerationError, GenerationErrorModel};
use crate::format::{
    format_of_extension,
    format_result_model,
    known_extension,
    plain_extension,
    Format,
};
use crate::generation::{
    all_derives,
    declarations_text,
    derive_text,
    generate_structs,
    record_text,
    struct_value_string,
};
use crate::json_parsing::{json_document, json_record, parse_json};
use crate::load_fns::{dynamic_load_impl, dynamic_load_text, static_load_impl, static_load_text};
use crate::options::{
    const_name_text,
    names_fault,
    DynamicLoading,
    FloatSize,
    IntSize,
    StructOptions,
    StructOptionsModel,
};
use crate::parsing::record_result_model;
use crate::ron_parsing::{parse_ron, ron_parsed_record};
use crate::toml_parsing::{parse_toml, toml_document, toml_record};
use crate::validation::{record_fault, validate_struct};
use crate::value::{
    lemma_record_fields,
    lemma_record_is_ordered,
    record_is_ordered,
    GenericStruct,
    RecordModel,
};
use crate::yaml_parsing::{parse_yaml, yaml_document, yaml_record};

verus! {

/// The record that a document in the given format stands for, as the
/// format's parser and adapter make it.
pub open spec fn parsed_record(format: Format, source: Seq<char>, ints: IntSize, floats: FloatSize) -> Result<
    RecordModel,
    GenerationErrorModel,
> {
    match format {
        Format::Json => json_record(json_document(source), ints, floats),
        Format::Ron => ron_parsed_record(source, ints, floats),
        Format::Toml => toml_record(toml_document(source), ints, floats),
        Format::Yaml => yaml_record(yaml_document(source), ints, floats),
    }
}

/// What every generated file of structs starts with.
pub open spec fn struct_header() -> Seq<char> {
    "#![cfg_attr(rustfmt, rustfmt_skip)]\n#![allow(dead_code)]\n\nuse std::borrow::Cow;\n\n"@
}

/// Whether the constant is generated: where it is asked for, and where
/// load functions that can fall back on it are.
pub open spec fn const_wanted(options: StructOptionsModel) -> bool {
    options.generate_const || (options.generate_load_fns && options.dynamic_loading
        != DynamicLoading::Always)
}

/// The constant that holds the document's values.
pub open spec fn const_text(
    const_name: Seq<char>,
    struct_name: Seq<char>,
    config: RecordModel,
    max_array_size: nat,
) -> Seq<char> {
    "pub const "@ + const_name + ": "@ + struct_name + " = "@ + record_text(
        config,
        0,
        max_array_size,
    ) + ";\n"@
}

/// The load functions: those that read the file, those that hand out the
/// constant, or both, each for its build. Those that read the file need
/// the file's path.
pub open spec fn load_fns_text(
    format: Format,
    options: StructOptionsModel,
    filepath: Option<Seq<char>>,
) -> Result<Seq<char>, GenerationErrorModel> {
    let const_name = const_name_text(options.struct_name, options.const_name);
    let static_impl = static_load_text(options.struct_name, const_name);
    match options.dynamic_loading {
        DynamicLoading::Never => Ok(static_impl),
        DynamicLoading::Always => match filepath {
            Some(path) => Ok(dynamic_load_text(format, options.struct_name, path)),
            None => Err(GenerationErrorModel::MissingFilePath),
        },
        DynamicLoading::DebugOnly => match filepath {
            Some(path) => Ok(
                "\n#[cfg(debug_assertions)]\n"@ + dynamic_load_text(
                    format,
                    options.struct_name,
                    path,
                ) + "\n\n#[cfg(not(debug_assertions))]\n"@ + static_impl + "\n"@,
            ),
            None => Err(GenerationErrorModel::MissingFilePath),
        },
    }
}

/// The code generated for a parsed document.
///
/// The root record takes the name that the options give. It is checked;
/// the first fault is the error. The code is the header, the declarations
/// of the record and of the records nested in it, the constant where it
/// is wanted, and the load functions where they are asked for.
pub open spec fn struct_code(
    root: RecordModel,
    format: Format,
    options: StructOptionsModel,
    filepath: Option<Seq<char>>,
) -> Result<Seq<char>, GenerationErrorModel> {
    let config = RecordModel { name: options.struct_name, fields: root.fields };
    match record_fault(config) {
        Some(fault) => Err(fault),
        None => {
            let declarations = struct_header() + declarations_text(
                config,
                derive_text(
                    all_derives(
                        options.derived_traits,
                        options.serde_support,
                        options.use_serde_derive_crate,
                    ),
                ),
                options.max_array_size,
            );
            let with_const = if const_wanted(options) {
                declarations + const_text(
                    const_name_text(options.struct_name, options.const_name),
                    options.struct_name,
                    config,
                    options.max_array_size,
                )
            } else {
                declarations
            };
            if options.generate_load_fns {
                match load_fns_text(format, options, filepath) {
                    Ok(load_fns) => Ok(with_const + load_fns),
                    Err(error) => Err(error),
                }
            } else {
                Ok(with_const)
            }
        },
    }
}

/// The code generated from a source text in a known format: the options
/// are checked first, then the text is parsed, then code is generated for
/// the parsed document.
pub open spec fn struct_code_of_source(
    format: Format,
    source: Seq<char>,
    options: StructOptionsModel,
    filepath: Option<Seq<char>>,
) -> Result<Seq<char>, GenerationErrorModel> {
    match names_fault(options.struct_name, options.const_name) {
        Some(fault) => Err(GenerationErrorModel::StructOptions(fault)),
        None => match parsed_record(
            format,
            source,
            options.default_int_size,
            options.default_float_size,
        ) {
            Ok(root) => struct_code(root, format, options, filepath),
            Err(error) => Err(error),
        },
    }
}

/// The code generated from a source text whose format is still to be
/// found: the one that the options give, else the one that `extension`
/// stands for, the extension of the file's name.
pub open spec fn struct_code_by_extension(
    extension: Option<Seq<char>>,
    source: Seq<char>,
    options: StructOptionsModel,
    filepath: Option<Seq<char>>,
) -> Result<Seq<char>, GenerationErrorModel> {
    match names_fault(options.struct_name, options.const_name) {
        Some(fault) => Err(GenerationErrorModel::StructOptions(fault)),
        None => match options.format {
            Some(format) => struct_code_of_source(format, source, options, filepath),
            None => match format_of_extension(extension) {
                Ok(format) => struct_code_of_source(format, source, options, filepath),
                Err(error) => Err(error),
            },
        },
    }
}

/// The model of generated code or an error.
pub open spec fn code_result_model(r: Result<String, GenerationError>) -> Result<
    Seq<char>,
    GenerationErrorModel,
> {
    match r {
        Ok(code) => Ok(code@),
        Err(error) => Err(error@),
    }
}

/// The model of an optional borrowed text.
pub open spec fn optional_str(text: Option<&str>) -> Option<Seq<char>> {
    match text {
        Some(t) => Some(t@),
        None => None,
    }
}

fn load_fns_string(format: Format, options: &StructOptions, filepath: Option<&str>) -> (r: Result<
    String,
    GenerationError,
>)
    ensures
        code_result_model(r) == load_fns_text(format, options@, optional_str(filepath)),
{
    let struct_name = options.struct_name.as_str();
    let const_name = options.real_const_name();
    let static_impl = static_load_impl(struct_name, const_name.as_str());
    match options.dynamic_loading {
        DynamicLoading::Never => Ok(static_impl),
        DynamicLoading::Always => match filepath {
            Some(path) => Ok(dynamic_load_impl(format, struct_name, path)),
            None => Err(GenerationError::MissingFilePath),
        },
        DynamicLoading::DebugOnly => match filepath {
            Some(path) => {
                let mut out = "\n#[cfg(debug_assertions)]\n".to_owned();
                out.append(dynamic_load_impl(format, struct_name, path).as_str());
                out.append("\n\n#[cfg(not(debug_assertions))]\n");
                out.append(static_impl.as_str());
                out.append("\n");
                Ok(out)
            },
            None => Err(GenerationError::MissingFilePath),
        },
    }
}

/// Generates the code for a parsed document: the root record is renamed as
/// the options say and checked, and the declarations, the constant and
/// the load functions are written as far as the options want them.
pub fn generate_struct_code(
    root: GenericStruct,
    format: Format,
    options: &StructOptions,
    filepath: Option<&str>,
) -> (r: Result<String, GenerationError>)
    requires
        record_is_ordered(root@),
    ensures
        code_result_model(r) == struct_code(root@, format, options@, optional_str(filepath)),
{
    let mut config = root;
    proof {
        lemma_record_fields(config);
    }
    config.struct_name = options.struct_name.clone();
    proof {
        lemma_record_fields(config);
        lemma_record_fields(root);
    }
    assert(config@ == (RecordModel { name: options@.struct_name, fields: root@.fields }));
    proof {
        lemma_record_is_ordered(root@);
        lemma_record_is_ordered(config@);
    }

    match validate_struct(&config) {
        Err(error) => {
            return Err(error);
        },
        Ok(_) => {},
    }

    let mut code =
        "#![cfg_attr(rustfmt, rustfmt_skip)]\n#![allow(dead_code)]\n\nuse std::borrow::Cow;\n\n".to_owned();
    code.append(generate_structs(&config, options).as_str());

    let requires_const = options.generate_load_fns && match options.dynamic_loading {
        DynamicLoading::Always => false,
        _ => true,
    };
    assert((options.generate_const || requires_const) == const_wanted(options@));

    if options.generate_const || requires_const {
        let mut constant = "pub const ".to_owned();
        constant.append(options.real_const_name().as_str());
        constant.append(": ");
        constant.append(options.struct_name.as_str());
        constant.append(" = ");
        constant.append(struct_value_string(&config, 0, options.max_array_size).as_str());
        constant.append(";\n");
        code.append(constant.as_str());
    }

    if options.generate_load_fns {
        match load_fns_string(format, options, filepath) {
            Ok(load_fns) => {
                code.append(load_fns.as_str());
            },
            Err(error) => {
                return Err(error);
            },
        }
    }
    Ok(code)
}

fn parse_source(format: Format, source: &str, options: &StructOptions) -> (r: Result<
    GenericStruct,
    GenerationError,
>)
    ensures
        record_result_model(r) == parsed_record(
            format,
            source@,
            options@.default_int_size,
            options@.default_float_size,
        ),
        r matches Ok(record) ==> record_is_ordered(record@),
{
    match format {
        Format::Json => parse_json(source, options),
        Format::Ron => parse_ron(source, options),
        Format::Toml => parse_toml(source, options),
        Format::Yaml => parse_yaml(source, options),
    }
}

/// Generates struct code from a source text in the given format. The
/// format that the options name is not looked at.
pub fn generate_config_from_source_with_filepath(
    format: Format,
    source: &str,
    options: &StructOptions,
    filepath: Option<&str>,
) -> (r: Result<String, GenerationError>)
    ensures
        code_result_model(r) == struct_code_of_source(
            format,
            source@,
            options@,
            optional_str(filepath),
        ),
{
    match options.validate() {
        Err(error) => {
            return Err(GenerationError::StructOptions(error));
        },
        Ok(_) => {},
    }
    match parse_source(format, source, options) {
        Ok(root) => generate_struct_code(root, format, options, filepath),
        Err(error) => Err(error),
    }
}

/// Generates struct code from a source text in the given format, without
/// the path of a file: load functions that read the file cannot be had.
pub fn generate_config_from_source(
    format: Format,
    source: &str,
    options: &StructOptions,
) -> (r: Result<String, GenerationError>)
    ensures
        code_result_model(r) == struct_code_of_source(format, source@, options@, None),
{
    generate_config_from_source_with_filepath(format, source, options, None)
}

/// Generates struct code from a source text and, where there is one, the
/// path of the file it came from.
///
/// The format is the one that the options give; else it is told from the
/// extension of the file's name; without either it is unknown.
pub fn generate_struct_from_source_with_filepath(
    source: &str,
    options: &StructOptions,
    filepath: Option<&str>,
) -> (r: Result<String, GenerationError>)
    ensures
        options@.format is Some ==> code_result_model(r) == struct_code_by_extension(
            None,
            source@,
            options@,
            optional_str(filepath),
        ),
        known_extension(optional_str(filepath)) matches Some(extension) ==> code_result_model(r)
            == struct_code_by_extension(extension, source@, options@, optional_str(filepath)),
        exists|extension: Option<Seq<char>>|
            plain_extension(extension) && code_result_model(r) == struct_code_by_extension(
                extension,
                source@,
                options@,
                optional_str(filepath),
            ),
{
    match options.validate() {
        Err(error) => {
            let r = Err(GenerationError::StructOptions(error));
            assert(plain_extension(None) && code_result_model(r) == struct_code_by_extension(
                None,
                source@,
                options@,
                optional_str(filepath),
            ));
            return r;
        },
        Ok(_) => {},
    }
    let found = Format::choose_for(options.format, filepath);
    let ghost extension: Option<Seq<char>> = if options@.format is Some {
        None
    } else {
        choose|extension: Option<Seq<char>>|
            plain_extension(extension) && format_result_model(found) == format_of_extension(
                extension,
            )
    };
    let r = match found {
        Ok(format) => generate_config_from_source_with_filepath(format, source, options, filepath),
        Err(error) => Err(error),
    };
    assert(plain_extension(extension) && code_result_model(r) == struct_code_by_extension(
        extension,
        source@,
        options@,
        optional_str(filepath),
    ));
    r
}

/// Generates struct code from a source text in the format that the
/// options name. Without a format in the options the format is unknown.
pub fn generate_struct_from_source(source: &str, options: &StructOptions) -> (r: Result<
    String,
    GenerationError,
>)
    ensures
        code_result_model(r) == struct_code_by_extension(None, source@, options@, None),
{
    generate_struct_from_source_with_filepath(source, options, None)
}

/// Generation is repeatable: what is generated from a source depends on
/// the characters of the source, on what the options hold and on the
/// file's path alone.
pub proof fn lemma_struct_generation_is_repeatable(
    first_source: &str,
    second_source: &str,
    first_options: StructOptions,
    second_options: StructOptions,
    filepath: Option<Seq<char>>,
    extension: Option<Seq<char>>,
)
    requires
        first_source@ == second_source@,
        first_options@ == second_options@,
    ensures
        struct_code_by_extension(extension, first_source@, first_options@, filepath)
            == struct_code_by_extension(extension, second_source@, second_options@, filepath),
{
}

/// The code generated for two records that hold the same is the same.
pub proof fn lemma_struct_code_is_repeatable(
    first: GenericStruct,
    second: GenericStruct,
    format: Format,
    options: StructOptions,
    filepath: Option<Seq<char>>,
)
    requires
        first@ == second@,
    ensures
        struct_code(first@, format, options@, filepath) == struct_code(
            second@,
            format,
            options@,
            filepath,
        ),
{
}

} // verus!
