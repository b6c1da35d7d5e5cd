//! The generation of enum code from the keys of a configuration document.

use vstd::prelude::*;
use vstd::string::*;
use crate::error::{GenerationError, GenerationErrorModel};
use crate::format::{
    format_of_extension,
    format_result_model,
    known_extension,
    plain_extension,
    Format,
};
use crate::generation::{enum_text, generate_enum};
use crate::options::{names_fault, EnumOptions, EnumOptionsModel};
use crate::parsing::{keys_of_list, keys_result_model};
use crate::structs::{code_result_model, optional_str};
use crate::validation::{is_identifier, valid_identifier};

verus! {

/// The first key, in order, that is no valid identifier.
pub open spec fn first_invalid_key(keys: Seq<Seq<char>>) -> Option<Seq<char>>
    decreases keys.len(),
{
    if keys.len() == 0 {
        None
    } else {
        match first_invalid_key(keys.drop_last()) {
            Some(key) => Some(key),
            None => if is_identifier(keys.last()) {
                None
            } else {
                Some(keys.last())
            },
        }
    }
}

/// An invalid key among the first keys is the first invalid key of all.
pub proof fn lemma_first_invalid_key_prefix(keys: Seq<Seq<char>>, n: int)
    requires
        0 <= n <= keys.len(),
        first_invalid_key(keys.subrange(0, n)) is Some,
    ensures
        first_invalid_key(keys) == first_invalid_key(keys.subrange(0, n)),
    decreases keys.len() - n,
{
    if n < keys.len() {
        let longer = keys.subrange(0, n + 1);
        assert(longer.drop_last() =~= keys.subrange(0, n));
        lemma_first_invalid_key_prefix(keys, n + 1);
    } else {
        assert(keys.subrange(0, n) =~= keys);
    }
}

/// The code of an enum of the given keys: the first key that is no valid
/// identifier is the error; where all are valid, the enum has one variant
/// for each key, in their order.
pub open spec fn enum_code(keys: Seq<Seq<char>>, options: EnumOptionsModel) -> Result<
    Seq<char>,
    GenerationErrorModel,
> {
    match first_invalid_key(keys) {
        Some(key) => Err(GenerationErrorModel::InvalidVariantName(key)),
        None => Ok(enum_text(keys, options)),
    }
}

/// The keys of the map that a document in the given format is, in the
/// order of the text, as the format's parser finds them.
pub open spec fn parsed_keys(format: Format, source: Seq<char>) -> Result<
    Seq<Seq<char>>,
    GenerationErrorModel,
> {
    match format {
        Format::Json => keys_of_list(crate::json_parsing::json_key_list(source)),
        Format::Ron => crate::ron_parsing::ron_parsed_keys(source),
        Format::Toml => keys_of_list(crate::toml_parsing::toml_key_list(source)),
        Format::Yaml => keys_of_list(crate::yaml_parsing::yaml_key_list(source)),
    }
}

/// The enum code generated from a source text whose format is still to be
/// found: the options are checked first; the format is the one that the
/// options give, else the one that `extension` stands for, the extension
/// of the file's name; then the keys are read and the enum is generated.
pub open spec fn enum_code_by_extension(
    extension: Option<Seq<char>>,
    source: Seq<char>,
    options: EnumOptionsModel,
) -> Result<Seq<char>, GenerationErrorModel> {
    match names_fault(options.enum_name, options.all_variants_const) {
        Some(fault) => Err(GenerationErrorModel::StructOptions(fault)),
        None => {
            let format = match options.format {
                Some(format) => Ok(format),
                None => format_of_extension(extension),
            };
            match format {
                Ok(format) => match parsed_keys(format, source) {
                    Ok(keys) => enum_code(keys, options),
                    Err(error) => Err(error),
                },
                Err(error) => Err(error),
            }
        },
    }
}

/// Generates the code of an enum with one variant for each key, after
/// checking that every key is a valid identifier.
pub fn generate_enum_code(keys: &Vec<String>, options: &EnumOptions) -> (r: Result<
    String,
    GenerationError,
>)
    ensures
        code_result_model(r) == enum_code(keys.deep_view(), options@),
{
    let ghost names = keys.deep_view();
    assert(names.subrange(0, 0) =~= Seq::<Seq<char>>::empty());
    let mut i: usize = 0;
    while i < keys.len()
        invariant
            i <= keys.len(),
            names == keys.deep_view(),
            first_invalid_key(names.subrange(0, i as int)) is None,
        decreases keys.len() - i,
    {
        let ghost next = names.subrange(0, i + 1);
        assert(next.drop_last() =~= names.subrange(0, i as int));
        assert(next.last() == keys@[i as int]@);
        if !valid_identifier(keys[i].as_str()) {
            proof {
                lemma_first_invalid_key_prefix(names, i + 1);
            }
            return Err(GenerationError::InvalidVariantName(keys[i].clone()));
        }
        i = i + 1;
    }
    assert(names.subrange(0, i as int) =~= names);
    Ok(generate_enum(keys, options))
}

fn parse_keys(format: Format, source: &str) -> (r: Result<Vec<String>, GenerationError>)
    ensures
        keys_result_model(r) == parsed_keys(format, source@),
{
    match format {
        Format::Json => crate::json_parsing::parse_map_keys(source),
        Format::Ron => crate::ron_parsing::parse_map_keys(source),
        Format::Toml => crate::toml_parsing::parse_map_keys(source),
        Format::Yaml => crate::yaml_parsing::parse_map_keys(source),
    }
}

/// Generates enum code from a source text that holds a map and, where
/// there is one, the path of the file it came from. The variants are the
/// keys of the map, in the order of the text.
///
/// The format is the one that the options give; else it is told from the
/// extension of the file's name; without either it is unknown.
pub fn generate_enum_from_source_with_filepath(
    source: &str,
    options: &EnumOptions,
    filepath: Option<&str>,
) -> (r: Result<String, GenerationError>)
    ensures
        options@.format is Some ==> code_result_model(r) == enum_code_by_extension(
            None,
            source@,
            options@,
        ),
        known_extension(optional_str(filepath)) matches Some(extension) ==> code_result_model(r)
            == enum_code_by_extension(extension, source@, options@),
        exists|extension: Option<Seq<char>>|
            plain_extension(extension) && code_result_model(r) == enum_code_by_extension(
                extension,
                source@,
                options@,
            ),
{
    match options.validate() {
        Err(error) => {
            let r = Err(GenerationError::StructOptions(error));
            assert(plain_extension(None) && code_result_model(r) == enum_code_by_extension(
                None,
                source@,
                options@,
            ));
            return r;
        },
        Ok(_) => {},
    }
    let found = Format::choose_for(options.format, filepath);
    let ghost extension: Option<Seq<char>> = if options@.format is Some {
        None
    } else {
        choose|extension: Option<Seq<char>>|
            plain_extension(extension) && format_result_model(found) == format_of_extension(
                extension,
            )
    };
    let r = match found {
        Ok(format) => match parse_keys(format, source) {
            Ok(keys) => generate_enum_code(&keys, options),
            Err(error) => Err(error),
        },
        Err(error) => Err(error),
    };
    assert(plain_extension(extension) && code_result_model(r) == enum_code_by_extension(
        extension,
        source@,
        options@,
    ));
    r
}

/// Generates enum code from a source text that holds a map, in the format
/// that the options name. Without a format in the options the format is
/// unknown.
pub fn generate_enum_from_source(source: &str, options: &EnumOptions) -> (r: Result<
    String,
    GenerationError,
>)
    ensures
        code_result_model(r) == enum_code_by_extension(None, source@, options@),
{
    generate_enum_from_source_with_filepath(source, options, None)
}

/// Generation is repeatable: the enum generated from a source depends on
/// the characters of the source and on what the options hold alone.
pub proof fn lemma_enum_generation_is_repeatable(
    first_source: &str,
    second_source: &str,
    first_options: EnumOptions,
    second_options: EnumOptions,
    extension: Option<Seq<char>>,
)
    requires
        first_source@ == second_source@,
        first_options@ == second_options@,
    ensures
        enum_code_by_extension(extension, first_source@, first_options@) == enum_code_by_extension(
            extension,
            second_source@,
            second_options@,
        ),
{
}

} // verus!
