//! The markup notations a configuration document can be written in.

use vstd::prelude::*;
use vstd::string::*;
use crate::error::{GenerationError, GenerationErrorModel};
use crate::text::same_text;

verus! {

/// An input markup format.
#[derive(Debug, Clone, Copy, PartialEq, Eq, Structural)]
pub enum Format {
    Json,
    Ron,
    Toml,
    Yaml,
}

/// The format that a file name's extension stands for, or the error that
/// names the extension; a name without extension is reported as `<none>`.
pub open spec fn format_of_extension(extension: Option<Seq<char>>) -> Result<
    Format,
    GenerationErrorModel,
> {
    match extension {
        Some(ext) => if ext == "json"@ {
            Ok(Format::Json)
        } else if ext == "ron"@ {
            Ok(Format::Ron)
        } else if ext == "toml"@ {
            Ok(Format::Toml)
        } else if ext == "yaml"@ || ext == "yml"@ {
            Ok(Format::Yaml)
        } else {
            Err(GenerationErrorModel::UnknownInputFormat(ext))
        },
        None => Err(GenerationErrorModel::UnknownInputFormat("<none>"@)),
    }
}

/// The model of a result that holds a format or a generation error.
pub open spec fn format_result_model(r: Result<Format, GenerationError>) -> Result<
    Format,
    GenerationErrorModel,
> {
    match r {
        Ok(format) => Ok(format),
        Err(error) => Err(error@),
    }
}

/// An extension as the standard library hands it out: it holds no point.
pub open spec fn plain_extension(extension: Option<Seq<char>>) -> bool {
    match extension {
        Some(ext) => !ext.contains('.'),
        None => true,
    }
}

/// The place of the last point in a name; below zero where there is none.
pub open spec fn last_point(name: Seq<char>) -> int
    decreases name.len(),
{
    if name.len() == 0 {
        -1
    } else if name.last() == '.' {
        name.len() - 1
    } else {
        last_point(name.drop_last())
    }
}

/// A name that is one component of a path on every platform: it holds no
/// slash, no backslash and no colon, and is not the name of the parent
/// directory.
pub open spec fn simple_name(name: Seq<char>) -> bool {
    &&& !name.contains('/')
    &&& !name.contains('\\')
    &&& !name.contains(':')
    &&& name != seq!['.', '.']
}

/// The extension of a simple name: what stands behind its last point;
/// nothing where it holds no point or its only point comes first.
pub open spec fn simple_extension(name: Seq<char>) -> Option<Seq<char>> {
    if last_point(name) <= 0 {
        None
    } else {
        Some(name.subrange(last_point(name) + 1, name.len() as int))
    }
}

/// What is known of the extension of a path on every platform: that of a
/// simple name, and that there is none where there is no path or no point
/// in it. Of any other path the extension is not known here.
pub open spec fn known_extension(path: Option<Seq<char>>) -> Option<Option<Seq<char>>> {
    match path {
        None => Some(None),
        Some(name) => if simple_name(name) {
            Some(simple_extension(name))
        } else if !name.contains('.') {
            Some(None)
        } else {
            None
        },
    }
}

/// The model of an optional text.
pub open spec fn extension_model(extension: Option<String>) -> Option<Seq<char>> {
    match extension {
        Some(ext) => Some(ext@),
        None => None,
    }
}

/// Calls `std::path::Path::extension` on the file name and hands the
/// extension back as text. Which part of a name is its last component
/// differs between platforms, so the extension is claimed only of a name
/// that is one component everywhere: there it is what follows the last
/// point, and nothing where there is no point or the only point comes
/// first. Of every name it holds that the extension holds no point, and
/// that a name without a point has none.
#[verifier::external_body]
pub(crate) fn path_extension(filename: &str) -> (r: Option<String>)
    ensures
        r matches Some(ext) ==> !ext@.contains('.'),
        !filename@.contains('.') ==> r is None,
        simple_name(filename@) ==> extension_model(r) == simple_extension(filename@),
{
    std::path::Path::new(filename).extension().map(|ext| ext.to_string_lossy().into_owned())
}

impl Format {
    /// The format that an extension stands for: `json`, `ron`, `toml`,
    /// `yaml` or `yml`. Any other extension, and a missing one, is an
    /// unknown input format.
    pub fn from_extension(extension: Option<&str>) -> (r: Result<Format, GenerationError>)
        ensures
            format_result_model(r) == format_of_extension(
                match extension {
                    Some(ext) => Some(ext@),
                    None => None,
                },
            ),
    {
        match extension {
            Some(ext) => {
                if same_text(ext, "json") {
                    Ok(Format::Json)
                } else if same_text(ext, "ron") {
                    Ok(Format::Ron)
                } else if same_text(ext, "toml") {
                    Ok(Format::Toml)
                } else if same_text(ext, "yaml") || same_text(ext, "yml") {
                    Ok(Format::Yaml)
                } else {
                    Err(GenerationError::UnknownInputFormat(ext.to_owned()))
                }
            },
            None => Err(GenerationError::UnknownInputFormat("<none>".to_owned())),
        }
    }

    /// The format of a file, told by the extension of its name.
    ///
    /// The result is what [`Format::from_extension`] gives for the extension
    /// that the standard library finds in the name. For a name that is one
    /// component of a path everywhere, and for a name without a point, the
    /// extension is known and the result is fixed.
    pub fn from_filename(filename: &str) -> (r: Result<Format, GenerationError>)
        ensures
            known_extension(Some(filename@)) matches Some(extension) ==> format_result_model(r)
                == format_of_extension(extension),
            exists|extension: Option<Seq<char>>|
                plain_extension(extension) && format_result_model(r) == format_of_extension(
                    extension,
                ),
    {
        let extension = path_extension(filename);
        match extension {
            Some(ext) => {
                let r = Format::from_extension(Some(ext.as_str()));
                assert(plain_extension(Some(ext@)) && format_result_model(r)
                    == format_of_extension(Some(ext@)));
                r
            },
            None => {
                let r = Format::from_extension(None);
                assert(plain_extension(None) && format_result_model(r) == format_of_extension(
                    None,
                ));
                r
            },
        }
    }

    /// The format to read a source in: the given one, else the one told by
    /// the name of the file, else none.
    pub fn choose_for(given: Option<Format>, filepath: Option<&str>) -> (r: Result<
        Format,
        GenerationError,
    >)
        ensures
            given matches Some(format) ==> r == Ok::<Format, GenerationError>(format),
            given is None ==> (known_extension(
                match filepath {
                    Some(path) => Some(path@),
                    None => None,
                },
            ) matches Some(extension) ==> format_result_model(r) == format_of_extension(extension)),
            given is None ==> exists|extension: Option<Seq<char>>|
                plain_extension(extension) && format_result_model(r) == format_of_extension(
                    extension,
                ),
    {
        match given {
            Some(format) => Ok(format),
            None => match filepath {
                Some(path) => Format::from_filename(path),
                None => {
                    let r = Format::from_extension(None);
                    assert(plain_extension(None) && format_result_model(r) == format_of_extension(
                        None,
                    ));
                    r
                },
            },
        }
    }
}

} // verus!
