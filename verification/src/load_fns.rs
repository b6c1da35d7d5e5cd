//! The text of the functions that load a generated struct.

use vstd::prelude::*;
use vstd::string::*;
use crate::format::Format;

verus! {

/// The expression that parses the file's contents in the given format.
pub open spec fn load_expression_text(format: Format) -> Seq<char> {
    match format {
        Format::Json => "::serde_json::from_str(&file_contents)"@,
        Format::Ron => "::ron::de::from_str(&file_contents)"@,
        Format::Toml => "::toml::from_str(&file_contents)"@,
        Format::Yaml => "::serde_yaml::from_str(&file_contents)"@,
    }
}

/// The load functions that read the file at `filepath` on every call.
pub open spec fn dynamic_load_text(format: Format, struct_name: Seq<char>, filepath: Seq<char>) -> Seq<
    char,
> {
    "impl "@ + struct_name
        + " {\n    pub fn load() -> Cow<'static, Self> {\n        let filepath = concat!(env!(\"CARGO_MANIFEST_DIR\"), \"/"@
        + filepath
        + "\");\n        Self::load_from(filepath.as_ref()).expect(\"Failed to load "@
        + struct_name
        + ".\")\n    }\n\n    pub fn load_from(filepath: &::std::path::Path) -> Result<Cow<'static, Self>, Box<::std::error::Error>> {\n        let file_contents = ::std::fs::read_to_string(filepath)?;\n        let result: Self = "@
        + load_expression_text(format)
        + "?;\n        Ok(Cow::Owned(result))\n    }\n\n    pub fn reload(&mut self) {\n        ::std::mem::replace(self, Self::load().into_owned());\n    }\n}"@
}

/// The load functions that hand out the embedded constant.
pub open spec fn static_load_text(struct_name: Seq<char>, const_name: Seq<char>) -> Seq<char> {
    "impl "@ + struct_name
        + " {\n    #[inline(always)]\n    pub fn load() -> Cow<'static, Self> {\n        Cow::Borrowed(&"@
        + const_name
        + ")\n    }\n\n    #[inline(always)]\n    pub fn load_from(filepath: &::std::path::Path) -> Result<Cow<'static, Self>, Box<::std::error::Error>> {\n        Ok(Cow::Borrowed(&"@
        + const_name
        + "))\n    }\n\n    #[inline(always)]\n    pub fn reload(&mut self) {\n    }\n}"@
}

/// The text of load functions that read and parse the file at `filepath`
/// every time they are called.
pub fn dynamic_load_impl(format: Format, struct_name: &str, filepath: &str) -> (r: String)
    ensures
        r@ == dynamic_load_text(format, struct_name@, filepath@),
{
    let load_expression = match format {
        Format::Json => "::serde_json::from_str(&file_contents)",
        Format::Ron => "::ron::de::from_str(&file_contents)",
        Format::Toml => "::toml::from_str(&file_contents)",
        Format::Yaml => "::serde_yaml::from_str(&file_contents)",
    };
    let mut out = "impl ".to_owned();
    out.append(struct_name);
    out.append(
        " {\n    pub fn load() -> Cow<'static, Self> {\n        let filepath = concat!(env!(\"CARGO_MANIFEST_DIR\"), \"/",
    );
    out.append(filepath);
    out.append("\");\n        Self::load_from(filepath.as_ref()).expect(\"Failed to load ");
    out.append(struct_name);
    out.append(
        ".\")\n    }\n\n    pub fn load_from(filepath: &::std::path::Path) -> Result<Cow<'static, Self>, Box<::std::error::Error>> {\n        let file_contents = ::std::fs::read_to_string(filepath)?;\n        let result: Self = ",
    );
    out.append(load_expression);
    out.append(
        "?;\n        Ok(Cow::Owned(result))\n    }\n\n    pub fn reload(&mut self) {\n        ::std::mem::replace(self, Self::load().into_owned());\n    }\n}",
    );
    out
}

/// The text of load functions that return the embedded constant and never
/// read a file.
pub fn static_load_impl(struct_name: &str, const_name: &str) -> (r: String)
    ensures
        r@ == static_load_text(struct_name@, const_name@),
{
    let mut out = "impl ".to_owned();
    out.append(struct_name);
    out.append(
        " {\n    #[inline(always)]\n    pub fn load() -> Cow<'static, Self> {\n        Cow::Borrowed(&",
    );
    out.append(const_name);
    out.append(
        ")\n    }\n\n    #[inline(always)]\n    pub fn load_from(filepath: &::std::path::Path) -> Result<Cow<'static, Self>, Box<::std::error::Error>> {\n        Ok(Cow::Borrowed(&",
    );
    out.append(const_name);
    out.append("))\n    }\n\n    #[inline(always)]\n    pub fn reload(&mut self) {\n    }\n}");
    out
}

} // verus!
