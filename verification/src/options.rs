//! The options that steer generation.

use vstd::prelude::*;
use vstd::string::*;
use crate::error::{OptionsError, OptionsErrorModel};
use crate::format::Format;
use crate::text::{to_uppercase, uppercase_of};
use crate::validation::{is_identifier, valid_identifier};

verus! {

/// Which serde traits the generated type derives.
#[derive(Debug, Clone, Copy, PartialEq, Eq, Structural)]
pub enum SerdeSupport {
    /// None.
    No,
    /// Both `Serialize` and `Deserialize`.
    Yes,
    /// Each of the two as asked for.
    Mixed { serialize: bool, deserialize: bool },
}

/// Whether `Serialize` and `Deserialize` are derived: nothing where neither
/// is, else the pair of the two answers.
pub open spec fn derive_flags(support: SerdeSupport) -> Option<(bool, bool)> {
    match support {
        SerdeSupport::No => None,
        SerdeSupport::Yes => Some((true, true)),
        SerdeSupport::Mixed { serialize, deserialize } => if serialize || deserialize {
            Some((serialize, deserialize))
        } else {
            None
        },
    }
}

impl SerdeSupport {
    /// Whether `Serialize` and `Deserialize` are to be derived; `None`
    /// where neither is.
    pub fn should_derive_ser_de(self) -> (r: Option<(bool, bool)>)
        ensures
            r == derive_flags(self),
    {
        match self {
            SerdeSupport::No => None,
            SerdeSupport::Yes => Some((true, true)),
            SerdeSupport::Mixed { serialize, deserialize } => {
                if !(serialize || deserialize) {
                    None
                } else {
                    Some((serialize, deserialize))
                }
            },
        }
    }
}

impl Default for SerdeSupport {
    fn default() -> (r: SerdeSupport)
        ensures
            r == SerdeSupport::No,
    {
        SerdeSupport::No
    }
}

/// When the generated load functions read the configuration file.
#[derive(Debug, Clone, Copy, PartialEq, Eq, Structural)]
pub enum DynamicLoading {
    /// Always.
    Always,
    /// In debug builds; release builds use the embedded constant.
    DebugOnly,
    /// Never: the embedded constant is always used.
    Never,
}

impl Default for DynamicLoading {
    fn default() -> (r: DynamicLoading)
        ensures
            r == DynamicLoading::DebugOnly,
    {
        DynamicLoading::DebugOnly
    }
}

/// The width of floats where the input does not say.
#[derive(Debug, Clone, Copy, PartialEq, Eq, Structural)]
pub enum FloatSize {
    F32,
    F64,
}

/// The width of integers where the input does not say.
#[derive(Debug, Clone, Copy, PartialEq, Eq, Structural)]
pub enum IntSize {
    I8,
    I16,
    I32,
    I64,
    ISize,
}

/// Options for the generation of a struct.
#[derive(Debug, Clone, PartialEq, Eq)]
pub struct StructOptions {
    /// The format of the input; told from the file name where absent.
    pub format: Option<Format>,
    /// The name of the generated struct.
    pub struct_name: String,
    /// The name of the generated constant; the struct's name in upper case
    /// where absent.
    pub const_name: Option<String>,
    /// Whether a constant with the document's values is generated.
    pub generate_const: bool,
    /// The traits the struct derives, before those of serde.
    pub derived_traits: Vec<String>,
    /// Which serde traits are derived in addition.
    pub serde_support: SerdeSupport,
    /// Whether the serde traits are named by the `serde_derive` crate
    /// rather than by `serde`.
    pub use_serde_derive_crate: bool,
    /// Whether functions that load the struct are generated.
    pub generate_load_fns: bool,
    /// When the load functions read the file.
    pub dynamic_loading: DynamicLoading,
    /// Whether missing directories of the destination are created.
    pub create_dirs: bool,
    /// Whether the destination is left alone where it already holds the
    /// output.
    pub write_only_if_changed: bool,
    /// The width of floats where the input does not say.
    pub default_float_size: FloatSize,
    /// The width of integers where the input does not say.
    pub default_int_size: IntSize,
    /// The largest array that is declared with a fixed size; longer ones,
    /// and all arrays where this is zero, are declared as slices.
    pub max_array_size: usize,
}

/// The model of [`StructOptions`].
pub ghost struct StructOptionsModel {
    pub format: Option<Format>,
    pub struct_name: Seq<char>,
    pub const_name: Option<Seq<char>>,
    pub generate_const: bool,
    pub derived_traits: Seq<Seq<char>>,
    pub serde_support: SerdeSupport,
    pub use_serde_derive_crate: bool,
    pub generate_load_fns: bool,
    pub dynamic_loading: DynamicLoading,
    pub create_dirs: bool,
    pub write_only_if_changed: bool,
    pub default_float_size: FloatSize,
    pub default_int_size: IntSize,
    pub max_array_size: nat,
}

/// The model of an optional text.
pub open spec fn optional_text(text: Option<String>) -> Option<Seq<char>> {
    match text {
        Some(t) => Some(t@),
        None => None,
    }
}

impl View for StructOptions {
    type V = StructOptionsModel;

    open spec fn view(&self) -> StructOptionsModel {
        StructOptionsModel {
            format: self.format,
            struct_name: self.struct_name@,
            const_name: optional_text(self.const_name),
            generate_const: self.generate_const,
            derived_traits: self.derived_traits.deep_view(),
            serde_support: self.serde_support,
            use_serde_derive_crate: self.use_serde_derive_crate,
            generate_load_fns: self.generate_load_fns,
            dynamic_loading: self.dynamic_loading,
            create_dirs: self.create_dirs,
            write_only_if_changed: self.write_only_if_changed,
            default_float_size: self.default_float_size,
            default_int_size: self.default_int_size,
            max_array_size: self.max_array_size as nat,
        }
    }
}

/// The default options of a struct: named `Config`, with a constant,
/// deriving `Debug` and `Clone`, without serde and without load functions.
pub open spec fn default_struct_options() -> StructOptionsModel {
    StructOptionsModel {
        format: None,
        struct_name: "Config"@,
        const_name: None,
        generate_const: true,
        derived_traits: seq!["Debug"@, "Clone"@],
        serde_support: SerdeSupport::No,
        use_serde_derive_crate: false,
        generate_load_fns: false,
        dynamic_loading: DynamicLoading::DebugOnly,
        create_dirs: true,
        write_only_if_changed: true,
        default_float_size: FloatSize::F64,
        default_int_size: IntSize::I64,
        max_array_size: 0,
    }
}

/// What the check of a name and an optional constant name finds: the name
/// is checked first, then the constant name where one is given.
pub open spec fn names_fault(name: Seq<char>, const_name: Option<Seq<char>>) -> Option<
    OptionsErrorModel,
> {
    if !is_identifier(name) {
        Some(OptionsErrorModel::InvalidStructName(name))
    } else {
        match const_name {
            Some(given) => if is_identifier(given) {
                None
            } else {
                Some(OptionsErrorModel::InvalidConstName(given))
            },
            None => None,
        }
    }
}

/// What a check of options returns, as a model.
pub open spec fn options_check_model(r: Result<(), OptionsError>) -> Option<OptionsErrorModel> {
    match r {
        Ok(_) => None,
        Err(error) => Some(error@),
    }
}

/// The name of the constant: the one given, else the upper case of `name`.
pub open spec fn const_name_text(name: Seq<char>, const_name: Option<Seq<char>>) -> Seq<char> {
    match const_name {
        Some(given) => given,
        None => uppercase_of(name),
    }
}

fn check_names(name: &String, const_name: &Option<String>) -> (r: Result<(), OptionsError>)
    ensures
        options_check_model(r) == names_fault(name@, optional_text(*const_name)),
{
    if !valid_identifier(name.as_str()) {
        return Err(OptionsError::InvalidStructName(name.clone()));
    }
    match const_name {
        Some(given) => {
            if !valid_identifier(given.as_str()) {
                return Err(OptionsError::InvalidConstName(given.clone()));
            }
        },
        None => {},
    }
    Ok(())
}

impl StructOptions {
    /// Checks the struct's name, and the constant's name where one is
    /// given, against the identifier rule.
    pub fn validate(&self) -> (r: Result<(), OptionsError>)
        ensures
            options_check_model(r) == names_fault(self@.struct_name, self@.const_name),
    {
        check_names(&self.struct_name, &self.const_name)
    }

    /// The name of the generated constant.
    pub fn real_const_name(&self) -> (r: String)
        ensures
            r@ == const_name_text(self@.struct_name, self@.const_name),
    {
        match &self.const_name {
            Some(given) => given.clone(),
            None => to_uppercase(self.struct_name.as_str()),
        }
    }

    /// The default options with serde support: both serde traits are
    /// derived and load functions are generated.
    pub fn serde_default() -> (r: StructOptions)
        ensures
            r@ == (StructOptionsModel {
                serde_support: SerdeSupport::Yes,
                generate_load_fns: true,
                ..default_struct_options()
            }),
    {
        let mut options = StructOptions::default();
        options.serde_support = SerdeSupport::Yes;
        options.generate_load_fns = true;
        options
    }
}

impl Default for StructOptions {
    fn default() -> (r: StructOptions)
        ensures
            r@ == default_struct_options(),
    {
        let derived_traits = vec!["Debug".to_owned(), "Clone".to_owned()];
        assert(derived_traits.deep_view() =~= seq!["Debug"@, "Clone"@]);
        StructOptions {
            format: None,
            struct_name: "Config".to_owned(),
            const_name: None,
            generate_const: true,
            derived_traits,
            serde_support: SerdeSupport::No,
            use_serde_derive_crate: false,
            generate_load_fns: false,
            dynamic_loading: DynamicLoading::DebugOnly,
            create_dirs: true,
            write_only_if_changed: true,
            default_float_size: FloatSize::F64,
            default_int_size: IntSize::I64,
            max_array_size: 0,
        }
    }
}

/// Options for the generation of an enum of keys.
#[derive(Debug, Clone, PartialEq, Eq)]
pub struct EnumOptions {
    /// The format of the input; told from the file name where absent.
    pub format: Option<Format>,
    /// The name of the generated enum.
    pub enum_name: String,
    /// The name of the constant that lists all variants; none is generated
    /// where absent.
    pub all_variants_const: Option<String>,
    /// The traits the enum derives, before those of serde.
    pub derived_traits: Vec<String>,
    /// Whether `Default` is implemented, giving the first variant.
    pub first_variant_is_default: bool,
    /// Whether `Display` is implemented.
    pub impl_display: bool,
    /// Whether `FromStr` is implemented; it needs the constant of all
    /// variants.
    pub impl_from_str: bool,
    /// Which serde traits are derived in addition.
    pub serde_support: SerdeSupport,
    /// Whether the serde traits are named by the `serde_derive` crate
    /// rather than by `serde`.
    pub use_serde_derive_crate: bool,
    /// Whether missing directories of the destination are created.
    pub create_dirs: bool,
    /// Whether the destination is left alone where it already holds the
    /// output.
    pub write_only_if_changed: bool,
}

/// The model of [`EnumOptions`].
pub ghost struct EnumOptionsModel {
    pub format: Option<Format>,
    pub enum_name: Seq<char>,
    pub all_variants_const: Option<Seq<char>>,
    pub derived_traits: Seq<Seq<char>>,
    pub first_variant_is_default: bool,
    pub impl_display: bool,
    pub impl_from_str: bool,
    pub serde_support: SerdeSupport,
    pub use_serde_derive_crate: bool,
    pub create_dirs: bool,
    pub write_only_if_changed: bool,
}

impl View for EnumOptions {
    type V = EnumOptionsModel;

    open spec fn view(&self) -> EnumOptionsModel {
        EnumOptionsModel {
            format: self.format,
            enum_name: self.enum_name@,
            all_variants_const: optional_text(self.all_variants_const),
            derived_traits: self.derived_traits.deep_view(),
            first_variant_is_default: self.first_variant_is_default,
            impl_display: self.impl_display,
            impl_from_str: self.impl_from_str,
            serde_support: self.serde_support,
            use_serde_derive_crate: self.use_serde_derive_crate,
            create_dirs: self.create_dirs,
            write_only_if_changed: self.write_only_if_changed,
        }
    }
}

/// The default options of an enum: named `Key`, with the constant `ALL`,
/// deriving the traits of a plain key type, with `Default`, `Display` and
/// `FromStr`, without serde.
pub open spec fn default_enum_options() -> EnumOptionsModel {
    EnumOptionsModel {
        format: None,
        enum_name: "Key"@,
        all_variants_const: Some("ALL"@),
        derived_traits: seq![
            "Debug"@,
            "Clone"@,
            "Copy"@,
            "PartialEq"@,
            "Eq"@,
            "PartialOrd"@,
            "Ord"@,
            "Hash"@,
        ],
        first_variant_is_default: true,
        impl_display: true,
        impl_from_str: true,
        serde_support: SerdeSupport::No,
        use_serde_derive_crate: false,
        create_dirs: true,
        write_only_if_changed: true,
    }
}

impl EnumOptions {
    /// Checks the enum's name, and the name of the constant of all
    /// variants where one is given, against the identifier rule.
    pub fn validate(&self) -> (r: Result<(), OptionsError>)
        ensures
            options_check_model(r) == names_fault(self@.enum_name, self@.all_variants_const),
    {
        check_names(&self.enum_name, &self.all_variants_const)
    }

    /// The default options with serde support: both serde traits are
    /// derived.
    pub fn serde_default() -> (r: EnumOptions)
        ensures
            r@ == (EnumOptionsModel { serde_support: SerdeSupport::Yes, ..default_enum_options() }),
    {
        let mut options = EnumOptions::default();
        options.serde_support = SerdeSupport::Yes;
        options
    }
}

impl Default for EnumOptions {
    fn default() -> (r: EnumOptions)
        ensures
            r@ == default_enum_options(),
    {
        let derived_traits = vec![
            "Debug".to_owned(),
            "Clone".to_owned(),
            "Copy".to_owned(),
            "PartialEq".to_owned(),
            "Eq".to_owned(),
            "PartialOrd".to_owned(),
            "Ord".to_owned(),
            "Hash".to_owned(),
        ];
        assert(derived_traits.deep_view() =~= seq![
            "Debug"@,
            "Clone"@,
            "Copy"@,
            "PartialEq"@,
            "Eq"@,
            "PartialOrd"@,
            "Ord"@,
            "Hash"@,
        ]);
        EnumOptions {
            format: None,
            enum_name: "Key".to_owned(),
            all_variants_const: Some("ALL".to_owned()),
            derived_traits,
            first_variant_is_default: true,
            impl_display: true,
            impl_from_str: true,
            serde_support: SerdeSupport::No,
            use_serde_derive_crate: false,
            create_dirs: true,
            write_only_if_changed: true,
        }
    }
}

} // verus!
