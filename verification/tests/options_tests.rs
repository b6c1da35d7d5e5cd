use config_struct::error::OptionsError;
use config_struct::files::should_write;
use config_struct::format::Format;
use config_struct::load_fns::{dynamic_load_impl, static_load_impl};
use config_struct::options::{
    DynamicLoading, EnumOptions, FloatSize, IntSize, SerdeSupport, StructOptions,
};
use config_struct::GenerationError;

#[test]
fn default_struct_options() {
    let default_options = StructOptions {
        format: None,
        struct_name: "Config".to_owned(),
        const_name: None,
        generate_const: true,
        derived_traits: vec!["Debug".to_owned(), "Clone".to_owned()],
        serde_support: SerdeSupport::No,
        use_serde_derive_crate: false,
        generate_load_fns: false,
        dynamic_loading: DynamicLoading::DebugOnly,
        create_dirs: true,
        write_only_if_changed: true,
        default_float_size: FloatSize::F64,
        default_int_size: IntSize::I64,
        max_array_size: 0,
    };
    assert_eq!(default_options, StructOptions::default());
}

#[test]
fn serde_default_struct_options() {
    let options = StructOptions::serde_default();
    assert_eq!(
        options,
        StructOptions {
            serde_support: SerdeSupport::Yes,
            generate_load_fns: true,
            ..StructOptions::default()
        }
    );
}

#[test]
fn default_enum_options() {
    let options = EnumOptions::default();
    assert_eq!(options.enum_name, "Key");
    assert_eq!(options.all_variants_const, Some("ALL".to_owned()));
    assert_eq!(
        options.derived_traits,
        vec!["Debug", "Clone", "Copy", "PartialEq", "Eq", "PartialOrd", "Ord", "Hash"]
    );
    assert!(options.first_variant_is_default);
    assert!(options.impl_display);
    assert!(options.impl_from_str);
    assert_eq!(options.serde_support, SerdeSupport::No);
    assert_eq!(options.format, None);
    assert_eq!(
        EnumOptions::serde_default(),
        EnumOptions {
            serde_support: SerdeSupport::Yes,
            ..EnumOptions::default()
        }
    );
}

#[test]
fn default_variants() {
    assert_eq!(SerdeSupport::default(), SerdeSupport::No);
    assert_eq!(DynamicLoading::default(), DynamicLoading::DebugOnly);
}

#[test]
fn serde_flags() {
    assert_eq!(SerdeSupport::No.should_derive_ser_de(), None);
    assert_eq!(SerdeSupport::Yes.should_derive_ser_de(), Some((true, true)));
    assert_eq!(
        SerdeSupport::Mixed {
            serialize: true,
            deserialize: false
        }
        .should_derive_ser_de(),
        Some((true, false))
    );
    assert_eq!(
        SerdeSupport::Mixed {
            serialize: false,
            deserialize: false
        }
        .should_derive_ser_de(),
        None
    );
}

#[test]
fn options_are_checked() {
    assert!(StructOptions::default().validate().is_ok());
    let mut options = StructOptions::default();
    options.struct_name = "not a name".to_owned();
    match options.validate() {
        Err(OptionsError::InvalidStructName(name)) => assert_eq!(name, "not a name"),
        other => panic!("unexpected result: {:?}", other),
    }
    let mut options = StructOptions::default();
    options.const_name = Some("1ST".to_owned());
    match options.validate() {
        Err(OptionsError::InvalidConstName(name)) => assert_eq!(name, "1ST"),
        other => panic!("unexpected result: {:?}", other),
    }
    let mut options = EnumOptions::default();
    options.enum_name = "_".to_owned();
    match options.validate() {
        Err(OptionsError::InvalidStructName(name)) => assert_eq!(name, "_"),
        other => panic!("unexpected result: {:?}", other),
    }
}

#[test]
fn const_name_defaults_to_upper_case() {
    let mut options = StructOptions::default();
    assert_eq!(options.real_const_name(), "CONFIG");
    options.struct_name = "YamlConfig".to_owned();
    assert_eq!(options.real_const_name(), "YAMLCONFIG");
    options.const_name = Some("YAML_CONFIG".to_owned());
    assert_eq!(options.real_const_name(), "YAML_CONFIG");
}

#[test]
fn formats_by_extension() {
    assert_eq!(Format::from_extension(Some("json")).unwrap(), Format::Json);
    assert_eq!(Format::from_extension(Some("ron")).unwrap(), Format::Ron);
    assert_eq!(Format::from_extension(Some("toml")).unwrap(), Format::Toml);
    assert_eq!(Format::from_extension(Some("yaml")).unwrap(), Format::Yaml);
    assert_eq!(Format::from_extension(Some("yml")).unwrap(), Format::Yaml);
    match Format::from_extension(Some("txt")) {
        Err(GenerationError::UnknownInputFormat(ext)) => assert_eq!(ext, "txt"),
        other => panic!("unexpected result: {:?}", other),
    }
    match Format::from_extension(None) {
        Err(GenerationError::UnknownInputFormat(ext)) => assert_eq!(ext, "<none>"),
        other => panic!("unexpected result: {:?}", other),
    }
}

#[test]
fn formats_by_file_name() {
    assert_eq!(Format::from_filename("config.json").unwrap(), Format::Json);
    assert_eq!(Format::from_filename("dir.d/config.ron").unwrap(), Format::Ron);
    assert_eq!(Format::from_filename("a/b/c.toml").unwrap(), Format::Toml);
    assert_eq!(Format::from_filename("c.tar.yml").unwrap(), Format::Yaml);
    match Format::from_filename("config") {
        Err(GenerationError::UnknownInputFormat(ext)) => assert_eq!(ext, "<none>"),
        other => panic!("unexpected result: {:?}", other),
    }
    match Format::from_filename("config.JSON") {
        Err(GenerationError::UnknownInputFormat(ext)) => assert_eq!(ext, "JSON"),
        other => panic!("unexpected result: {:?}", other),
    }
}

#[test]
fn write_decision() {
    assert_eq!(should_write(Some("same"), "same", true), false);
    assert_eq!(should_write(Some("old"), "new", true), true);
    assert_eq!(should_write(None, "new", true), true);
    assert_eq!(should_write(Some("same"), "same", false), true);
    assert_eq!(should_write(None, "", false), true);
    assert_eq!(should_write(Some(""), "", true), false);
}

#[test]
fn static_load_functions() {
    assert_eq!(
        static_load_impl("Config", "CONFIG"),
        "impl Config {\n    #[inline(always)]\n    pub fn load() -> Cow<'static, Self> {\n        Cow::Borrowed(&CONFIG)\n    }\n\n    #[inline(always)]\n    pub fn load_from(filepath: &::std::path::Path) -> Result<Cow<'static, Self>, Box<::std::error::Error>> {\n        Ok(Cow::Borrowed(&CONFIG))\n    }\n\n    #[inline(always)]\n    pub fn reload(&mut self) {\n    }\n}"
    );
}

#[test]
fn dynamic_load_functions() {
    let code = dynamic_load_impl(Format::Toml, "Config", "config.toml");
    assert_eq!(
        code,
        "impl Config {\n    pub fn load() -> Cow<'static, Self> {\n        let filepath = concat!(env!(\"CARGO_MANIFEST_DIR\"), \"/config.toml\");\n        Self::load_from(filepath.as_ref()).expect(\"Failed to load Config.\")\n    }\n\n    pub fn load_from(filepath: &::std::path::Path) -> Result<Cow<'static, Self>, Box<::std::error::Error>> {\n        let file_contents = ::std::fs::read_to_string(filepath)?;\n        let result: Self = ::toml::from_str(&file_contents)?;\n        Ok(Cow::Owned(result))\n    }\n\n    pub fn reload(&mut self) {\n        ::std::mem::replace(self, Self::load().into_owned());\n    }\n}"
    );
    assert!(dynamic_load_impl(Format::Json, "C", "p")
        .contains("::serde_json::from_str(&file_contents)"));
    assert!(dynamic_load_impl(Format::Ron, "C", "p").contains("::ron::de::from_str(&file_contents)"));
    assert!(dynamic_load_impl(Format::Yaml, "C", "p")
        .contains("::serde_yaml::from_str(&file_contents)"));
}

#[test]
fn error_messages() {
    assert_eq!(
        OptionsError::InvalidStructName("a b".to_owned()).message(),
        "Invalid name for a struct: `a b`."
    );
    assert_eq!(
        OptionsError::InvalidConstName("1".to_owned()).message(),
        "Invalid name for a const: `1`."
    );
    assert_eq!(
        GenerationError::UnknownInputFormat("txt".to_owned()).message(),
        "Unknown input format: `txt`. (Maybe you need to enable the right feature?)"
    );
    assert_eq!(
        GenerationError::InvalidFieldName("a b".to_owned()).message(),
        "Invalid field name: `a b`."
    );
    assert_eq!(
        GenerationError::InvalidVariantName("a b".to_owned()).message(),
        "Invalid variant name: `a b`."
    );
    assert_eq!(
        GenerationError::HeterogenousArray("list".to_owned()).message(),
        "Array under key `list` has elements of different types. Arrays must be homogenous."
    );
    assert_eq!(
        GenerationError::MissingFilePath.message(),
        "Cannot generate dynamic loading functions without a filename.\n(Generate struct from a file, set generate_load_fns: false, or set dynamic_loading: DynamicLoading::Never to fix.)"
    );
    assert_eq!(
        GenerationError::DeserializationFailed("eof".to_owned()).message(),
        "Deserialization failed: eof"
    );
    assert_eq!(
        GenerationError::from(OptionsError::InvalidStructName("".to_owned())).message(),
        "Invalid options error: Invalid name for a struct: ``."
    );
}

fn unknown(name: &str) -> String {
    match Format::from_filename(name) {
        Err(GenerationError::UnknownInputFormat(extension)) => extension,
        other => panic!("unexpected result: {:?}", other),
    }
}

#[test]
fn extensions_of_simple_names() {
    assert_eq!(Format::from_filename("config.json").unwrap(), Format::Json);
    assert_eq!(Format::from_filename("a.b.toml").unwrap(), Format::Toml);
    assert_eq!(Format::from_filename("..yml").unwrap(), Format::Yaml);
    assert_eq!(Format::from_filename("x.ron").unwrap(), Format::Ron);
    assert_eq!(unknown("archive.tar.gz"), "gz");
    assert_eq!(unknown("name."), "");
    assert_eq!(unknown("..."), "");
    assert_eq!(unknown(".json"), "<none>");
    assert_eq!(unknown("."), "<none>");
    assert_eq!(unknown(".."), "<none>");
    assert_eq!(unknown(""), "<none>");
    assert_eq!(unknown("json"), "<none>");
    assert_eq!(unknown("dir/Makefile"), "<none>");
}
