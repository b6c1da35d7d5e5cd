use config_struct::{
    generate_struct_from_source, generate_struct_from_source_with_filepath, DynamicLoading,
    Format, StructOptions,
};

const JSON_SOURCE: &str = r#"{
    "name": "Config name",
    "nothing": null,
    "number": 100,
    "is_config": true,
    "is_not_config": false,
    "i64_max": 9223372036854775807,
    "u64_max": 18446744073709551615,
    "floaty": 123.456789,
    "coord": [-5.0, 5.0],
    "nested": {
        "name": "nested2",
        "values": { "x": 0, "y": 1, "z": 2 }
    },
    "array_of_structs": [
        { "name": "first", "n": 0 },
        { "name": "second", "n": 1 }
    ],
    "empty": []
}"#;

const YAML_SOURCE: &str = "name: Config name
nothing: ~
number: 100
is_config: true
is_not_config: false
i64_max: 9223372036854775807
u64_max: 18446744073709551615
floaty: 123.456789
coord:
  - -5.0
  - 5.0
nested:
  name: nested2
  values:
    x: 0
    y: 1
    z: 2
array_of_structs:
  - name: first
    n: 0
  - name: second
    n: 1
empty: []
";

const RON_SOURCE: &str = r#"(
    name: "Config name",
    unit: (),
    angelface: 'A',
    integer: 100,
    float: 100.1,
    is_true: true,
    nothing: None,
    something: Some(10),
    empty: [],
    countdown: [3, 2, 1],
    structure: (
        name: "Doesn't have one, sadly.",
        status: "Naw too bad.",
    ),
    objects: [
        (name: "Thing 1", index: 0),
        (name: "Thing 2", index: 1),
    ],
)"#;

const TOML_SOURCE: &str = r#"name = "Config name"
number = 100
is_config = true
is_not_config = false
one_point_zero = 1.0
one_point_five = 1.5
floaty = 123.456789
coord = [-5.0, 5.0]
color = [0, 64, 128, 255]
words = ["one", "two", "three"]
points = [[1, 2], [3, 4], [5, 6]]
empty = []

[table]
name = "A table"
magnitude = 1000000000

[table.table_again]
name = "OK this is just getting ridiculous"
description = "getting ridiculous"

[[arrayble]]
description = "just unbelievable"

[[arrayble]]
description = "what is this syntax"
"#;

fn json_code() -> String {
    generate_struct_from_source_with_filepath(
        JSON_SOURCE,
        &StructOptions::serde_default(),
        Some("config.json"),
    )
    .unwrap()
}

fn ron_code() -> String {
    generate_struct_from_source_with_filepath(
        RON_SOURCE,
        &StructOptions {
            struct_name: "RonConfig".to_owned(),
            ..StructOptions::serde_default()
        },
        Some("config.ron"),
    )
    .unwrap()
}

fn toml_code() -> String {
    generate_struct_from_source_with_filepath(
        TOML_SOURCE,
        &StructOptions {
            struct_name: "TomlConfig".to_owned(),
            ..StructOptions::serde_default()
        },
        Some("config.toml"),
    )
    .unwrap()
}

fn yaml_code() -> String {
    generate_struct_from_source_with_filepath(
        YAML_SOURCE,
        &StructOptions {
            struct_name: "YamlConfig".to_owned(),
            const_name: Some("YAML_CONFIG".to_owned()),
            ..StructOptions::serde_default()
        },
        Some("config.yaml"),
    )
    .unwrap()
}

fn has(code: &str, part: &str) {
    assert!(code.contains(part), "expected to find {:?} in\n{}", part, code);
}

#[test]
fn lib_test_declarations() {
    let json = json_code();
    has(&json, "#[derive(Debug, Clone, serde::Serialize, serde::Deserialize)]\n#[allow(non_camel_case_types)]\npub struct Config {\n");
    has(&json, "pub const CONFIG: Config = Config {\n");
    let yaml = yaml_code();
    has(&yaml, "pub struct YamlConfig {\n");
    has(&yaml, "pub const YAML_CONFIG: YamlConfig = YamlConfig {\n");
}

#[test]
fn test_declarations() {
    let ron = ron_code();
    has(&ron, "pub struct RonConfig {\n");
    has(&ron, "pub const RONCONFIG: RonConfig = RonConfig {\n");
    let toml = toml_code();
    has(&toml, "pub struct TomlConfig {\n");
    has(&toml, "pub const TOMLCONFIG: TomlConfig = TomlConfig {\n");
}

fn has_load_functions(code: &str, name: &str, constant: &str, path: &str, call: &str) {
    has(code, &format!("\n#[cfg(debug_assertions)]\nimpl {} {{\n    pub fn load() -> Cow<'static, Self> {{\n        let filepath = concat!(env!(\"CARGO_MANIFEST_DIR\"), \"/{}\");", name, path));
    has(code, &format!("let result: Self = {}(&file_contents)?;", call));
    has(code, &format!("\n\n#[cfg(not(debug_assertions))]\nimpl {} {{\n    #[inline(always)]\n    pub fn load() -> Cow<'static, Self> {{\n        Cow::Borrowed(&{})\n    }}", name, constant));
    assert!(code.ends_with("    pub fn reload(&mut self) {\n    }\n}\n"));
}

#[test]
fn lib_test_load_function() {
    has_load_functions(&json_code(), "Config", "CONFIG", "config.json", "::serde_json::from_str");
    has_load_functions(&yaml_code(), "YamlConfig", "YAML_CONFIG", "config.yaml", "::serde_yaml::from_str");
}

#[test]
fn test_load_function() {
    has_load_functions(&ron_code(), "RonConfig", "RONCONFIG", "config.ron", "::ron::de::from_str");
    has_load_functions(&toml_code(), "TomlConfig", "TOMLCONFIG", "config.toml", "::toml::from_str");
}

#[test]
fn lib_test_simple_values() {
    for code in [json_code(), yaml_code()] {
        has(&code, "    pub name: Cow<'static, str>,\n");
        has(&code, "    name: Cow::Borrowed(\"Config name\"),\n");
        has(&code, "    pub nothing: Option<()>,\n");
        has(&code, "    nothing: None,\n");
        has(&code, "    pub number: i64,\n");
        has(&code, &format!("    number: {},\n", 100));
        has(&code, &format!("    is_config: {},\n", true));
        has(&code, &format!("    is_not_config: {},\n", false));
        has(&code, "    pub i64_max: i64,\n");
        has(&code, &format!("    i64_max: {},\n", std::i64::MAX));
        has(&code, "    pub u64_max: u64,\n");
        has(&code, &format!("    u64_max: {},\n", std::u64::MAX));
        has(&code, "    pub floaty: f64,\n");
        has(&code, &format!("    floaty: {},\n", 123.456789));
    }
}

#[test]
fn test_simple_values() {
    let ron = ron_code();
    has(&ron, "    name: Cow::Borrowed(\"Config name\"),\n");
    has(&ron, "    pub unit: (),\n");
    has(&ron, "    unit: (),\n");
    has(&ron, "    pub angelface: char,\n");
    has(&ron, &format!("    angelface: {:?},\n", 'A'));
    has(&ron, "    pub integer: i64,\n");
    has(&ron, &format!("    integer: {},\n", 100));
    has(&ron, "    pub float: f64,\n");
    has(&ron, &format!("    float: {},\n", 100.1));
    has(&ron, &format!("    is_true: {},\n", true));
    has(&ron, "    nothing: None,\n");
    has(&ron, "    pub something: Option<i64>,\n");
    has(&ron, &format!("    something: Some({}),\n", 10));

    let toml = toml_code();
    has(&toml, "    name: Cow::Borrowed(\"Config name\"),\n");
    has(&toml, &format!("    number: {},\n", 100));
    has(&toml, &format!("    is_config: {},\n", true));
    has(&toml, &format!("    is_not_config: {},\n", false));
    has(&toml, "    pub one_point_zero: f64,\n");
    has(&toml, &format!("    one_point_zero: {:?},\n", 1.0));
    has(&toml, &format!("    one_point_five: {},\n", 1.5));
    has(&toml, &format!("    floaty: {},\n", 123.456789));
}

fn has_composite_values(code: &str) {
    has(code, "    pub coord: Cow<'static, [f64]>,\n");
    has(code, &format!("    coord: Cow::Borrowed(&{:?}),\n", [-5.0, 5.0]));
    has(code, "    pub nested: Config__nested,\n");
    has(code, "    nested: Config__nested {\n        name: Cow::Borrowed(\"nested2\"),\n        values: Config__nested__values {\n            x: 0,\n            y: 1,\n            z: 2,\n        },\n    },\n");
    has(code, "pub struct Config__nested {\n    pub name: Cow<'static, str>,\n    pub values: Config__nested__values,\n}\n");
    has(code, "pub struct Config__nested__values {\n    pub x: i64,\n    pub y: i64,\n    pub z: i64,\n}\n");
    has(code, "    pub array_of_structs: Cow<'static, [Config__array_of_structs]>,\n");
    has(code, "    array_of_structs: Cow::Borrowed(&[Config__array_of_structs {\n            n: 0,\n            name: Cow::Borrowed(\"first\"),\n        }, Config__array_of_structs {\n            n: 1,\n            name: Cow::Borrowed(\"second\"),\n        }]),\n");
    has(code, "pub struct Config__array_of_structs {\n    pub n: i64,\n    pub name: Cow<'static, str>,\n}\n");
}

#[test]
fn lib_test_composite_values() {
    has_composite_values(&json_code());
}

#[test]
fn test_composite_values() {
    has_composite_values(&yaml_code());
}

#[test]
fn lib_test_empty_array_is_array_of_unit() {
    for code in [json_code(), toml_code()] {
        has(&code, "    pub empty: Cow<'static, [()]>,\n");
        has(&code, "    empty: Cow::Borrowed(&[]),\n");
    }
}

#[test]
fn test_empty_array_is_array_of_unit() {
    let yaml = yaml_code();
    has(&yaml, "    pub empty: Cow<'static, [()]>,\n");
    has(&yaml, "    empty: Cow::Borrowed(&[]),\n");
}

#[test]
fn test_empty_array() {
    let ron = ron_code();
    has(&ron, "    pub empty: Cow<'static, [()]>,\n");
    has(&ron, "    empty: Cow::Borrowed(&[]),\n");
}

#[test]
fn test_compound_values() {
    let ron = ron_code();
    has(&ron, "    pub countdown: Cow<'static, [i64]>,\n");
    has(&ron, &format!("    countdown: Cow::Borrowed(&{:?}),\n", [3, 2, 1]));
    has(&ron, "    structure: Config__structure {\n        name: Cow::Borrowed(\"Doesn't have one, sadly.\"),\n        status: Cow::Borrowed(\"Naw too bad.\"),\n    },\n");
    has(&ron, "    objects: Cow::Borrowed(&[Config__objects {\n            index: 0,\n            name: Cow::Borrowed(\"Thing 1\"),\n        }, Config__objects {\n            index: 1,\n            name: Cow::Borrowed(\"Thing 2\"),\n        }]),\n");
}

#[test]
fn lib_test_simple_array_values() {
    let toml = toml_code();
    has(&toml, &format!("    coord: Cow::Borrowed(&{:?}),\n", [-5.0, 5.0]));
    has(&toml, "    pub color: Cow<'static, [i64]>,\n");
    has(&toml, &format!("    color: Cow::Borrowed(&{:?}),\n", [0, 64, 128, 255]));
    has(&toml, "    pub words: Cow<'static, [Cow<'static, str>]>,\n");
    has(&toml, "    words: Cow::Borrowed(&[Cow::Borrowed(\"one\"), Cow::Borrowed(\"two\"), Cow::Borrowed(\"three\")]),\n");
    has(&toml, "    pub points: Cow<'static, [Cow<'static, [i64]>]>,\n");
    has(&toml, "    points: Cow::Borrowed(&[Cow::Borrowed(&[1, 2]), Cow::Borrowed(&[3, 4]), Cow::Borrowed(&[5, 6])]),\n");
}

#[test]
fn test_simple_array_values() {
    let options = StructOptions {
        format: Some(Format::Toml),
        max_array_size: 4,
        ..StructOptions::default()
    };
    let toml = generate_struct_from_source(TOML_SOURCE, &options).unwrap();
    has(&toml, "    pub coord: [f64; 2],\n");
    has(&toml, &format!("    coord: {:?},\n", [-5.0, 5.0]));
    has(&toml, "    pub color: [i64; 4],\n");
    has(&toml, &format!("    color: {:?},\n", [0, 64, 128, 255]));
    has(&toml, "    pub words: [Cow<'static, str>; 3],\n");
    has(&toml, "    words: [Cow::Borrowed(\"one\"), Cow::Borrowed(\"two\"), Cow::Borrowed(\"three\")],\n");
    has(&toml, "    pub points: [[i64; 2]; 3],\n");
    has(&toml, &format!("    points: {:?},\n", [[1, 2], [3, 4], [5, 6]]));
}

#[test]
fn lib_test_table_values() {
    let toml = toml_code();
    has(&toml, &format!("    table: Config__table {{\n        magnitude: {},\n        name: Cow::Borrowed(\"A table\"),\n", 1000000000));
}

#[test]
fn test_table_values() {
    let toml = toml_code();
    has(&toml, "    pub table: Config__table,\n");
    has(&toml, "pub struct Config__table {\n    pub magnitude: i64,\n    pub name: Cow<'static, str>,\n    pub table_again: Config__table__table_again,\n}\n");
}

#[test]
fn lib_test_nested_tables() {
    let toml = toml_code();
    has(&toml, "        table_again: Config__table__table_again {\n            description: Cow::Borrowed(\"getting ridiculous\"),\n            name: Cow::Borrowed(\"OK this is just getting ridiculous\"),\n        },\n");
}

#[test]
fn test_nested_tables() {
    let toml = toml_code();
    has(&toml, "pub struct Config__table__table_again {\n    pub description: Cow<'static, str>,\n    pub name: Cow<'static, str>,\n}\n");
}

#[test]
fn lib_test_array_of_tables() {
    let toml = toml_code();
    has(&toml, "    arrayble: Cow::Borrowed(&[Config__arrayble {\n            description: Cow::Borrowed(\"just unbelievable\"),\n        }, Config__arrayble {\n            description: Cow::Borrowed(\"what is this syntax\"),\n        }]),\n");
}

#[test]
fn test_array_of_tables() {
    let toml = toml_code();
    has(&toml, "    pub arrayble: Cow<'static, [Config__arrayble]>,\n");
    has(&toml, "pub struct Config__arrayble {\n    pub description: Cow<'static, str>,\n}\n");
}

#[test]
fn round_trip_of_a_small_document() {
    let source = r#"{"name": "Application", "version": 5, "features": ["one","two","three"]}"#;
    let options = StructOptions {
        format: Some(Format::Json),
        ..StructOptions::default()
    };
    let code = generate_struct_from_source(source, &options).unwrap();
    assert_eq!(
        code,
        "#![cfg_attr(rustfmt, rustfmt_skip)]\n#![allow(dead_code)]\n\nuse std::borrow::Cow;\n\n#[derive(Debug, Clone)]\n#[allow(non_camel_case_types)]\npub struct Config {\n    pub features: Cow<'static, [Cow<'static, str>]>,\n    pub name: Cow<'static, str>,\n    pub version: i64,\n}\n\npub const CONFIG: Config = Config {\n    features: Cow::Borrowed(&[Cow::Borrowed(\"one\"), Cow::Borrowed(\"two\"), Cow::Borrowed(\"three\")]),\n    name: Cow::Borrowed(\"Application\"),\n    version: 5,\n};\n"
    );
}

#[test]
fn generation_is_repeatable() {
    let options = StructOptions {
        format: Some(Format::Toml),
        max_array_size: 4,
        ..StructOptions::default()
    };
    let first = generate_struct_from_source(TOML_SOURCE, &options).unwrap();
    let second = generate_struct_from_source(TOML_SOURCE, &options.clone()).unwrap();
    assert_eq!(first, second);
    assert!(first.contains("    pub color: [i64; 4],\n"));
    assert!(first.contains("    color: [0, 64, 128, 255],\n"));
    assert!(first.contains("    pub empty: Cow<'static, [()]>,\n"));
}

#[test]
fn nested_records_are_named_after_parent_and_key() {
    let options = StructOptions {
        format: Some(Format::Json),
        ..StructOptions::default()
    };
    let code = generate_struct_from_source(r#"{"a": {"b": 1}}"#, &options).unwrap();
    assert!(code.contains("pub struct Config {\n    pub a: Config__a,\n}\n"));
    assert!(code.contains("pub struct Config__a {\n    pub b: i64,\n}\n"));
    assert!(code.contains("    a: Config__a {\n        b: 1,\n    },\n"));
}

#[test]
fn load_functions_follow_dynamic_loading() {
    let never = StructOptions {
        format: Some(Format::Json),
        dynamic_loading: DynamicLoading::Never,
        generate_const: false,
        ..StructOptions::serde_default()
    };
    let code = generate_struct_from_source("{}", &never).unwrap();
    assert!(code.contains("pub const CONFIG: Config = Config {\n};\n"));
    assert!(code.contains("Cow::Borrowed(&CONFIG)"));
    assert!(!code.contains("debug_assertions"));

    let always = StructOptions {
        dynamic_loading: DynamicLoading::Always,
        generate_const: false,
        ..StructOptions::serde_default()
    };
    let code =
        generate_struct_from_source_with_filepath("{}", &always, Some("dir/conf.json")).unwrap();
    assert!(!code.contains("pub const"));
    assert!(code.contains("\"/dir/conf.json\""));
    assert!(!code.contains("debug_assertions"));
}
