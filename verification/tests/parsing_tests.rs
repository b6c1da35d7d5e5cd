use config_struct::enums::generate_enum_code;
use config_struct::files_enum::{files_enum_from_stems, sort_keys};
use config_struct::generation::{type_string, value_string};
use config_struct::json_parsing::parse_json;
use config_struct::parsing::{parsed_to_generic_struct, preferred_float, preferred_int};
use config_struct::ron_guard::ron_has_small_numbers;
use config_struct::ron_parsing::parse_ron;
use config_struct::toml_parsing::parse_toml;
use config_struct::yaml_parsing::parse_yaml;
use config_struct::{
    generate_config_from_source, generate_enum_from_source,
    generate_enum_from_source_with_filepath, generate_struct_from_source,
    generate_struct_from_source_with_filepath, EnumOptions, FloatSize, Format, GenerationError,
    GenericValue, IntSize, OptionsError, StructOptions,
};

#[test]
fn test_non_string_keys() {
    let ron_code = r#"(100: "One hundred")"#;
    assert!(parse_ron(ron_code, &StructOptions::default()).is_err());
}

#[test]
fn test_non_struct_root_object() {
    let ron_code = r#"["key", "value"]"#;
    assert!(parse_ron(ron_code, &StructOptions::default()).is_err());
}

#[test]
fn ron_errors_say_what_is_wrong() {
    match parse_ron(r#"["key", "value"]"#, &StructOptions::default()) {
        Err(GenerationError::DeserializationFailed(message)) => {
            assert_eq!(message, "Root RON object must be a struct or map.")
        }
        other => panic!("unexpected result: {:?}", other),
    }
    match parse_ron(r#"{100: "One hundred"}"#, &StructOptions::default()) {
        Err(GenerationError::DeserializationFailed(message)) => {
            assert_eq!(message, "Top-level keys in RON map must be strings.")
        }
        other => panic!("unexpected result: {:?}", other),
    }
    match parse_ron(r#"{"a": {100: "One hundred"}}"#, &StructOptions::default()) {
        Err(GenerationError::DeserializationFailed(message)) => {
            assert_eq!(message, "Keys in RON maps must be strings.")
        }
        other => panic!("unexpected result: {:?}", other),
    }
    match parse_ron("(", &StructOptions::default()) {
        Err(GenerationError::DeserializationFailed(_)) => {}
        other => panic!("unexpected result: {:?}", other),
    }
}

#[test]
fn yaml_keys_have_to_be_texts() {
    match parse_yaml("a:\n  1: one\n", &StructOptions::default()) {
        Err(GenerationError::DeserializationFailed(message)) => {
            assert_eq!(message, "Keys in YAML maps must be strings.")
        }
        other => panic!("unexpected result: {:?}", other),
    }
    assert!(parse_yaml("a:\n  b: one\n", &StructOptions::default()).is_ok());
    assert!(parse_yaml("- a\n- b\n", &StructOptions::default()).is_err());
}

#[test]
fn test_number_sizes() {
    let basic_options = StructOptions {
        generate_load_fns: false,
        generate_const: false,
        ..Default::default()
    };

    let f32_opts = StructOptions {
        default_float_size: FloatSize::F32,
        ..basic_options.clone()
    };

    let f64_opts = StructOptions {
        default_float_size: FloatSize::F64,
        ..basic_options.clone()
    };

    let i8_opts = StructOptions {
        default_int_size: IntSize::I8,
        ..basic_options.clone()
    };

    let i16_opts = StructOptions {
        default_int_size: IntSize::I16,
        ..basic_options.clone()
    };

    let i32_opts = StructOptions {
        default_int_size: IntSize::I32,
        ..basic_options.clone()
    };

    let i64_opts = StructOptions {
        default_int_size: IntSize::I64,
        ..basic_options.clone()
    };

    let isize_opts = StructOptions {
        default_int_size: IntSize::ISize,
        ..basic_options.clone()
    };

    let float_tests = &[(f32_opts, "f32"), (f64_opts, "f64")];

    let int_tests = &[
        (i8_opts, "i8"),
        (i16_opts, "i16"),
        (i32_opts, "i32"),
        (i64_opts, "i64"),
        (isize_opts, "isize"),
    ];

    let float_inputs = &[
        (Format::Json, r#"{"number": 100.5}"#),
        (Format::Ron, "(number: 100.5)"),
        (Format::Toml, "number = 100.5"),
        (Format::Yaml, "number: 100.5"),
    ];

    let int_inputs = &[
        (Format::Json, r#"{"number": 100}"#),
        (Format::Ron, "(number: 100)"),
        (Format::Toml, "number = 100"),
        (Format::Yaml, "number: 100"),
    ];

    for &(ref options, expected_type) in float_tests {
        for &(format, code) in float_inputs {
            let generated_code = generate_config_from_source(format, code, options).unwrap();

            assert!(
                generated_code.contains(expected_type),
                "Expected to find {}",
                expected_type
            );
            assert!(generated_code.contains(&format!("    pub number: {},\n", expected_type)));

            let with_format = StructOptions {
                format: Some(format),
                ..options.clone()
            };
            assert_eq!(
                generate_struct_from_source(code, &with_format).unwrap(),
                generated_code
            );
        }
    }

    for &(ref options, expected_type) in int_tests {
        for &(format, code) in int_inputs {
            let generated_code = generate_config_from_source(format, code, options).unwrap();

            assert!(
                generated_code.contains(expected_type),
                "Expected to find {}",
                expected_type
            );
            assert!(generated_code.contains(&format!("    pub number: {},\n", expected_type)));

            let with_format = StructOptions {
                format: Some(format),
                ..options.clone()
            };
            assert_eq!(
                generate_struct_from_source(code, &with_format).unwrap(),
                generated_code
            );
        }
    }
}

#[test]
fn preferred_widths() {
    assert_eq!(value_string(&preferred_int(100, IntSize::I8), 0, 0), "100");
    assert_eq!(type_string(&preferred_int(100, IntSize::I8)), "i8");
    assert_eq!(value_string(&preferred_int(300, IntSize::I8), 0, 0), "44");
    assert_eq!(value_string(&preferred_int(-129, IntSize::I8), 0, 0), "127");
    assert_eq!(value_string(&preferred_int(70000, IntSize::I16), 0, 0), "4464");
    assert_eq!(
        value_string(&preferred_int(4294967296 + 7, IntSize::I32), 0, 0),
        "7"
    );
    assert_eq!(
        value_string(&preferred_int(i64::MIN, IntSize::I64), 0, 0),
        "-9223372036854775808"
    );
    assert_eq!(type_string(&preferred_int(1, IntSize::ISize)), "isize");
    assert_eq!(
        type_string(&preferred_float("1.5".to_owned(), FloatSize::F32)),
        "f32"
    );
    assert_eq!(
        type_string(&preferred_float("1.5".to_owned(), FloatSize::F64)),
        "f64"
    );
    assert_eq!(
        value_string(&preferred_float("2".to_owned(), FloatSize::F32), 0, 0),
        "2.0"
    );
}

#[test]
fn root_record_is_named_config_and_sorted() {
    let record = parsed_to_generic_struct(vec![
        ("b".to_owned(), GenericValue::U8(1)),
        ("a".to_owned(), GenericValue::U8(2)),
        ("b".to_owned(), GenericValue::U8(3)),
    ]);
    assert_eq!(record.struct_name, "Config");
    let names: Vec<&str> = record.fields.iter().map(|field| field.0.as_str()).collect();
    assert_eq!(names, vec!["a", "b"]);
    assert_eq!(value_string(&record.fields[1].1, 0, 0), "3");
}

#[test]
fn json_values_are_converted() {
    let record = parse_json(
        r#"{"z": null, "big": 18446744073709551615, "neg": -3, "f": 2.0, "t": "x", "l": [true], "o": {"k": {"q": 1}}}"#,
        &StructOptions::default(),
    )
    .unwrap();
    let names: Vec<&str> = record.fields.iter().map(|field| field.0.as_str()).collect();
    assert_eq!(names, vec!["big", "f", "l", "neg", "o", "t", "z"]);
    assert_eq!(type_string(&record.fields[0].1), "u64");
    assert_eq!(value_string(&record.fields[1].1, 0, 0), "2.0");
    assert_eq!(type_string(&record.fields[2].1), "Cow<'static, [bool]>");
    assert_eq!(value_string(&record.fields[3].1, 0, 0), "-3");
    assert_eq!(type_string(&record.fields[4].1), "Config__o");
    assert_eq!(
        value_string(&record.fields[4].1, 0, 0),
        "Config__o {\n    k: Config__o__k {\n        q: 1,\n    },\n}"
    );
    assert_eq!(value_string(&record.fields[6].1, 0, 0), "None");
    assert!(parse_json("[1]", &StructOptions::default()).is_err());
    assert!(parse_json("{", &StructOptions::default()).is_err());
}

#[test]
fn toml_dates_are_texts() {
    let record = parse_toml(
        "when = 1979-05-27T07:32:00Z\n[t]\nx = 1\n",
        &StructOptions::default(),
    )
    .unwrap();
    assert_eq!(type_string(&record.fields[1].1), "Cow<'static, str>");
    assert_eq!(
        value_string(&record.fields[1].1, 0, 0),
        "Cow::Borrowed(\"1979-05-27T07:32:00Z\")"
    );
    assert_eq!(type_string(&record.fields[0].1), "Config__t");
    assert!(parse_toml("= 1", &StructOptions::default()).is_err());
}

#[test]
fn ron_numbers_with_a_point_are_floats() {
    let record = parse_ron("(a: 1, b: 1.5, c: Some('x'), d: -2.0)", &StructOptions::default())
        .unwrap();
    assert_eq!(type_string(&record.fields[0].1), "i64");
    assert_eq!(type_string(&record.fields[1].1), "f64");
    assert_eq!(value_string(&record.fields[1].1, 0, 0), "1.5");
    assert_eq!(value_string(&record.fields[2].1, 0, 0), "Some('x')");
    assert_eq!(type_string(&record.fields[3].1), "i64");
    assert_eq!(value_string(&record.fields[3].1, 0, 0), "-2");
}

#[test]
fn generation_errors() {
    let json = StructOptions {
        format: Some(Format::Json),
        ..StructOptions::default()
    };
    match generate_struct_from_source("{}", &StructOptions::default()) {
        Err(GenerationError::UnknownInputFormat(name)) => assert_eq!(name, "<none>"),
        other => panic!("unexpected result: {:?}", other),
    }
    match generate_struct_from_source_with_filepath("{}", &StructOptions::default(), Some("c.txt"))
    {
        Err(GenerationError::UnknownInputFormat(name)) => assert_eq!(name, "txt"),
        other => panic!("unexpected result: {:?}", other),
    }
    match generate_struct_from_source(r#"{"a b": 1}"#, &json) {
        Err(GenerationError::InvalidFieldName(name)) => assert_eq!(name, "a b"),
        other => panic!("unexpected result: {:?}", other),
    }
    match generate_struct_from_source(r#"{"list": [1, "two"]}"#, &json) {
        Err(GenerationError::HeterogenousArray(key)) => assert_eq!(key, "list"),
        other => panic!("unexpected result: {:?}", other),
    }
    match generate_struct_from_source("{", &json) {
        Err(GenerationError::DeserializationFailed(_)) => {}
        other => panic!("unexpected result: {:?}", other),
    }
    match generate_struct_from_source("{}", &StructOptions { generate_load_fns: true, ..json.clone() }) {
        Err(GenerationError::MissingFilePath) => {}
        other => panic!("unexpected result: {:?}", other),
    }
    match generate_struct_from_source("{", &StructOptions { struct_name: "".to_owned(), ..json.clone() }) {
        Err(GenerationError::StructOptions(OptionsError::InvalidStructName(name))) => {
            assert_eq!(name, "")
        }
        other => panic!("unexpected result: {:?}", other),
    }
    match generate_struct_from_source("{}", &StructOptions { const_name: Some("a-b".to_owned()), ..json.clone() }) {
        Err(GenerationError::StructOptions(OptionsError::InvalidConstName(name))) => {
            assert_eq!(name, "a-b")
        }
        other => panic!("unexpected result: {:?}", other),
    }
}

#[test]
fn enum_from_each_format() {
    for (format, source) in [
        (Format::Json, r#"{"KeyTwo": 1, "KeyOne": 2}"#),
        (Format::Ron, r#"{"KeyTwo": 1, "KeyOne": 2}"#),
        (Format::Toml, "[KeyTwo]\n[KeyOne]\n"),
        (Format::Yaml, "KeyTwo:\n  - data\nKeyOne:\n  - more\n"),
    ] {
        let options = EnumOptions {
            format: Some(format),
            ..Default::default()
        };
        let code = generate_enum_from_source(source, &options).unwrap();
        assert!(code.contains("pub enum Key {\n    KeyTwo,\n    KeyOne,\n}\n"), "{}", code);
        assert!(code.contains("pub const ALL: &'static [Key] = &[Key::KeyTwo, Key::KeyOne];"));
    }
}

#[test]
fn enum_errors() {
    match generate_enum_from_source("[KeyOne]\n", &EnumOptions::default()) {
        Err(GenerationError::UnknownInputFormat(name)) => assert_eq!(name, "<none>"),
        other => panic!("unexpected result: {:?}", other),
    }
    let code =
        generate_enum_from_source_with_filepath("[KeyOne]\n", &EnumOptions::default(), Some("k.toml"))
            .unwrap();
    assert!(code.contains("pub enum Key {\n    KeyOne,\n}\n"));
    let toml = EnumOptions {
        format: Some(Format::Toml),
        ..Default::default()
    };
    match generate_enum_from_source("[\"Key One\"]\n[Other]\n", &toml) {
        Err(GenerationError::InvalidVariantName(name)) => assert_eq!(name, "Key One"),
        other => panic!("unexpected result: {:?}", other),
    }
    match generate_enum_from_source("[", &toml) {
        Err(GenerationError::DeserializationFailed(_)) => {}
        other => panic!("unexpected result: {:?}", other),
    }
    match generate_enum_from_source("", &EnumOptions { enum_name: "a b".to_owned(), ..toml.clone() }) {
        Err(GenerationError::StructOptions(OptionsError::InvalidStructName(name))) => {
            assert_eq!(name, "a b")
        }
        other => panic!("unexpected result: {:?}", other),
    }
    match generate_enum_code(&vec!["Fine".to_owned(), "1".to_owned(), "2".to_owned()], &toml) {
        Err(GenerationError::InvalidVariantName(name)) => assert_eq!(name, "1"),
        other => panic!("unexpected result: {:?}", other),
    }
}

#[test]
fn files_enum_is_sorted_camel_case() {
    let stems = vec![
        "second_file".to_owned(),
        "first".to_owned(),
        "a_string_and_a_miss".to_owned(),
    ];
    let code = files_enum_from_stems(&stems, &EnumOptions::default()).unwrap();
    assert!(code.contains("pub enum Key {\n    AStringAndAMiss,\n    First,\n    SecondFile,\n}\n"));
    match files_enum_from_stems(&vec!["1_one".to_owned()], &EnumOptions::default()) {
        Err(GenerationError::InvalidVariantName(name)) => assert_eq!(name, "1One"),
        other => panic!("unexpected result: {:?}", other),
    }
}

#[test]
fn keys_are_sorted_like_strings() {
    let keys = vec![
        "b".to_owned(),
        "a".to_owned(),
        "ab".to_owned(),
        "B".to_owned(),
        "".to_owned(),
        "a".to_owned(),
        "\u{e9}".to_owned(),
        "z".to_owned(),
    ];
    let mut expected = keys.clone();
    expected.sort();
    assert_eq!(sort_keys(&keys), expected);
    assert_eq!(sort_keys(&vec![]), Vec::<String>::new());
}

fn too_large(result: Result<config_struct::GenericStruct, GenerationError>) {
    match result {
        Err(GenerationError::DeserializationFailed(message)) => {
            assert_eq!(message, "A number in the RON document is too large.")
        }
        other => panic!("unexpected result: {:?}", other),
    }
}

#[test]
fn ron_numbers_beyond_the_range_are_refused() {
    let options = StructOptions::default();
    too_large(parse_ron("(x: 1.0e999)", &options));
    too_large(parse_ron("(x: -1e400)", &options));
    too_large(parse_ron("(s: \"a\", x: 1e999)", &options));
    too_large(parse_ron("(c: '\"', x: 1e999)", &options));
    too_large(parse_ron("// note\n(x: 1e999)", &options));
    too_large(parse_ron("/* a /* b */ c */ (x: 1e999)", &options));
    too_large(parse_ron("(s: r#\"a\"b\"#, x: 1e999)", &options));
    let long = format!("(x: 1{}.5)", "0".repeat(310));
    too_large(parse_ron(&long, &options));

    let ron = StructOptions {
        format: Some(Format::Ron),
        ..StructOptions::default()
    };
    match generate_struct_from_source("(x: 1.0e999)", &ron) {
        Err(GenerationError::DeserializationFailed(message)) => {
            assert_eq!(message, "A number in the RON document is too large.")
        }
        other => panic!("unexpected result: {:?}", other),
    }
    let keys = EnumOptions {
        format: Some(Format::Ron),
        ..Default::default()
    };
    match generate_enum_from_source("{\"A\": 1.0e999}", &keys) {
        Err(GenerationError::DeserializationFailed(message)) => {
            assert_eq!(message, "A number in the RON document is too large.")
        }
        other => panic!("unexpected result: {:?}", other),
    }
}

#[test]
fn ordinary_ron_documents_are_read() {
    let options = StructOptions::default();

    let record = parse_ron("(size100: 1)", &options).unwrap();
    assert_eq!(record.fields[0].0, "size100");
    assert_eq!(value_string(&record.fields[0].1, 0, 0), "1");

    let record = parse_ron("(node128: \"file001 e100 1e999\")", &options).unwrap();
    assert_eq!(record.fields[0].0, "node128");
    assert_eq!(
        value_string(&record.fields[0].1, 0, 0),
        "Cow::Borrowed(\"file001 e100 1e999\")"
    );

    let record = parse_ron("(x: 1e+100)", &options).unwrap();
    assert_eq!(type_string(&record.fields[0].1), "i64");
    assert_eq!(
        value_string(&record.fields[0].1, 0, 0),
        "9223372036854775807"
    );

    let record = parse_ron("(x: 1.5e-9, y: -2.5e-99, z: 1.0e2)", &options).unwrap();
    assert_eq!(type_string(&record.fields[0].1), "f64");
    assert_eq!(value_string(&record.fields[2].1, 0, 0), "100");

    let dashes = format!("//{} 1e999\n(x: 1) // 2e999", "-".repeat(300));
    assert!(parse_ron(&dashes, &options).is_ok());
    assert!(parse_ron("/* 1e999 /* 2e999 */ 3e999 */ (x: 1)", &options).is_ok());
    assert!(parse_ron("(c: '9', d: '\\'', s: r#\"1e999 \" \"#, t: r\"2e999\")", &options).is_ok());
    let record = parse_ron("(s: \"a \\\" 1e999\", x: 0x1e999)", &options).unwrap();
    assert_eq!(value_string(&record.fields[1].1, 0, 0), "125337");
    assert!(parse_ron("(s: \"a \\\" 1e999\", red: 1)", &options).is_ok());
}

#[test]
fn small_number_runs() {
    assert!(ron_has_small_numbers(""));
    assert!(ron_has_small_numbers("(a: 1e99, b: 12345.678e-10)"));
    assert!(ron_has_small_numbers("(size100: 1, e999: 2, x1e999: 3)"));
    assert!(ron_has_small_numbers("\"1e999\""));
    assert!(ron_has_small_numbers("'1' // 1e999"));
    assert!(ron_has_small_numbers("1e300"));
    assert!(ron_has_small_numbers("1.5e-999"));
    assert!(ron_has_small_numbers("0x1e999"));
    assert!(!ron_has_small_numbers("1e306"));
    assert!(!ron_has_small_numbers("1e999"));
    assert!(!ron_has_small_numbers("+.5E+999"));
    assert!(!ron_has_small_numbers("[1e5,1e999]"));
    assert!(!ron_has_small_numbers("\"a\"1e999"));
    assert!(!ron_has_small_numbers("/ 1e999"));
    assert!(ron_has_small_numbers(&"1".repeat(307)));
    assert!(!ron_has_small_numbers(&"1".repeat(308)));
    assert!(ron_has_small_numbers(&"-".repeat(1000)));
}

#[test]
fn names_without_a_point_have_no_format() {
    match Format::from_filename("Makefile") {
        Err(GenerationError::UnknownInputFormat(name)) => assert_eq!(name, "<none>"),
        other => panic!("unexpected result: {:?}", other),
    }
    match generate_struct_from_source_with_filepath("{}", &StructOptions::default(), Some("json")) {
        Err(GenerationError::UnknownInputFormat(name)) => assert_eq!(name, "<none>"),
        other => panic!("unexpected result: {:?}", other),
    }
    assert_eq!(
        Format::choose_for(Some(Format::Ron), Some("c.json")).unwrap(),
        Format::Ron
    );
    assert_eq!(Format::choose_for(None, Some("c.json")).unwrap(), Format::Json);
    assert!(Format::choose_for(None, None).is_err());
}
