use config_struct::generation::{
    derive_names, derive_string, float_string, generate_enum, generate_structs,
    struct_value_string, type_string, type_string_with_options, value_string,
};
use config_struct::options::{EnumOptions, SerdeSupport, StructOptions};
use config_struct::value::{GenericStruct, GenericValue};

fn units() -> Vec<GenericValue> {
    vec![GenericValue::Unit, GenericValue::Unit, GenericValue::Unit]
}

#[test]
fn generation_empty_slice_type() {
    assert_eq!(
        type_string_with_options(&GenericValue::Array(vec![]), 0),
        "Cow<'static, [()]>",
    );

    assert_eq!(
        type_string_with_options(&GenericValue::Array(vec![]), 4),
        "Cow<'static, [()]>",
    );
}

#[test]
fn generation_non_empty_slice_type() {
    assert_eq!(
        type_string_with_options(&GenericValue::Array(units()), 0),
        "Cow<'static, [()]>",
    );
}

#[test]
fn generation_non_empty_array_type() {
    assert_eq!(
        type_string_with_options(&GenericValue::Array(units()), 4),
        "[(); 3]",
    );
}

#[test]
fn generation_empty_slice_value() {
    assert_eq!(
        value_string(&GenericValue::Array(vec![]), 0, 0),
        "Cow::Borrowed(&[])",
    );

    assert_eq!(
        value_string(&GenericValue::Array(vec![]), 0, 4),
        "Cow::Borrowed(&[])",
    );
}

#[test]
fn generation_non_empty_slice_value() {
    assert_eq!(
        value_string(&GenericValue::Array(units()), 0, 0),
        "Cow::Borrowed(&[(), (), ()])",
    );
}

#[test]
fn generation_non_empty_array_value() {
    assert_eq!(
        value_string(&GenericValue::Array(units()), 0, 4),
        "[(), (), ()]",
    );
}

#[test]
fn float_string_tests() {
    assert_eq!(float_string(&(1.0f64).to_string()), "1.0");
    assert_eq!(float_string(&(1.5f64).to_string()), "1.5");
    assert_eq!(float_string(&(-2.5f64).to_string()), "-2.5");
    assert_eq!(float_string(&(123.456789f64).to_string()), "123.456789");
}

#[test]
fn float_literals_always_hold_a_point() {
    assert_eq!(float_string("1"), "1.0");
    assert_eq!(float_string("-7"), "-7.0");
    assert_eq!(float_string("0.25"), "0.25");
    assert_eq!(value_string(&GenericValue::F32("3".to_owned()), 0, 0), "3.0");
    assert_eq!(value_string(&GenericValue::F64("3.5".to_owned()), 0, 0), "3.5");
    assert_eq!(
        value_string(&GenericValue::F64((100.0f64).to_string()), 0, 0),
        "100.0"
    );
}

fn floats32(values: Vec<f32>) -> GenericValue {
    GenericValue::Array(
        values
            .into_iter()
            .map(|x| GenericValue::F32(x.to_string()))
            .collect(),
    )
}

fn ints32(values: Vec<i32>) -> GenericValue {
    GenericValue::Array(values.into_iter().map(GenericValue::I32).collect())
}

fn strings(values: Vec<String>) -> GenericValue {
    GenericValue::Array(values.into_iter().map(GenericValue::String).collect())
}

#[test]
fn simple_array_type_string_tests() {
    assert_eq!(type_string(&floats32(vec![1.0, 2.0])), "Cow<'static, [f32]>");
    assert_eq!(type_string(&ints32(vec![1, -2])), "Cow<'static, [i32]>");
    assert_eq!(
        type_string(&strings(vec!["one".to_owned(), "two".to_owned()])),
        "Cow<'static, [Cow<'static, str>]>"
    );
}

#[test]
fn simple_array_value_strings_tests() {
    assert_eq!(value_string(&ints32(vec![1]), 0, 0), "Cow::Borrowed(&[1])");
    assert_eq!(value_string(&ints32(vec![1, 3]), 0, 0), "Cow::Borrowed(&[1, 3])");
    assert_eq!(
        value_string(&ints32(vec![1, 3, 5]), 0, 0),
        "Cow::Borrowed(&[1, 3, 5])"
    );
    assert_eq!(
        value_string(&strings(vec!["one".to_owned(), "two".to_owned()]), 0, 0),
        "Cow::Borrowed(&[Cow::Borrowed(\"one\"), Cow::Borrowed(\"two\")])"
    );
}

#[test]
fn primitive_type_names() {
    assert_eq!(type_string(&GenericValue::Unit), "()");
    assert_eq!(type_string(&GenericValue::Bool(true)), "bool");
    assert_eq!(type_string(&GenericValue::Char('c')), "char");
    assert_eq!(type_string(&GenericValue::I8(0)), "i8");
    assert_eq!(type_string(&GenericValue::I16(0)), "i16");
    assert_eq!(type_string(&GenericValue::I32(0)), "i32");
    assert_eq!(type_string(&GenericValue::I64(0)), "i64");
    assert_eq!(type_string(&GenericValue::U8(0)), "u8");
    assert_eq!(type_string(&GenericValue::U16(0)), "u16");
    assert_eq!(type_string(&GenericValue::U32(0)), "u32");
    assert_eq!(type_string(&GenericValue::U64(0)), "u64");
    assert_eq!(type_string(&GenericValue::ISize(0)), "isize");
    assert_eq!(type_string(&GenericValue::Usize(0)), "usize");
    assert_eq!(type_string(&GenericValue::F32("0".to_owned())), "f32");
    assert_eq!(type_string(&GenericValue::F64("0".to_owned())), "f64");
    assert_eq!(
        type_string(&GenericValue::String("s".to_owned())),
        "Cow<'static, str>"
    );
}

#[test]
fn option_types_and_values() {
    let absent = GenericValue::Option(None);
    let unit = GenericValue::Option(Some(Box::new(GenericValue::Unit)));
    let ten = GenericValue::Option(Some(Box::new(GenericValue::I64(10))));
    assert_eq!(type_string(&absent), "Option<()>");
    assert_eq!(type_string(&unit), "Option<()>");
    assert_eq!(type_string(&ten), "Option<i64>");
    assert_eq!(value_string(&absent, 0, 0), "None");
    assert_eq!(value_string(&unit, 0, 0), "Some(())");
    assert_eq!(value_string(&ten, 0, 0), "Some(10)");
}

#[test]
fn array_size_limit_decides_the_form() {
    let three = GenericValue::Array(vec![
        GenericValue::U8(1),
        GenericValue::U8(2),
        GenericValue::U8(3),
    ]);
    assert_eq!(type_string_with_options(&three, 3), "[u8; 3]");
    assert_eq!(type_string_with_options(&three, 2), "Cow<'static, [u8]>");
    assert_eq!(type_string_with_options(&three, 0), "Cow<'static, [u8]>");
    assert_eq!(value_string(&three, 0, 3), "[1, 2, 3]");
    assert_eq!(value_string(&three, 0, 2), "Cow::Borrowed(&[1, 2, 3])");
    let nested = GenericValue::Array(vec![three]);
    assert_eq!(type_string_with_options(&nested, 3), "[[u8; 3]; 1]");
    assert_eq!(value_string(&nested, 0, 3), "[[1, 2, 3]]");
}

#[test]
fn integer_literals() {
    assert_eq!(value_string(&GenericValue::I8(-128), 0, 0), "-128");
    assert_eq!(value_string(&GenericValue::I16(-32768), 0, 0), "-32768");
    assert_eq!(value_string(&GenericValue::I32(0), 0, 0), "0");
    assert_eq!(
        value_string(&GenericValue::I64(i64::MIN), 0, 0),
        "-9223372036854775808"
    );
    assert_eq!(
        value_string(&GenericValue::I64(i64::MAX), 0, 0),
        "9223372036854775807"
    );
    assert_eq!(
        value_string(&GenericValue::U64(u64::MAX), 0, 0),
        "18446744073709551615"
    );
    assert_eq!(value_string(&GenericValue::U8(255), 0, 0), "255");
    assert_eq!(value_string(&GenericValue::Usize(10), 0, 0), "10");
    assert_eq!(value_string(&GenericValue::ISize(-10), 0, 0), "-10");
}

#[test]
fn other_literals() {
    assert_eq!(value_string(&GenericValue::Unit, 0, 0), "()");
    assert_eq!(value_string(&GenericValue::Bool(true), 0, 0), "true");
    assert_eq!(value_string(&GenericValue::Bool(false), 0, 0), "false");
    assert_eq!(value_string(&GenericValue::Char('A'), 0, 0), "'A'");
    assert_eq!(
        value_string(&GenericValue::String("text".to_owned()), 0, 0),
        "Cow::Borrowed(\"text\")"
    );
}

fn sample() -> GenericStruct {
    let mut inner = GenericStruct::new("Outer__inner".to_owned());
    inner.insert("y".to_owned(), GenericValue::I64(2));
    inner.insert("x".to_owned(), GenericValue::I64(1));
    let mut root = GenericStruct::new("Outer".to_owned());
    root.insert("name".to_owned(), GenericValue::String("n".to_owned()));
    root.insert("inner".to_owned(), GenericValue::Struct(inner));
    root
}

#[test]
fn record_literal_is_indented() {
    assert_eq!(
        struct_value_string(&sample(), 0, 0),
        "Outer {\n    inner: Outer__inner {\n        x: 1,\n        y: 2,\n    },\n    name: Cow::Borrowed(\"n\"),\n}"
    );
    assert_eq!(
        struct_value_string(&GenericStruct::new("Empty".to_owned()), 4, 0),
        "Empty {\n    }"
    );
}

#[test]
fn fields_are_kept_in_order_of_their_names() {
    let mut record = GenericStruct::new("R".to_owned());
    record.insert("b".to_owned(), GenericValue::U8(1));
    record.insert("a".to_owned(), GenericValue::U8(2));
    record.insert("c".to_owned(), GenericValue::U8(3));
    record.insert("b".to_owned(), GenericValue::U8(4));
    record.insert("B".to_owned(), GenericValue::U8(5));
    record.insert("ab".to_owned(), GenericValue::U8(6));
    let names: Vec<&str> = record.fields.iter().map(|field| field.0.as_str()).collect();
    assert_eq!(names, vec!["B", "a", "ab", "b", "c"]);
    assert_eq!(value_string(&record.fields[3].1, 0, 0), "4");
}

#[test]
fn declarations_come_in_pre_order() {
    let options = StructOptions::default();
    assert_eq!(
        generate_structs(&sample(), &options),
        "#[derive(Debug, Clone)]\n#[allow(non_camel_case_types)]\npub struct Outer {\n    pub inner: Outer__inner,\n    pub name: Cow<'static, str>,\n}\n\n#[derive(Debug, Clone)]\n#[allow(non_camel_case_types)]\npub struct Outer__inner {\n    pub x: i64,\n    pub y: i64,\n}\n\n"
    );
}

#[test]
fn only_the_first_element_of_an_array_is_declared() {
    let mut first = GenericStruct::new("First".to_owned());
    first.insert("a".to_owned(), GenericValue::Bool(true));
    let mut second = GenericStruct::new("Second".to_owned());
    second.insert("b".to_owned(), GenericValue::Bool(true));
    let mut root = GenericStruct::new("Root".to_owned());
    root.insert(
        "items".to_owned(),
        GenericValue::Array(vec![GenericValue::Struct(first), GenericValue::Struct(second)]),
    );
    let mut options = StructOptions::default();
    options.derived_traits = vec![];
    assert_eq!(
        generate_structs(&root, &options),
        "#[allow(non_camel_case_types)]\npub struct Root {\n    pub items: Cow<'static, [First]>,\n}\n\n#[allow(non_camel_case_types)]\npub struct First {\n    pub a: bool,\n}\n\n"
    );
}

#[test]
fn derive_line_lists_the_traits_then_serde() {
    let traits = vec!["Debug".to_owned()];
    assert_eq!(
        derive_names(&traits, SerdeSupport::Yes, false),
        vec!["Debug", "serde::Serialize", "serde::Deserialize"]
    );
    assert_eq!(
        derive_names(
            &traits,
            SerdeSupport::Mixed {
                serialize: false,
                deserialize: true
            },
            true
        ),
        vec!["Debug", "serde_derive::Deserialize"]
    );
    assert_eq!(
        derive_names(
            &traits,
            SerdeSupport::Mixed {
                serialize: false,
                deserialize: false
            },
            true
        ),
        vec!["Debug"]
    );
    assert_eq!(derive_names(&traits, SerdeSupport::No, true), vec!["Debug"]);
    assert_eq!(derive_string(&vec![]), "");
    assert_eq!(
        derive_string(&vec!["A".to_owned(), "B".to_owned()]),
        "#[derive(A, B)]\n"
    );
}

#[test]
fn enum_with_all_parts() {
    let keys = vec!["ItemOne".to_owned(), "ItemTwo".to_owned()];
    let code = generate_enum(&keys, &EnumOptions::default());
    assert_eq!(
        code,
        "#![cfg_attr(rustfmt, rustfmt_skip)]\n#![allow(dead_code)]\n\n#[derive(Debug, Clone, Copy, PartialEq, Eq, PartialOrd, Ord, Hash)]\npub enum Key {\n    ItemOne,\n    ItemTwo,\n}\n\nimpl Key {\n    pub const ALL: &'static [Key] = &[Key::ItemOne, Key::ItemTwo];\n}\n\nimpl Default for Key {\n    fn default() -> Self {\n        Self::ItemOne\n    }\n}\n\nimpl std::fmt::Display for Key {\n    fn fmt(&self, f: &mut std::fmt::Formatter) -> std::fmt::Result {\n        write!(f, \"{:?}\", self)\n    }\n}\n\nimpl std::str::FromStr for Key {\n    type Err = ();\n\n    fn from_str(s: &str) -> Result<Self, Self::Err> {\n        const STRINGS: &'static [&'static str] = &[\"ItemOne\", \"ItemTwo\"];\n\n        for (index, &key) in STRINGS.iter().enumerate() {\n            if key == s {\n                return Ok(Key::ALL[index]);\n            }\n        }\n\n        Err(())\n    }\n}\n"
    );
}

#[test]
fn enum_parts_follow_the_options() {
    let keys = vec!["A".to_owned()];
    let mut options = EnumOptions::default();
    options.all_variants_const = None;
    options.derived_traits = vec![];
    options.impl_display = false;
    let code = generate_enum(&keys, &options);
    assert_eq!(
        code,
        "#![cfg_attr(rustfmt, rustfmt_skip)]\n#![allow(dead_code)]\n\npub enum Key {\n    A,\n}\n\nimpl Default for Key {\n    fn default() -> Self {\n        Self::A\n    }\n}\n"
    );
    let none: Vec<String> = vec![];
    options.first_variant_is_default = true;
    assert_eq!(
        generate_enum(&none, &options),
        "#![cfg_attr(rustfmt, rustfmt_skip)]\n#![allow(dead_code)]\n\npub enum Key {\n}\n"
    );
}

#[test]
fn copies_hold_the_same() {
    let record = sample();
    let copy = record.clone();
    assert_eq!(
        struct_value_string(&copy, 0, 0),
        struct_value_string(&record, 0, 0)
    );
    let value = GenericValue::Array(vec![
        GenericValue::Option(Some(Box::new(GenericValue::Struct(record)))),
        GenericValue::Option(None),
    ]);
    let twin = value.clone();
    assert_eq!(value_string(&twin, 4, 1), value_string(&value, 4, 1));
    assert_eq!(type_string(&twin), "Cow<'static, [Option<Outer>]>");
}

#[test]
fn order_of_fields_can_be_tested() {
    assert!(sample().is_ordered());
    assert!(GenericStruct::new("Empty".to_owned()).is_ordered());
    let unordered = GenericStruct {
        struct_name: "R".to_owned(),
        fields: vec![
            ("b".to_owned(), GenericValue::Unit),
            ("a".to_owned(), GenericValue::Unit),
            ("a".to_owned(), GenericValue::Unit),
        ],
    };
    assert!(!unordered.is_ordered());
    let twice = GenericStruct {
        struct_name: "R".to_owned(),
        fields: vec![
            ("a".to_owned(), GenericValue::Unit),
            ("a".to_owned(), GenericValue::Unit),
        ],
    };
    assert!(!twice.is_ordered());
    let nested = GenericValue::Array(vec![GenericValue::Option(Some(Box::new(
        GenericValue::Struct(unordered),
    )))]);
    assert!(!nested.is_ordered());
    assert!(GenericValue::Array(vec![GenericValue::Struct(sample())]).is_ordered());
    assert!(GenericValue::I8(1).is_ordered());
}
