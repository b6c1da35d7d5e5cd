use config_struct::error::GenerationError;
use config_struct::validation::{
    valid_identifier, validate_array_element_types, validate_field_name, validate_struct,
    validate_value,
};
use config_struct::value::{GenericStruct, GenericValue};

#[test]
fn valid_field_names() {
    assert_eq!(valid_identifier("x"), true);
    assert_eq!(valid_identifier("word"), true);
    assert_eq!(valid_identifier("two_words"), true);
    assert_eq!(valid_identifier("PascalCase"), true);
    assert_eq!(valid_identifier("number_150"), true);
    assert_eq!(valid_identifier("_private"), true);
    assert_eq!(valid_identifier("____very_private__"), true);
}

#[test]
fn invalid_field_names() {
    assert_eq!(valid_identifier(""), false);
    assert_eq!(valid_identifier("_"), false);
    assert_eq!(valid_identifier("100_number_before"), false);
    assert_eq!(valid_identifier("white space"), false);
    assert_eq!(valid_identifier("wierd*characters??"), false);
    assert_eq!(valid_identifier("emojiðŸ˜‡"), false);
    assert_eq!(valid_identifier("accÃ©nts"), false);
}

#[test]
fn non_ascii_letters_are_rejected() {
    assert_eq!(valid_identifier("emoji\u{1F607}"), false);
    assert_eq!(valid_identifier("acc\u{e9}nts"), false);
    assert_eq!(valid_identifier("\u{e9}"), false);
    assert_eq!(valid_identifier("a-b"), false);
    assert_eq!(valid_identifier("9"), false);
    assert_eq!(valid_identifier("__"), true);
    assert_eq!(valid_identifier("_9"), true);
    assert_eq!(valid_identifier("Z"), true);
}

fn validate_array_test(values: Vec<GenericValue>) -> Result<(), GenerationError> {
    validate_array_element_types("", &values)
}

#[test]
fn homogenous_arrays() {
    assert!(validate_array_test(vec![]).is_ok());
    assert!(validate_array_test(vec![GenericValue::Unit]).is_ok());
    assert!(validate_array_test(vec![GenericValue::Unit, GenericValue::Unit]).is_ok());
    assert!(validate_array_test(vec![GenericValue::I64(0), GenericValue::I64(1)]).is_ok());
    assert!(validate_array_test(vec![
        GenericValue::Array(vec![GenericValue::Unit]),
        GenericValue::Array(vec![GenericValue::Unit]),
    ])
    .is_ok());
}

#[test]
fn heterogenous_arrays() {
    assert!(validate_array_test(vec![GenericValue::Unit, GenericValue::I64(0)]).is_err());
    assert!(validate_array_test(vec![
        GenericValue::Array(vec![GenericValue::Unit]),
        GenericValue::Array(vec![GenericValue::I64(0)]),
    ])
    .is_err());
}

#[test]
fn heterogenous_array_names_its_key() {
    let values = vec![GenericValue::Unit, GenericValue::I64(0)];
    match validate_array_element_types("mixed", &values) {
        Err(GenerationError::HeterogenousArray(key)) => assert_eq!(key, "mixed"),
        other => panic!("unexpected result: {:?}", other),
    }
    match validate_value("outer", &GenericValue::Array(values)) {
        Err(GenerationError::HeterogenousArray(key)) => assert_eq!(key, "outer"),
        other => panic!("unexpected result: {:?}", other),
    }
}

#[test]
fn field_name_check_names_the_field() {
    assert!(validate_field_name("fine").is_ok());
    match validate_field_name("not fine") {
        Err(GenerationError::InvalidFieldName(name)) => assert_eq!(name, "not fine"),
        other => panic!("unexpected result: {:?}", other),
    }
}

#[test]
fn first_fault_of_a_record_is_reported() {
    let mut inner = GenericStruct::new("Inner".to_owned());
    inner.insert("bad name".to_owned(), GenericValue::Unit);
    let mut root = GenericStruct::new("Root".to_owned());
    root.insert(
        "a".to_owned(),
        GenericValue::Array(vec![GenericValue::Bool(true), GenericValue::U8(1)]),
    );
    root.insert("b".to_owned(), GenericValue::Struct(inner));
    match validate_struct(&root) {
        Err(GenerationError::HeterogenousArray(key)) => assert_eq!(key, "a"),
        other => panic!("unexpected result: {:?}", other),
    }
}

#[test]
fn nested_faults_are_found() {
    let mut inner = GenericStruct::new("Inner".to_owned());
    inner.insert("bad name".to_owned(), GenericValue::Unit);
    let mut root = GenericStruct::new("Root".to_owned());
    root.insert(
        "list".to_owned(),
        GenericValue::Array(vec![GenericValue::Option(Some(Box::new(GenericValue::Struct(
            inner,
        ))))]),
    );
    match validate_struct(&root) {
        Err(GenerationError::InvalidFieldName(name)) => assert_eq!(name, "bad name"),
        other => panic!("unexpected result: {:?}", other),
    }
}

#[test]
fn sound_records_pass() {
    let mut inner = GenericStruct::new("Inner".to_owned());
    inner.insert("x".to_owned(), GenericValue::I64(1));
    let mut root = GenericStruct::new("Root".to_owned());
    root.insert("nothing".to_owned(), GenericValue::Option(None));
    root.insert("inner".to_owned(), GenericValue::Struct(inner));
    root.insert("empty".to_owned(), GenericValue::Array(vec![]));
    root.insert("one".to_owned(), GenericValue::Array(vec![GenericValue::Unit]));
    assert!(validate_struct(&root).is_ok());
}
