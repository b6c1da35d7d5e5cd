//! The adapter for YAML documents, on top of the `serde_yaml` crate.

use vstd::prelude::*;
use vstd::string::*;
use crate::error::{GenerationError, GenerationErrorModel};
use crate::options::{FloatSize, IntSize, StructOptions};
use crate::generation::type_text;
use crate::parsing::{
    collect_fields,
    lemma_collected_fields_ascend,
    lemma_collected_record_is_ordered,
    lemma_number_is_ordered,
    nested_name,
    nested_struct_name,
    number_value,
    parsed_to_generic_struct,
    preferred_float,
    key_list_model,
    keys_of_list,
    keys_result_model,
    preferred_int,
    record_result_model,
    NumberModel,
};
use crate::value::{
    fields_of,
    keys_ascend,
    lemma_value_is_ordered,
    record_is_ordered,
    value_is_ordered,
    lemma_array_model,
    models_of,
    GenericStruct,
    GenericValue,
    RecordModel,
    ValueModel,
};

verus! {

/// `serde_yaml::Value`: a parsed YAML value. Nothing inside it is seen here;
/// what it holds is read through [`yaml_node`].
#[verifier::external_type_specification]
#[verifier::external_body]
pub struct ExYamlValue(serde_yaml::Value);

/// `serde_yaml::Number`: a parsed YAML number, read through its accessors.
#[verifier::external_type_specification]
#[verifier::external_body]
pub struct ExYamlNumber(serde_yaml::Number);

/// What a YAML value holds. The keys of a mapping are values themselves.
pub ghost enum YamlModel {
    Null,
    Bool(bool),
    Number(NumberModel),
    Text(Seq<char>),
    Items(Seq<YamlModel>),
    Entries(Seq<(YamlModel, YamlModel)>),
}

/// What a `serde_yaml::Value` holds, as a tree of plain values; the entries
/// of a mapping stand in the order in which the mapping hands them out.
pub uninterp spec fn yaml_contents(value: serde_yaml::Value) -> YamlModel;

/// What a `serde_yaml::Number` offers through `as_i64`, `as_u64` and
/// `as_f64`.
pub uninterp spec fn yaml_number(number: serde_yaml::Number) -> NumberModel;

/// What `serde_yaml::from_str` makes of a text that is read as a map from
/// names to values: the entries of the map in the order of their names, or
/// the message of the error.
pub uninterp spec fn yaml_document(text: Seq<char>) -> Result<
    Seq<(Seq<char>, YamlModel)>,
    Seq<char>,
>;

/// What `serde_yaml::from_str` makes of a text that is read as a list of
/// named entries: the names in the order of the text, or the message of
/// the error.
pub uninterp spec fn yaml_key_list(text: Seq<char>) -> Result<Seq<Seq<char>>, Seq<char>>;

/// One level of a YAML value: its kind, with what it holds at that level.
pub enum YamlNode<'a> {
    Null,
    Bool(bool),
    Number(&'a serde_yaml::Number),
    Text(&'a String),
    Items(&'a Vec<serde_yaml::Value>),
    Entries(Vec<(&'a serde_yaml::Value, &'a serde_yaml::Value)>),
}

/// The contents of the values of a sequence, in order.
pub open spec fn yaml_items_contents(items: Seq<serde_yaml::Value>) -> Seq<YamlModel> {
    Seq::new(items.len(), |i: int| yaml_contents(items[i]))
}

/// The contents of the keys and values of the entries, in order.
pub open spec fn yaml_entries_contents(
    entries: Seq<(&serde_yaml::Value, &serde_yaml::Value)>,
) -> Seq<(YamlModel, YamlModel)> {
    Seq::new(entries.len(), |i: int| (yaml_contents(*entries[i].0), yaml_contents(*entries[i].1)))
}

/// The names of owned entries with the contents of their values, in order.
pub open spec fn yaml_owned_contents(entries: Seq<(String, serde_yaml::Value)>) -> Seq<
    (Seq<char>, YamlModel),
> {
    Seq::new(entries.len(), |i: int| (entries[i].0@, yaml_contents(entries[i].1)))
}

/// What one level of a value holds, over the contents of what is below.
pub open spec fn yaml_node_model(node: YamlNode) -> YamlModel {
    match node {
        YamlNode::Null => YamlModel::Null,
        YamlNode::Bool(b) => YamlModel::Bool(b),
        YamlNode::Number(n) => YamlModel::Number(yaml_number(*n)),
        YamlNode::Text(s) => YamlModel::Text(s@),
        YamlNode::Items(items) => YamlModel::Items(yaml_items_contents(items@)),
        YamlNode::Entries(entries) => YamlModel::Entries(yaml_entries_contents(entries@)),
    }
}

/// The model of a parse result.
pub open spec fn yaml_parsed_model(r: Result<Vec<(String, serde_yaml::Value)>, String>) -> Result<
    Seq<(Seq<char>, YamlModel)>,
    Seq<char>,
> {
    match r {
        Ok(entries) => Ok(yaml_owned_contents(entries@)),
        Err(message) => Err(message@),
    }
}

/// Calls `serde_yaml::from_str` for a map from names to values, ordered by
/// name, and hands its entries out in that order; an error is handed out as
/// its message. The contract names the result.
#[verifier::external_body]
fn yaml_from_str(text: &str) -> (r: Result<Vec<(String, serde_yaml::Value)>, String>)
    ensures
        yaml_parsed_model(r) == yaml_document(text@),
{
    serde_yaml::from_str::<std::collections::BTreeMap<String, serde_yaml::Value>>(text)
        .map(|map| map.into_iter().collect())
        .map_err(|error| error.to_string())
}

/// Calls `serde_yaml::from_str` for a `linear_map::LinearMap` from names to
/// values, which keeps the entries in the order of the text, and hands the
/// names out in that order; an error is handed out as its message. The
/// contract names the result.
#[verifier::external_body]
fn yaml_keys_from_str(text: &str) -> (r: Result<Vec<String>, String>)
    ensures
        key_list_model(r) == yaml_key_list(text@),
{
    serde_yaml::from_str::<linear_map::LinearMap<String, serde_yaml::Value>>(text)
        .map(|map| map.into_iter().map(|pair| pair.0).collect())
        .map_err(|error| error.to_string())
}

/// Tells the variants of `serde_yaml::Value` apart and hands out what the
/// variant holds: the contents of the value are those of the node.
#[verifier::external_body]
fn yaml_node<'a>(value: &'a serde_yaml::Value) -> (r: YamlNode<'a>)
    ensures
        yaml_node_model(r) == yaml_contents(*value),
{
    match value {
        serde_yaml::Value::Null => YamlNode::Null,
        serde_yaml::Value::Bool(b) => YamlNode::Bool(*b),
        serde_yaml::Value::Number(n) => YamlNode::Number(n),
        serde_yaml::Value::String(s) => YamlNode::Text(s),
        serde_yaml::Value::Sequence(items) => YamlNode::Items(items),
        serde_yaml::Value::Mapping(map) => YamlNode::Entries(map.iter().collect()),
    }
}

/// Calls `serde_yaml::Number::as_i64`.
#[verifier::external_body]
fn yaml_number_i64(number: &serde_yaml::Number) -> (r: Option<i64>)
    ensures
        r == yaml_number(*number).signed,
{
    number.as_i64()
}

/// Calls `serde_yaml::Number::as_u64`.
#[verifier::external_body]
fn yaml_number_u64(number: &serde_yaml::Number) -> (r: Option<u64>)
    ensures
        r == yaml_number(*number).unsigned,
{
    number.as_u64()
}

/// Calls `serde_yaml::Number::as_f64` and hands the float out as its
/// decimal text. Every number can be read as a float, so there is always
/// a text.
#[verifier::external_body]
fn yaml_number_float(number: &serde_yaml::Number) -> (r: Option<String>)
    ensures
        r is Some,
        yaml_number(*number).float == Some(r->0@),
{
    number.as_f64().map(|float| float.to_string())
}

/// The text of a key; empty for a key that is no text.
pub open spec fn yaml_key_text(key: YamlModel) -> Seq<char> {
    match key {
        YamlModel::Text(s) => s,
        _ => Seq::empty(),
    }
}

/// Every key of every mapping in the value, at any depth, is a text.
pub open spec fn yaml_text_keys(contents: YamlModel) -> bool
    decreases contents,
{
    match contents {
        YamlModel::Items(items) => forall|i: int|
            0 <= i < items.len() ==> yaml_text_keys(#[trigger] items[i]),
        YamlModel::Entries(entries) => forall|i: int|
            0 <= i < entries.len() ==> (#[trigger] entries[i]).0 is Text && yaml_text_keys(
                entries[i].1,
            ),
        _ => true,
    }
}

/// The values that the items of a YAML sequence stand for, in order.
pub open spec fn yaml_item_values(
    items: Seq<YamlModel>,
    super_struct: Seq<char>,
    super_key: Seq<char>,
    ints: IntSize,
    floats: FloatSize,
) -> Seq<ValueModel>
    decreases items,
{
    Seq::new(
        items.len(),
        |i: int|
            if 0 <= i < items.len() {
                yaml_value(items[i], super_struct, super_key, ints, floats)
            } else {
                ValueModel::Unit
            },
    )
}

/// The fields that the entries of a YAML mapping stand for, in the order
/// of the entries: each value is converted under its own key, below the
/// record named `parent`.
pub open spec fn yaml_entry_fields(
    entries: Seq<(YamlModel, YamlModel)>,
    parent: Seq<char>,
    ints: IntSize,
    floats: FloatSize,
) -> Seq<(Seq<char>, ValueModel)>
    decreases entries,
{
    Seq::new(
        entries.len(),
        |i: int|
            if 0 <= i < entries.len() {
                (
                    yaml_key_text(entries[i].0),
                    yaml_value(entries[i].1, parent, yaml_key_text(entries[i].0), ints, floats),
                )
            } else {
                (Seq::empty(), ValueModel::Unit)
            },
    )
}

/// The value that a YAML value stands for, found under the key `super_key`
/// of the record named `super_struct`.
///
/// Null is an absent option; a number is an integer or a float of the
/// preferred width; a sequence is an array of what its items stand for; a
/// mapping is a record named after the record and the key it was found
/// under, with its entries as fields.
pub open spec fn yaml_value(
    contents: YamlModel,
    super_struct: Seq<char>,
    super_key: Seq<char>,
    ints: IntSize,
    floats: FloatSize,
) -> ValueModel
    decreases contents,
{
    match contents {
        YamlModel::Null => ValueModel::Option(None),
        YamlModel::Bool(b) => ValueModel::Bool(b),
        YamlModel::Number(n) => number_value(n, ints, floats),
        YamlModel::Text(s) => ValueModel::String(s),
        YamlModel::Items(items) => ValueModel::Array(
            yaml_item_values(items, super_struct, super_key, ints, floats),
        ),
        YamlModel::Entries(entries) => ValueModel::Struct(
            RecordModel {
                name: nested_name(super_struct, super_key),
                fields: collect_fields(
                    yaml_entry_fields(entries, nested_name(super_struct, super_key), ints, floats),
                ),
            },
        ),
    }
}

/// The fields that the entries of a YAML document stand for, converted
/// below the name `parent`.
pub open spec fn yaml_root_fields(
    entries: Seq<(Seq<char>, YamlModel)>,
    parent: Seq<char>,
    ints: IntSize,
    floats: FloatSize,
) -> Seq<(Seq<char>, ValueModel)> {
    Seq::new(
        entries.len(),
        |i: int| (entries[i].0, yaml_value(entries[i].1, parent, entries[i].0, ints, floats)),
    )
}

/// Every key of every mapping below the entries of a document is a text.
pub open spec fn yaml_document_text_keys(entries: Seq<(Seq<char>, YamlModel)>) -> bool {
    forall|i: int| 0 <= i < entries.len() ==> yaml_text_keys((#[trigger] entries[i]).1)
}

/// The record that a YAML document stands for: a record named `Config`
/// whose fields are the entries of the document, converted below the name
/// `Config`. An error holds the parser's message, or says that a mapping
/// has a key that is no text.
pub open spec fn yaml_record(
    document: Result<Seq<(Seq<char>, YamlModel)>, Seq<char>>,
    ints: IntSize,
    floats: FloatSize,
) -> Result<RecordModel, GenerationErrorModel> {
    match document {
        Ok(entries) => if yaml_document_text_keys(entries) {
            Ok(
                RecordModel {
                    name: "Config"@,
                    fields: collect_fields(yaml_root_fields(entries, "Config"@, ints, floats)),
                },
            )
        } else {
            Err(GenerationErrorModel::DeserializationFailed("Keys in YAML maps must be strings."@))
        },
        Err(message) => Err(GenerationErrorModel::DeserializationFailed(message)),
    }
}

/// The keys of an array are texts where those of each item are; the keys
/// of a mapping are texts where each key is one and those of each value
/// are.
pub proof fn lemma_yaml_text_keys(contents: YamlModel)
    ensures
        contents matches YamlModel::Items(items) ==> (yaml_text_keys(contents) <==> forall|j: int|
            0 <= j < items.len() ==> yaml_text_keys(#[trigger] items[j])),
        contents matches YamlModel::Entries(entries) ==> (yaml_text_keys(contents) <==> forall|
            j: int,
        |
            0 <= j < entries.len() ==> (#[trigger] entries[j]).0 is Text && yaml_text_keys(
                entries[j].1,
            )),
{
}

fn yaml_number_value(number: &serde_yaml::Number, options: &StructOptions) -> (r: GenericValue)
    ensures
        r@ == number_value(
            yaml_number(*number),
            options@.default_int_size,
            options@.default_float_size,
        ),
{
    match yaml_number_i64(number) {
        Some(x) => preferred_int(x, options.default_int_size),
        None => match yaml_number_u64(number) {
            Some(x) => GenericValue::U64(x),
            None => preferred_float(yaml_number_float(number).unwrap(), options.default_float_size),
        },
    }
}

/// Whether every key of every mapping in the value is a text.
#[verifier::loop_isolation(false)]
pub fn yaml_has_text_keys(value: &serde_yaml::Value) -> (r: bool)
    ensures
        r == yaml_text_keys(yaml_contents(*value)),
    decreases yaml_contents(*value),
{
    match yaml_node(value) {
        YamlNode::Items(items) => {
            let ghost contents = yaml_items_contents(items@);
            let mut i: usize = 0;
            while i < items.len()
                invariant
                    i <= items.len(),
                    forall|j: int| 0 <= j < i ==> yaml_text_keys(#[trigger] contents[j]),
                decreases items.len() - i,
            {
                assert(yaml_contents(*value) == YamlModel::Items(contents));
                assert(contents[i as int] == yaml_contents(items@[i as int]));
                proof {
                    lemma_yaml_text_keys(yaml_contents(*value));
                }
                if !yaml_has_text_keys(&items[i]) {
                    proof {
                        lemma_yaml_text_keys(yaml_contents(*value));
                    }
                    return false;
                }
                i = i + 1;
            }
            proof {
                lemma_yaml_text_keys(yaml_contents(*value));
            }
            true
        },
        YamlNode::Entries(entries) => {
            let ghost contents = yaml_entries_contents(entries@);
            let mut i: usize = 0;
            while i < entries.len()
                invariant
                    i <= entries.len(),
                    forall|j: int|
                        0 <= j < i ==> (#[trigger] contents[j]).0 is Text && yaml_text_keys(
                            contents[j].1,
                        ),
                decreases entries.len() - i,
            {
                proof {
                    let entry = contents[i as int];
                    assert(entry == (
                        yaml_contents(*entries@[i as int].0),
                        yaml_contents(*entries@[i as int].1),
                    ));
                    assert(decreases_to!(contents => entry));
                    assert(decreases_to!(entry => entry.1));
                }
                match yaml_node(entries[i].0) {
                    YamlNode::Text(_) => {},
                    _ => {
                        assert(!(contents[i as int].0 is Text));
                        proof {
                            lemma_yaml_text_keys(yaml_contents(*value));
                        }
                        return false;
                    },
                }
                if !yaml_has_text_keys(entries[i].1) {
                    assert(!yaml_text_keys(contents[i as int].1));
                    proof {
                        lemma_yaml_text_keys(yaml_contents(*value));
                    }
                    return false;
                }
                i = i + 1;
            }
            proof {
                lemma_yaml_text_keys(yaml_contents(*value));
            }
            true
        },
        _ => true,
    }
}

/// Converts a YAML value found under the key `super_key` of the record
/// named `super_struct`. The keys of all mappings in it have to be texts.
#[verifier::loop_isolation(false)]
pub fn yaml_to_raw_value(
    super_struct: &str,
    super_key: &str,
    value: &serde_yaml::Value,
    options: &StructOptions,
) -> (r: GenericValue)
    requires
        yaml_text_keys(yaml_contents(*value)),
    ensures
        r@ == yaml_value(
            yaml_contents(*value),
            super_struct@,
            super_key@,
            options@.default_int_size,
            options@.default_float_size,
        ),
        value_is_ordered(r@),
    decreases yaml_contents(*value),
{
    let ghost ints = options@.default_int_size;
    let ghost floats = options@.default_float_size;
    proof {
        lemma_yaml_value_is_ordered(yaml_contents(*value), super_struct@, super_key@, ints, floats);
    }
    match yaml_node(value) {
        YamlNode::Null => GenericValue::Option(None),
        YamlNode::Bool(b) => GenericValue::Bool(b),
        YamlNode::Number(n) => yaml_number_value(n, options),
        YamlNode::Text(s) => GenericValue::String(s.clone()),
        YamlNode::Items(items) => {
            let ghost contents = yaml_items_contents(items@);
            let ghost target = yaml_item_values(contents, super_struct@, super_key@, ints, floats);
            let mut values: Vec<GenericValue> = Vec::new();
            let mut i: usize = 0;
            while i < items.len()
                invariant
                    i <= items.len(),
                    values@.len() == i,
                    forall|j: int| 0 <= j < i ==> (#[trigger] values@[j])@ == target[j],
                decreases items.len() - i,
            {
                assert(contents[i as int] == yaml_contents(items@[i as int]));
                let element = yaml_to_raw_value(super_struct, super_key, &items[i], options);
                values.push(element);
                i = i + 1;
            }
            proof {
                lemma_array_model(values);
                assert(models_of(values@) =~= target);
            }
            GenericValue::Array(values)
        },
        YamlNode::Entries(entries) => {
            let ghost contents = yaml_entries_contents(entries@);
            let sub_struct_name = nested_struct_name(super_struct, super_key);
            let ghost target = yaml_entry_fields(contents, sub_struct_name@, ints, floats);
            let mut record = GenericStruct::new(sub_struct_name.clone());
            let mut i: usize = 0;
            assert(target.subrange(0, 0) =~= Seq::empty());
            while i < entries.len()
                invariant
                    i <= entries.len(),
                    record@ == (RecordModel {
                        name: sub_struct_name@,
                        fields: collect_fields(target.subrange(0, i as int)),
                    }),
                decreases entries.len() - i,
            {
                proof {
                    let entry = contents[i as int];
                    assert(entry == (
                        yaml_contents(*entries@[i as int].0),
                        yaml_contents(*entries@[i as int].1),
                    ));
                    assert(decreases_to!(contents => entry));
                    assert(decreases_to!(entry => entry.1));
                }
                let key = match yaml_node(entries[i].0) {
                    YamlNode::Text(s) => s.clone(),
                    _ => vstd::pervasive::unreached(),
                };
                let element = yaml_to_raw_value(
                    sub_struct_name.as_str(),
                    key.as_str(),
                    entries[i].1,
                    options,
                );
                proof {
                    let next = target.subrange(0, i + 1);
                    assert(next.drop_last() =~= target.subrange(0, i as int));
                    assert(next.last() == (key@, element@));
                }
                record.insert(key, element);
                i = i + 1;
            }
            assert(target.subrange(0, i as int) =~= target);
            GenericValue::Struct(record)
        },
    }
}

/// Parses a YAML document into its root record.
///
/// The document has to be a mapping, and every key of every mapping in it
/// a text. Numbers take the widths that the options prefer.
pub fn parse_yaml(yaml: &str, options: &StructOptions) -> (r: Result<GenericStruct, GenerationError>)
    ensures
        record_result_model(r) == yaml_record(
            yaml_document(yaml@),
            options@.default_int_size,
            options@.default_float_size,
        ),
        r matches Ok(record) ==> record_is_ordered(record@),
{
    proof {
        lemma_yaml_record_is_ordered(
            yaml_document(yaml@),
            options@.default_int_size,
            options@.default_float_size,
        );
    }
    let ghost ints = options@.default_int_size;
    let ghost floats = options@.default_float_size;
    match yaml_from_str(yaml) {
        Err(message) => Err(GenerationError::DeserializationFailed(message)),
        Ok(entries) => {
            let ghost contents = yaml_owned_contents(entries@);
            let ghost target = yaml_root_fields(contents, "Config"@, ints, floats);
            let mut fields: Vec<(String, GenericValue)> = Vec::new();
            let mut i: usize = 0;
            while i < entries.len()
                invariant
                    i <= entries.len(),
                    contents == yaml_owned_contents(entries@),
                    Ok::<Seq<(Seq<char>, YamlModel)>, Seq<char>>(contents) == yaml_document(yaml@),
                    target == yaml_root_fields(contents, "Config"@, ints, floats),
                    ints == options@.default_int_size,
                    floats == options@.default_float_size,
                    fields@.len() == i,
                    forall|j: int| 0 <= j < i ==> yaml_text_keys((#[trigger] contents[j]).1),
                    forall|j: int|
                        0 <= j < i ==> ((#[trigger] fields@[j]).0@, fields@[j].1@) == target[j],
                decreases entries.len() - i,
            {
                assert(contents[i as int].1 == yaml_contents(entries@[i as int].1));
                if !yaml_has_text_keys(&entries[i].1) {
                    assert(!yaml_text_keys(contents[i as int].1));
                    assert(!yaml_document_text_keys(contents));
                    return Err(
                        GenerationError::DeserializationFailed(
                            "Keys in YAML maps must be strings.".to_owned(),
                        ),
                    );
                }
                let key = entries[i].0.clone();
                let element = yaml_to_raw_value("Config", key.as_str(), &entries[i].1, options);
                fields.push((key, element));
                i = i + 1;
            }
            assert(fields_of(fields@) =~= target);
            Ok(parsed_to_generic_struct(fields))
        },
    }
}

/// The keys of the mapping that a YAML document is, in the order of the
/// text.
pub fn parse_map_keys(yaml: &str) -> (r: Result<Vec<String>, GenerationError>)
    ensures
        keys_result_model(r) == keys_of_list(yaml_key_list(yaml@)),
{
    match yaml_keys_from_str(yaml) {
        Ok(keys) => Ok(keys),
        Err(message) => Err(GenerationError::DeserializationFailed(message)),
    }
}

/// A nested record is named after the record and the key it is found
/// under, joined by two underscores; the field that holds it has exactly
/// that name as its type, and its fields ascend by name.
pub proof fn lemma_yaml_nested_record_name(
    entries: Seq<(YamlModel, YamlModel)>,
    super_struct: Seq<char>,
    super_key: Seq<char>,
    ints: IntSize,
    floats: FloatSize,
    max_array_size: nat,
)
    ensures
        yaml_value(YamlModel::Entries(entries), super_struct, super_key, ints, floats) is Struct,
        yaml_value(YamlModel::Entries(entries), super_struct, super_key, ints, floats)->Struct_0.name
            == super_struct + "__"@ + super_key,
        type_text(
            yaml_value(YamlModel::Entries(entries), super_struct, super_key, ints, floats),
            max_array_size,
        ) == super_struct + "__"@ + super_key,
        keys_ascend(
            yaml_value(YamlModel::Entries(entries), super_struct, super_key, ints, floats)->Struct_0.fields,
        ),
{
    lemma_collected_fields_ascend(
        yaml_entry_fields(entries, nested_name(super_struct, super_key), ints, floats),
    );
}

/// Every value that a YAML value stands for is ordered: the fields of
/// every record in it ascend by name.
pub proof fn lemma_yaml_value_is_ordered(
    contents: YamlModel,
    super_struct: Seq<char>,
    super_key: Seq<char>,
    ints: IntSize,
    floats: FloatSize,
)
    ensures
        value_is_ordered(yaml_value(contents, super_struct, super_key, ints, floats)),
    decreases contents,
{
    match contents {
        YamlModel::Number(n) => {
            lemma_number_is_ordered(n, ints, floats);
        },
        YamlModel::Items(items) => {
            let values = yaml_item_values(items, super_struct, super_key, ints, floats);
            assert forall|i: int| 0 <= i < values.len() implies value_is_ordered(
                #[trigger] values[i],
            ) by {
                lemma_yaml_value_is_ordered(items[i], super_struct, super_key, ints, floats);
            }
            lemma_value_is_ordered(ValueModel::Array(values));
        },
        YamlModel::Entries(entries) => {
            let parent = nested_name(super_struct, super_key);
            let fields = yaml_entry_fields(entries, parent, ints, floats);
            assert forall|i: int| 0 <= i < fields.len() implies value_is_ordered(
                (#[trigger] fields[i]).1,
            ) by {
                let entry = entries[i];
                assert(decreases_to!(entries => entry));
                assert(decreases_to!(entry => entry.1));
                lemma_yaml_value_is_ordered(entry.1, parent, fields[i].0, ints, floats);
            }
            lemma_collected_record_is_ordered(parent, fields);
        },
        _ => {},
    }
}

/// The record that a YAML document stands for is ordered.
pub proof fn lemma_yaml_record_is_ordered(
    document: Result<Seq<(Seq<char>, YamlModel)>, Seq<char>>,
    ints: IntSize,
    floats: FloatSize,
)
    ensures
        yaml_record(document, ints, floats) matches Ok(record) ==> record_is_ordered(record),
{
    match document {
        Ok(entries) => {
            let fields = yaml_root_fields(entries, "Config"@, ints, floats);
            assert forall|i: int| 0 <= i < fields.len() implies value_is_ordered(
                (#[trigger] fields[i]).1,
            ) by {
                lemma_yaml_value_is_ordered(entries[i].1, "Config"@, entries[i].0, ints, floats);
            }
            lemma_collected_record_is_ordered("Config"@, fields);
        },
        Err(_) => {},
    }
}

} // verus!
