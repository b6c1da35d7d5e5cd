//! The adapter for TOML documents, on top of the `toml` crate.

use vstd::prelude::*;
use vstd::string::*;
use crate::error::{GenerationError, GenerationErrorModel};
use crate::options::{FloatSize, IntSize, StructOptions};
use crate::generation::type_text;
use crate::parsing::{
    collect_fields,
    lemma_collected_fields_ascend,
    lemma_collected_record_is_ordered,
    key_list_model,
    keys_of_list,
    keys_result_model,
    nested_name,
    nested_struct_name,
    parsed_to_generic_struct,
    preferred_float,
    preferred_float_model,
    preferred_int,
    preferred_int_model,
    record_result_model,
};
use crate::value::{
    fields_of,
    keys_ascend,
    lemma_value_is_ordered,
    record_is_ordered,
    value_is_ordered,
    lemma_array_model,
    models_of,
    GenericStruct,
    GenericValue,
    RecordModel,
    ValueModel,
};

verus! {

/// `toml::Value`: a parsed TOML value. Nothing inside it is seen here; what
/// it holds is read through [`toml_node`].
#[verifier::external_type_specification]
#[verifier::external_body]
pub struct ExTomlValue(toml::Value);

/// What a TOML value holds. A float is held as its decimal text, a date
/// and time as the text that stands for it in a document.
pub ghost enum TomlModel {
    Text(Seq<char>),
    Integer(i64),
    Float(Seq<char>),
    Bool(bool),
    Datetime(Seq<char>),
    Items(Seq<TomlModel>),
    Entries(Seq<(Seq<char>, TomlModel)>),
}

/// What a `toml::Value` holds, as a tree of plain values; the entries of a
/// table stand in the order in which the table hands them out.
pub uninterp spec fn toml_contents(value: toml::Value) -> TomlModel;

/// What `toml::from_str` makes of a text that is read as a map from names
/// to values: the entries of the map in the order of their names, or the
/// message of the error.
pub uninterp spec fn toml_document(text: Seq<char>) -> Result<
    Seq<(Seq<char>, TomlModel)>,
    Seq<char>,
>;

/// What `toml::from_str` makes of a text that is read as a list of named
/// entries: the names in the order of the text, or the message of the
/// error.
pub uninterp spec fn toml_key_list(text: Seq<char>) -> Result<Seq<Seq<char>>, Seq<char>>;

/// One level of a TOML value: its kind, with what it holds at that level.
pub enum TomlNode<'a> {
    Text(&'a String),
    Integer(i64),
    Float(String),
    Bool(bool),
    Datetime(String),
    Items(&'a Vec<toml::Value>),
    Entries(Vec<(&'a String, &'a toml::Value)>),
}

/// The contents of the values of an array, in order.
pub open spec fn toml_items_contents(items: Seq<toml::Value>) -> Seq<TomlModel> {
    Seq::new(items.len(), |i: int| toml_contents(items[i]))
}

/// The names of the entries with the contents of their values, in order.
pub open spec fn toml_entries_contents(entries: Seq<(&String, &toml::Value)>) -> Seq<
    (Seq<char>, TomlModel),
> {
    Seq::new(entries.len(), |i: int| (entries[i].0@, toml_contents(*entries[i].1)))
}

/// The names of owned entries with the contents of their values, in order.
pub open spec fn toml_owned_contents(entries: Seq<(String, toml::Value)>) -> Seq<
    (Seq<char>, TomlModel),
> {
    Seq::new(entries.len(), |i: int| (entries[i].0@, toml_contents(entries[i].1)))
}

/// What one level of a value holds, over the contents of what is below.
pub open spec fn toml_node_model(node: TomlNode) -> TomlModel {
    match node {
        TomlNode::Text(s) => TomlModel::Text(s@),
        TomlNode::Integer(x) => TomlModel::Integer(x),
        TomlNode::Float(text) => TomlModel::Float(text@),
        TomlNode::Bool(b) => TomlModel::Bool(b),
        TomlNode::Datetime(text) => TomlModel::Datetime(text@),
        TomlNode::Items(items) => TomlModel::Items(toml_items_contents(items@)),
        TomlNode::Entries(entries) => TomlModel::Entries(toml_entries_contents(entries@)),
    }
}

/// The model of a parse result.
pub open spec fn toml_parsed_model(r: Result<Vec<(String, toml::Value)>, String>) -> Result<
    Seq<(Seq<char>, TomlModel)>,
    Seq<char>,
> {
    match r {
        Ok(entries) => Ok(toml_owned_contents(entries@)),
        Err(message) => Err(message@),
    }
}

/// Calls `toml::from_str` for a map from names to values, ordered by name,
/// and hands its entries out in that order; an error is handed out as its
/// message. The contract names the result.
#[verifier::external_body]
fn toml_from_str(text: &str) -> (r: Result<Vec<(String, toml::Value)>, String>)
    ensures
        toml_parsed_model(r) == toml_document(text@),
{
    toml::from_str::<std::collections::BTreeMap<String, toml::Value>>(text)
        .map(|map| map.into_iter().collect())
        .map_err(|error| error.to_string())
}

/// Calls `toml::from_str` for a `linear_map::LinearMap` from names to
/// values, which keeps the entries in the order of the text, and hands the
/// names out in that order; an error is handed out as its message. The
/// contract names the result.
#[verifier::external_body]
fn toml_keys_from_str(text: &str) -> (r: Result<Vec<String>, String>)
    ensures
        key_list_model(r) == toml_key_list(text@),
{
    toml::from_str::<linear_map::LinearMap<String, toml::Value>>(text)
        .map(|map| map.into_iter().map(|pair| pair.0).collect())
        .map_err(|error| error.to_string())
}

/// Tells the variants of `toml::Value` apart and hands out what the
/// variant holds, a float and a date as their texts: the contents of the
/// value are those of the node.
#[verifier::external_body]
fn toml_node<'a>(value: &'a toml::Value) -> (r: TomlNode<'a>)
    ensures
        toml_node_model(r) == toml_contents(*value),
{
    match value {
        toml::Value::String(s) => TomlNode::Text(s),
        toml::Value::Integer(x) => TomlNode::Integer(*x),
        toml::Value::Float(x) => TomlNode::Float(x.to_string()),
        toml::Value::Boolean(b) => TomlNode::Bool(*b),
        toml::Value::Datetime(d) => TomlNode::Datetime(d.to_string()),
        toml::Value::Array(items) => TomlNode::Items(items),
        toml::Value::Table(map) => TomlNode::Entries(map.iter().collect()),
    }
}

/// The values that the items of a TOML array stand for, in order.
pub open spec fn toml_item_values(
    items: Seq<TomlModel>,
    super_struct: Seq<char>,
    super_key: Seq<char>,
    ints: IntSize,
    floats: FloatSize,
) -> Seq<ValueModel>
    decreases items,
{
    Seq::new(
        items.len(),
        |i: int|
            if 0 <= i < items.len() {
                toml_value(items[i], super_struct, super_key, ints, floats)
            } else {
                ValueModel::Unit
            },
    )
}

/// The fields that the entries of a TOML table stand for, in the order of
/// the entries: each value is converted under its own key, below the
/// record named `parent`.
pub open spec fn toml_entry_fields(
    entries: Seq<(Seq<char>, TomlModel)>,
    parent: Seq<char>,
    ints: IntSize,
    floats: FloatSize,
) -> Seq<(Seq<char>, ValueModel)>
    decreases entries,
{
    Seq::new(
        entries.len(),
        |i: int|
            if 0 <= i < entries.len() {
                (entries[i].0, toml_value(entries[i].1, parent, entries[i].0, ints, floats))
            } else {
                (Seq::empty(), ValueModel::Unit)
            },
    )
}

/// The value that a TOML value stands for, found under the key `super_key`
/// of the record named `super_struct`.
///
/// An integer and a float take the preferred widths; a date and time is
/// the text that stands for it; an array is an array of what its items
/// stand for; a table is a record named after the record and the key it
/// was found under, with its entries as fields.
pub open spec fn toml_value(
    contents: TomlModel,
    super_struct: Seq<char>,
    super_key: Seq<char>,
    ints: IntSize,
    floats: FloatSize,
) -> ValueModel
    decreases contents,
{
    match contents {
        TomlModel::Text(s) => ValueModel::String(s),
        TomlModel::Integer(x) => preferred_int_model(x, ints),
        TomlModel::Float(text) => preferred_float_model(text, floats),
        TomlModel::Bool(b) => ValueModel::Bool(b),
        TomlModel::Datetime(text) => ValueModel::String(text),
        TomlModel::Items(items) => ValueModel::Array(
            toml_item_values(items, super_struct, super_key, ints, floats),
        ),
        TomlModel::Entries(entries) => ValueModel::Struct(
            RecordModel {
                name: nested_name(super_struct, super_key),
                fields: collect_fields(
                    toml_entry_fields(entries, nested_name(super_struct, super_key), ints, floats),
                ),
            },
        ),
    }
}

/// The record that a TOML document stands for: a record named `Config`
/// whose fields are the entries of the document, converted below the name
/// `Config`; or the error that holds the parser's message.
pub open spec fn toml_record(
    document: Result<Seq<(Seq<char>, TomlModel)>, Seq<char>>,
    ints: IntSize,
    floats: FloatSize,
) -> Result<RecordModel, GenerationErrorModel> {
    match document {
        Ok(entries) => Ok(
            RecordModel {
                name: "Config"@,
                fields: collect_fields(toml_entry_fields(entries, "Config"@, ints, floats)),
            },
        ),
        Err(message) => Err(GenerationErrorModel::DeserializationFailed(message)),
    }
}

/// Converts a TOML value found under the key `super_key` of the record
/// named `super_struct`.
#[verifier::loop_isolation(false)]
pub fn toml_to_raw_value(
    super_struct: &str,
    super_key: &str,
    value: &toml::Value,
    options: &StructOptions,
) -> (r: GenericValue)
    ensures
        r@ == toml_value(
            toml_contents(*value),
            super_struct@,
            super_key@,
            options@.default_int_size,
            options@.default_float_size,
        ),
        value_is_ordered(r@),
    decreases toml_contents(*value),
{
    let ghost ints = options@.default_int_size;
    let ghost floats = options@.default_float_size;
    proof {
        lemma_toml_value_is_ordered(toml_contents(*value), super_struct@, super_key@, ints, floats);
    }
    match toml_node(value) {
        TomlNode::Text(s) => GenericValue::String(s.clone()),
        TomlNode::Integer(x) => preferred_int(x, options.default_int_size),
        TomlNode::Float(text) => preferred_float(text, options.default_float_size),
        TomlNode::Bool(b) => GenericValue::Bool(b),
        TomlNode::Datetime(text) => GenericValue::String(text),
        TomlNode::Items(items) => {
            let ghost contents = toml_items_contents(items@);
            let ghost target = toml_item_values(contents, super_struct@, super_key@, ints, floats);
            let mut values: Vec<GenericValue> = Vec::new();
            let mut i: usize = 0;
            while i < items.len()
                invariant
                    i <= items.len(),
                    values@.len() == i,
                    forall|j: int| 0 <= j < i ==> (#[trigger] values@[j])@ == target[j],
                decreases items.len() - i,
            {
                assert(contents[i as int] == toml_contents(items@[i as int]));
                let element = toml_to_raw_value(super_struct, super_key, &items[i], options);
                values.push(element);
                i = i + 1;
            }
            proof {
                lemma_array_model(values);
                assert(models_of(values@) =~= target);
            }
            GenericValue::Array(values)
        },
        TomlNode::Entries(entries) => {
            let ghost contents = toml_entries_contents(entries@);
            let sub_struct_name = nested_struct_name(super_struct, super_key);
            let ghost target = toml_entry_fields(contents, sub_struct_name@, ints, floats);
            let mut record = GenericStruct::new(sub_struct_name.clone());
            let mut i: usize = 0;
            assert(target.subrange(0, 0) =~= Seq::empty());
            while i < entries.len()
                invariant
                    i <= entries.len(),
                    record@ == (RecordModel {
                        name: sub_struct_name@,
                        fields: collect_fields(target.subrange(0, i as int)),
                    }),
                decreases entries.len() - i,
            {
                proof {
                    let entry = contents[i as int];
                    assert(entry == (entries@[i as int].0@, toml_contents(*entries@[i as int].1)));
                    assert(decreases_to!(contents => entry));
                    assert(decreases_to!(entry => entry.1));
                }
                let key = entries[i].0.clone();
                let element = toml_to_raw_value(
                    sub_struct_name.as_str(),
                    key.as_str(),
                    entries[i].1,
                    options,
                );
                proof {
                    let next = target.subrange(0, i + 1);
                    assert(next.drop_last() =~= target.subrange(0, i as int));
                    assert(next.last() == (key@, element@));
                }
                record.insert(key, element);
                i = i + 1;
            }
            assert(target.subrange(0, i as int) =~= target);
            GenericValue::Struct(record)
        },
    }
}

/// Parses a TOML document into its root record. Numbers take the widths
/// that the options prefer.
pub fn parse_toml(toml: &str, options: &StructOptions) -> (r: Result<GenericStruct, GenerationError>)
    ensures
        record_result_model(r) == toml_record(
            toml_document(toml@),
            options@.default_int_size,
            options@.default_float_size,
        ),
        r matches Ok(record) ==> record_is_ordered(record@),
{
    proof {
        lemma_toml_record_is_ordered(
            toml_document(toml@),
            options@.default_int_size,
            options@.default_float_size,
        );
    }
    let ghost ints = options@.default_int_size;
    let ghost floats = options@.default_float_size;
    match toml_from_str(toml) {
        Err(message) => Err(GenerationError::DeserializationFailed(message)),
        Ok(entries) => {
            let ghost contents = toml_owned_contents(entries@);
            let ghost target = toml_entry_fields(contents, "Config"@, ints, floats);
            let mut fields: Vec<(String, GenericValue)> = Vec::new();
            let mut i: usize = 0;
            while i < entries.len()
                invariant
                    i <= entries.len(),
                    contents == toml_owned_contents(entries@),
                    target == toml_entry_fields(contents, "Config"@, ints, floats),
                    ints == options@.default_int_size,
                    floats == options@.default_float_size,
                    fields@.len() == i,
                    forall|j: int|
                        0 <= j < i ==> ((#[trigger] fields@[j]).0@, fields@[j].1@) == target[j],
                decreases entries.len() - i,
            {
                let key = entries[i].0.clone();
                let element = toml_to_raw_value("Config", key.as_str(), &entries[i].1, options);
                fields.push((key, element));
                i = i + 1;
            }
            assert(fields_of(fields@) =~= target);
            Ok(parsed_to_generic_struct(fields))
        },
    }
}

/// The keys of the table that a TOML document is, in the order of the
/// text.
pub fn parse_map_keys(toml: &str) -> (r: Result<Vec<String>, GenerationError>)
    ensures
        keys_result_model(r) == keys_of_list(toml_key_list(toml@)),
{
    match toml_keys_from_str(toml) {
        Ok(keys) => Ok(keys),
        Err(message) => Err(GenerationError::DeserializationFailed(message)),
    }
}

/// A nested record is named after the record and the key it is found
/// under, joined by two underscores; the field that holds it has exactly
/// that name as its type, and its fields ascend by name.
pub proof fn lemma_toml_nested_record_name(
    entries: Seq<(Seq<char>, TomlModel)>,
    super_struct: Seq<char>,
    super_key: Seq<char>,
    ints: IntSize,
    floats: FloatSize,
    max_array_size: nat,
)
    ensures
        toml_value(TomlModel::Entries(entries), super_struct, super_key, ints, floats) is Struct,
        toml_value(TomlModel::Entries(entries), super_struct, super_key, ints, floats)->Struct_0.name
            == super_struct + "__"@ + super_key,
        type_text(
            toml_value(TomlModel::Entries(entries), super_struct, super_key, ints, floats),
            max_array_size,
        ) == super_struct + "__"@ + super_key,
        keys_ascend(
            toml_value(TomlModel::Entries(entries), super_struct, super_key, ints, floats)->Struct_0.fields,
        ),
{
    lemma_collected_fields_ascend(
        toml_entry_fields(entries, nested_name(super_struct, super_key), ints, floats),
    );
}

/// Every value that a TOML value stands for is ordered: the fields of
/// every record in it ascend by name.
pub proof fn lemma_toml_value_is_ordered(
    contents: TomlModel,
    super_struct: Seq<char>,
    super_key: Seq<char>,
    ints: IntSize,
    floats: FloatSize,
)
    ensures
        value_is_ordered(toml_value(contents, super_struct, super_key, ints, floats)),
    decreases contents,
{
    match contents {
        TomlModel::Integer(x) => {
            assert(value_is_ordered(preferred_int_model(x, ints)));
        },
        TomlModel::Float(text) => {
            assert(value_is_ordered(preferred_float_model(text, floats)));
        },
        TomlModel::Items(items) => {
            let values = toml_item_values(items, super_struct, super_key, ints, floats);
            assert forall|i: int| 0 <= i < values.len() implies value_is_ordered(
                #[trigger] values[i],
            ) by {
                lemma_toml_value_is_ordered(items[i], super_struct, super_key, ints, floats);
            }
            lemma_value_is_ordered(ValueModel::Array(values));
        },
        TomlModel::Entries(entries) => {
            let parent = nested_name(super_struct, super_key);
            let fields = toml_entry_fields(entries, parent, ints, floats);
            assert forall|i: int| 0 <= i < fields.len() implies value_is_ordered(
                (#[trigger] fields[i]).1,
            ) by {
                let entry = entries[i];
                assert(decreases_to!(entries => entry));
                assert(decreases_to!(entry => entry.1));
                lemma_toml_value_is_ordered(entry.1, parent, fields[i].0, ints, floats);
            }
            lemma_collected_record_is_ordered(parent, fields);
        },
        _ => {},
    }
}

/// The record that a TOML document stands for is ordered.
pub proof fn lemma_toml_record_is_ordered(
    document: Result<Seq<(Seq<char>, TomlModel)>, Seq<char>>,
    ints: IntSize,
    floats: FloatSize,
)
    ensures
        toml_record(document, ints, floats) matches Ok(record) ==> record_is_ordered(record),
{
    match document {
        Ok(entries) => {
            let fields = toml_entry_fields(entries, "Config"@, ints, floats);
            assert forall|i: int| 0 <= i < fields.len() implies value_is_ordered(
                (#[trigger] fields[i]).1,
            ) by {
                lemma_toml_value_is_ordered(entries[i].1, "Config"@, entries[i].0, ints, floats);
            }
            lemma_collected_record_is_ordered("Config"@, fields);
        },
        Err(_) => {},
    }
}

} // verus!
