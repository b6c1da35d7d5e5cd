//! The adapter for JSON documents, on top of the `serde_json` crate.

use vstd::prelude::*;
use vstd::string::*;
use crate::error::{GenerationError, GenerationErrorModel};
use crate::options::{FloatSize, IntSize, StructOptions};
use crate::generation::type_text;
use crate::parsing::{
    collect_fields,
    lemma_collected_fields_ascend,
    lemma_collected_record_is_ordered,
    lemma_number_is_ordered,
    nested_name,
    nested_struct_name,
    number_is_readable,
    number_value,
    parsed_to_generic_struct,
    preferred_float,
    key_list_model,
    keys_of_list,
    keys_result_model,
    preferred_int,
    record_result_model,
    NumberModel,
};
use crate::value::{
    fields_of,
    keys_ascend,
    lemma_value_is_ordered,
    record_is_ordered,
    value_is_ordered,
    lemma_array_model,
    models_of,
    GenericStruct,
    GenericValue,
    RecordModel,
    ValueModel,
};

verus! {

/// `serde_json::Value`: a parsed JSON value. Nothing inside it is seen here;
/// what it holds is read through [`json_node`].
#[verifier::external_type_specification]
#[verifier::external_body]
pub struct ExJsonValue(serde_json::Value);

/// `serde_json::Number`: a parsed JSON number, read through its accessors.
#[verifier::external_type_specification]
#[verifier::external_body]
pub struct ExJsonNumber(serde_json::Number);

/// What a JSON value holds.
pub ghost enum JsonModel {
    Null,
    Bool(bool),
    Number(NumberModel),
    Text(Seq<char>),
    Items(Seq<JsonModel>),
    Entries(Seq<(Seq<char>, JsonModel)>),
}

/// What a `serde_json::Value` holds, as a tree of plain values.
pub uninterp spec fn json_contents(value: serde_json::Value) -> JsonModel;

/// What a `serde_json::Number` offers through `as_i64`, `as_u64` and
/// `as_f64`.
pub uninterp spec fn json_number(number: serde_json::Number) -> NumberModel;

/// What `serde_json::from_str` makes of a text that is read as a map from
/// names to values: the entries of the map in the order of their names, or
/// the message of the error.
pub uninterp spec fn json_document(text: Seq<char>) -> Result<
    Seq<(Seq<char>, JsonModel)>,
    Seq<char>,
>;

/// What `serde_json::from_str` makes of a text that is read as a list of
/// named entries: the names in the order of the text, or the message of
/// the error.
pub uninterp spec fn json_key_list(text: Seq<char>) -> Result<Seq<Seq<char>>, Seq<char>>;

/// One level of a JSON value: its kind, with what it holds at that level.
pub enum JsonNode<'a> {
    Null,
    Bool(bool),
    Number(&'a serde_json::Number),
    Text(&'a String),
    Items(&'a Vec<serde_json::Value>),
    Entries(Vec<(&'a String, &'a serde_json::Value)>),
}

/// The contents of the values of a sequence, in order.
pub open spec fn json_items_contents(items: Seq<serde_json::Value>) -> Seq<JsonModel> {
    Seq::new(items.len(), |i: int| json_contents(items[i]))
}

/// The names of the entries with the contents of their values, in order.
pub open spec fn json_entries_contents(entries: Seq<(&String, &serde_json::Value)>) -> Seq<
    (Seq<char>, JsonModel),
> {
    Seq::new(entries.len(), |i: int| (entries[i].0@, json_contents(*entries[i].1)))
}

/// The names of owned entries with the contents of their values, in order.
pub open spec fn json_owned_contents(entries: Seq<(String, serde_json::Value)>) -> Seq<
    (Seq<char>, JsonModel),
> {
    Seq::new(entries.len(), |i: int| (entries[i].0@, json_contents(entries[i].1)))
}

/// What one level of a value holds, over the contents of what is below.
pub open spec fn json_node_model(node: JsonNode) -> JsonModel {
    match node {
        JsonNode::Null => JsonModel::Null,
        JsonNode::Bool(b) => JsonModel::Bool(b),
        JsonNode::Number(n) => JsonModel::Number(json_number(*n)),
        JsonNode::Text(s) => JsonModel::Text(s@),
        JsonNode::Items(items) => JsonModel::Items(json_items_contents(items@)),
        JsonNode::Entries(entries) => JsonModel::Entries(json_entries_contents(entries@)),
    }
}

/// The model of a parse result.
pub open spec fn json_parsed_model(r: Result<Vec<(String, serde_json::Value)>, String>) -> Result<
    Seq<(Seq<char>, JsonModel)>,
    Seq<char>,
> {
    match r {
        Ok(entries) => Ok(json_owned_contents(entries@)),
        Err(message) => Err(message@),
    }
}

/// Calls `serde_json::from_str` for a map from names to values, ordered by
/// name, and hands its entries out in that order; an error is handed out as
/// its message. The contract names the result.
#[verifier::external_body]
fn json_from_str(text: &str) -> (r: Result<Vec<(String, serde_json::Value)>, String>)
    ensures
        json_parsed_model(r) == json_document(text@),
{
    serde_json::from_str::<std::collections::BTreeMap<String, serde_json::Value>>(text)
        .map(|map| map.into_iter().collect())
        .map_err(|error| error.to_string())
}

/// Calls `serde_json::from_str` for a `linear_map::LinearMap` from names to
/// values, which keeps the entries in the order of the text, and hands the
/// names out in that order; an error is handed out as its message. The
/// contract names the result.
#[verifier::external_body]
fn json_keys_from_str(text: &str) -> (r: Result<Vec<String>, String>)
    ensures
        key_list_model(r) == json_key_list(text@),
{
    serde_json::from_str::<linear_map::LinearMap<String, serde_json::Value>>(text)
        .map(|map| map.into_iter().map(|pair| pair.0).collect())
        .map_err(|error| error.to_string())
}

/// Tells the variants of `serde_json::Value` apart and hands out what the
/// variant holds: the contents of the value are those of the node.
#[verifier::external_body]
fn json_node<'a>(value: &'a serde_json::Value) -> (r: JsonNode<'a>)
    ensures
        json_node_model(r) == json_contents(*value),
{
    match value {
        serde_json::Value::Null => JsonNode::Null,
        serde_json::Value::Bool(b) => JsonNode::Bool(*b),
        serde_json::Value::Number(n) => JsonNode::Number(n),
        serde_json::Value::String(s) => JsonNode::Text(s),
        serde_json::Value::Array(items) => JsonNode::Items(items),
        serde_json::Value::Object(map) => JsonNode::Entries(map.iter().collect()),
    }
}

/// Calls `serde_json::Number::as_i64`.
#[verifier::external_body]
fn json_number_i64(number: &serde_json::Number) -> (r: Option<i64>)
    ensures
        r == json_number(*number).signed,
{
    number.as_i64()
}

/// Calls `serde_json::Number::as_u64`.
#[verifier::external_body]
fn json_number_u64(number: &serde_json::Number) -> (r: Option<u64>)
    ensures
        r == json_number(*number).unsigned,
{
    number.as_u64()
}

/// Calls `serde_json::Number::as_f64` and hands the float out as its
/// decimal text, where the number can be read as a float.
#[verifier::external_body]
fn json_number_float(number: &serde_json::Number) -> (r: Option<String>)
    ensures
        json_number(*number).float == match r {
            Some(text) => Some(text@),
            None => None,
        },
{
    number.as_f64().map(|float| float.to_string())
}

/// Every number in the value, at any depth, can be read as an integer or
/// as a float.
pub open spec fn json_numbers_are_readable(contents: JsonModel) -> bool
    decreases contents,
{
    match contents {
        JsonModel::Number(n) => number_is_readable(n),
        JsonModel::Items(items) => forall|i: int|
            0 <= i < items.len() ==> json_numbers_are_readable(#[trigger] items[i]),
        JsonModel::Entries(entries) => forall|i: int|
            0 <= i < entries.len() ==> json_numbers_are_readable((#[trigger] entries[i]).1),
        _ => true,
    }
}

/// What it takes for the numbers of an array and of an object to be
/// readable.
pub proof fn lemma_json_numbers_are_readable(contents: JsonModel)
    ensures
        contents matches JsonModel::Items(items) ==> (json_numbers_are_readable(contents)
            <==> forall|j: int|
            0 <= j < items.len() ==> json_numbers_are_readable(#[trigger] items[j])),
        contents matches JsonModel::Entries(entries) ==> (json_numbers_are_readable(contents)
            <==> forall|j: int|
            0 <= j < entries.len() ==> json_numbers_are_readable((#[trigger] entries[j]).1)),
{
}

/// Every number below the entries of a document can be read.
pub open spec fn json_document_is_readable(entries: Seq<(Seq<char>, JsonModel)>) -> bool {
    forall|i: int| 0 <= i < entries.len() ==> json_numbers_are_readable((#[trigger] entries[i]).1)
}

/// The values that the items of a JSON array stand for, in order.
pub open spec fn json_item_values(
    items: Seq<JsonModel>,
    super_struct: Seq<char>,
    super_key: Seq<char>,
    ints: IntSize,
    floats: FloatSize,
) -> Seq<ValueModel>
    decreases items,
{
    Seq::new(
        items.len(),
        |i: int|
            if 0 <= i < items.len() {
                json_value(items[i], super_struct, super_key, ints, floats)
            } else {
                ValueModel::Unit
            },
    )
}

/// The fields that the entries of a JSON object stand for, in the order of
/// the entries: each value is converted under its own key, below the
/// record named `parent`.
pub open spec fn json_entry_fields(
    entries: Seq<(Seq<char>, JsonModel)>,
    parent: Seq<char>,
    ints: IntSize,
    floats: FloatSize,
) -> Seq<(Seq<char>, ValueModel)>
    decreases entries,
{
    Seq::new(
        entries.len(),
        |i: int|
            if 0 <= i < entries.len() {
                (entries[i].0, json_value(entries[i].1, parent, entries[i].0, ints, floats))
            } else {
                (Seq::empty(), ValueModel::Unit)
            },
    )
}

/// The value that a JSON value stands for, found under the key `super_key`
/// of the record named `super_struct`.
///
/// Null is an absent option; a number is an integer or a float of the
/// preferred width; an array is an array of what its items stand for; an
/// object is a record named after the record and the key it was found
/// under, with its entries as fields.
pub open spec fn json_value(
    contents: JsonModel,
    super_struct: Seq<char>,
    super_key: Seq<char>,
    ints: IntSize,
    floats: FloatSize,
) -> ValueModel
    decreases contents,
{
    match contents {
        JsonModel::Null => ValueModel::Option(None),
        JsonModel::Bool(b) => ValueModel::Bool(b),
        JsonModel::Number(n) => number_value(n, ints, floats),
        JsonModel::Text(s) => ValueModel::String(s),
        JsonModel::Items(items) => ValueModel::Array(
            json_item_values(items, super_struct, super_key, ints, floats),
        ),
        JsonModel::Entries(entries) => ValueModel::Struct(
            RecordModel {
                name: nested_name(super_struct, super_key),
                fields: collect_fields(
                    json_entry_fields(entries, nested_name(super_struct, super_key), ints, floats),
                ),
            },
        ),
    }
}

/// The record that a JSON document stands for: a record named `Config`
/// whose fields are the entries of the document, converted below the
/// record's own name. An error holds the parser's message, or says that a
/// number can be read neither as an integer nor as a float.
pub open spec fn json_record(
    document: Result<Seq<(Seq<char>, JsonModel)>, Seq<char>>,
    ints: IntSize,
    floats: FloatSize,
) -> Result<RecordModel, GenerationErrorModel> {
    match document {
        Ok(entries) => if json_document_is_readable(entries) {
            Ok(
                RecordModel {
                    name: "Config"@,
                    fields: collect_fields(json_entry_fields(entries, "Config"@, ints, floats)),
                },
            )
        } else {
            Err(
                GenerationErrorModel::DeserializationFailed(
                    "Numbers in JSON documents must be integers or floats."@,
                ),
            )
        },
        Err(message) => Err(GenerationErrorModel::DeserializationFailed(message)),
    }
}

fn json_number_is_readable(number: &serde_json::Number) -> (r: bool)
    ensures
        r == number_is_readable(json_number(*number)),
{
    json_number_i64(number).is_some() || json_number_u64(number).is_some() || json_number_float(
        number,
    ).is_some()
}

/// Whether every number in the value can be read as an integer or as a
/// float.
#[verifier::loop_isolation(false)]
pub fn json_has_readable_numbers(value: &serde_json::Value) -> (r: bool)
    ensures
        r == json_numbers_are_readable(json_contents(*value)),
    decreases json_contents(*value),
{
    proof {
        lemma_json_numbers_are_readable(json_contents(*value));
    }
    match json_node(value) {
        JsonNode::Number(n) => json_number_is_readable(n),
        JsonNode::Items(items) => {
            let ghost contents = json_items_contents(items@);
            let mut i: usize = 0;
            while i < items.len()
                invariant
                    i <= items.len(),
                    forall|j: int| 0 <= j < i ==> json_numbers_are_readable(#[trigger] contents[j]),
                decreases items.len() - i,
            {
                assert(contents[i as int] == json_contents(items@[i as int]));
                if !json_has_readable_numbers(&items[i]) {
                    return false;
                }
                i = i + 1;
            }
            true
        },
        JsonNode::Entries(entries) => {
            let ghost contents = json_entries_contents(entries@);
            let mut i: usize = 0;
            while i < entries.len()
                invariant
                    i <= entries.len(),
                    forall|j: int|
                        0 <= j < i ==> json_numbers_are_readable((#[trigger] contents[j]).1),
                decreases entries.len() - i,
            {
                proof {
                    let entry = contents[i as int];
                    assert(entry == (entries@[i as int].0@, json_contents(*entries@[i as int].1)));
                    assert(decreases_to!(contents => entry));
                    assert(decreases_to!(entry => entry.1));
                }
                if !json_has_readable_numbers(entries[i].1) {
                    assert(!json_numbers_are_readable(contents[i as int].1));
                    return false;
                }
                i = i + 1;
            }
            true
        },
        _ => true,
    }
}

fn json_number_value(number: &serde_json::Number, options: &StructOptions) -> (r: GenericValue)
    requires
        number_is_readable(json_number(*number)),
    ensures
        r@ == number_value(
            json_number(*number),
            options@.default_int_size,
            options@.default_float_size,
        ),
{
    match json_number_i64(number) {
        Some(x) => preferred_int(x, options.default_int_size),
        None => match json_number_u64(number) {
            Some(x) => GenericValue::U64(x),
            None => match json_number_float(number) {
                Some(text) => preferred_float(text, options.default_float_size),
                None => vstd::pervasive::unreached(),
            },
        },
    }
}

/// Converts a JSON value found under the key `super_key` of the record
/// named `super_struct`. Every number in it has to be readable as an
/// integer or as a float.
#[verifier::loop_isolation(false)]
pub fn json_to_raw_value(
    super_struct: &str,
    super_key: &str,
    value: &serde_json::Value,
    options: &StructOptions,
) -> (r: GenericValue)
    requires
        json_numbers_are_readable(json_contents(*value)),
    ensures
        r@ == json_value(
            json_contents(*value),
            super_struct@,
            super_key@,
            options@.default_int_size,
            options@.default_float_size,
        ),
        value_is_ordered(r@),
    decreases json_contents(*value),
{
    let ghost ints = options@.default_int_size;
    let ghost floats = options@.default_float_size;
    proof {
        lemma_json_value_is_ordered(json_contents(*value), super_struct@, super_key@, ints, floats);
        lemma_json_numbers_are_readable(json_contents(*value));
    }
    match json_node(value) {
        JsonNode::Null => GenericValue::Option(None),
        JsonNode::Bool(b) => GenericValue::Bool(b),
        JsonNode::Number(n) => json_number_value(n, options),
        JsonNode::Text(s) => GenericValue::String(s.clone()),
        JsonNode::Items(items) => {
            let ghost contents = json_items_contents(items@);
            let ghost target = json_item_values(contents, super_struct@, super_key@, ints, floats);
            let mut values: Vec<GenericValue> = Vec::new();
            let mut i: usize = 0;
            while i < items.len()
                invariant
                    i <= items.len(),
                    values@.len() == i,
                    forall|j: int| 0 <= j < i ==> (#[trigger] values@[j])@ == target[j],
                decreases items.len() - i,
            {
                assert(contents[i as int] == json_contents(items@[i as int]));
                let element = json_to_raw_value(super_struct, super_key, &items[i], options);
                values.push(element);
                i = i + 1;
            }
            proof {
                lemma_array_model(values);
                assert(models_of(values@) =~= target);
            }
            GenericValue::Array(values)
        },
        JsonNode::Entries(entries) => {
            let ghost contents = json_entries_contents(entries@);
            let sub_struct_name = nested_struct_name(super_struct, super_key);
            let ghost target = json_entry_fields(contents, sub_struct_name@, ints, floats);
            let mut record = GenericStruct::new(sub_struct_name.clone());
            let mut i: usize = 0;
            assert(target.subrange(0, 0) =~= Seq::empty());
            while i < entries.len()
                invariant
                    i <= entries.len(),
                    record@ == (RecordModel {
                        name: sub_struct_name@,
                        fields: collect_fields(target.subrange(0, i as int)),
                    }),
                decreases entries.len() - i,
            {
                proof {
                    let entry = contents[i as int];
                    assert(entry == (entries@[i as int].0@, json_contents(*entries@[i as int].1)));
                    assert(decreases_to!(contents => entry));
                    assert(decreases_to!(entry => entry.1));
                }
                let key = entries[i].0.clone();
                let element = json_to_raw_value(
                    sub_struct_name.as_str(),
                    key.as_str(),
                    entries[i].1,
                    options,
                );
                proof {
                    let next = target.subrange(0, i + 1);
                    assert(next.drop_last() =~= target.subrange(0, i as int));
                    assert(next.last() == (key@, element@));
                }
                record.insert(key, element);
                i = i + 1;
            }
            assert(target.subrange(0, i as int) =~= target);
            GenericValue::Struct(record)
        },
    }
}

/// Parses a JSON document into its root record.
///
/// The document has to be an object. Numbers take the widths that the
/// options prefer.
pub fn parse_json(json: &str, options: &StructOptions) -> (r: Result<GenericStruct, GenerationError>)
    ensures
        record_result_model(r) == json_record(
            json_document(json@),
            options@.default_int_size,
            options@.default_float_size,
        ),
        r matches Ok(record) ==> record_is_ordered(record@),
{
    proof {
        lemma_json_record_is_ordered(
            json_document(json@),
            options@.default_int_size,
            options@.default_float_size,
        );
    }
    let ghost ints = options@.default_int_size;
    let ghost floats = options@.default_float_size;
    match json_from_str(json) {
        Err(message) => Err(GenerationError::DeserializationFailed(message)),
        Ok(entries) => {
            let ghost contents = json_owned_contents(entries@);
            let ghost target = json_entry_fields(contents, "Config"@, ints, floats);
            let mut fields: Vec<(String, GenericValue)> = Vec::new();
            let mut i: usize = 0;
            while i < entries.len()
                invariant
                    i <= entries.len(),
                    contents == json_owned_contents(entries@),
                    target == json_entry_fields(contents, "Config"@, ints, floats),
                    ints == options@.default_int_size,
                    floats == options@.default_float_size,
                    Ok::<Seq<(Seq<char>, JsonModel)>, Seq<char>>(contents) == json_document(json@),
                    fields@.len() == i,
                    forall|j: int|
                        0 <= j < i ==> json_numbers_are_readable((#[trigger] contents[j]).1),
                    forall|j: int|
                        0 <= j < i ==> ((#[trigger] fields@[j]).0@, fields@[j].1@) == target[j],
                decreases entries.len() - i,
            {
                assert(contents[i as int].1 == json_contents(entries@[i as int].1));
                if !json_has_readable_numbers(&entries[i].1) {
                    assert(!json_numbers_are_readable(contents[i as int].1));
                    assert(!json_document_is_readable(contents));
                    return Err(
                        GenerationError::DeserializationFailed(
                            "Numbers in JSON documents must be integers or floats.".to_owned(),
                        ),
                    );
                }
                let key = entries[i].0.clone();
                let element = json_to_raw_value("Config", key.as_str(), &entries[i].1, options);
                fields.push((key, element));
                i = i + 1;
            }
            assert(fields_of(fields@) =~= target);
            Ok(parsed_to_generic_struct(fields))
        },
    }
}

/// The keys of the object that a JSON document is, in the order of the
/// text.
pub fn parse_map_keys(json: &str) -> (r: Result<Vec<String>, GenerationError>)
    ensures
        keys_result_model(r) == keys_of_list(json_key_list(json@)),
{
    match json_keys_from_str(json) {
        Ok(keys) => Ok(keys),
        Err(message) => Err(GenerationError::DeserializationFailed(message)),
    }
}

/// A nested record is named after the record and the key it is found
/// under, joined by two underscores; the field that holds it has exactly
/// that name as its type, and its fields ascend by name.
pub proof fn lemma_json_nested_record_name(
    entries: Seq<(Seq<char>, JsonModel)>,
    super_struct: Seq<char>,
    super_key: Seq<char>,
    ints: IntSize,
    floats: FloatSize,
    max_array_size: nat,
)
    ensures
        json_value(JsonModel::Entries(entries), super_struct, super_key, ints, floats) is Struct,
        json_value(JsonModel::Entries(entries), super_struct, super_key, ints, floats)->Struct_0.name
            == super_struct + "__"@ + super_key,
        type_text(
            json_value(JsonModel::Entries(entries), super_struct, super_key, ints, floats),
            max_array_size,
        ) == super_struct + "__"@ + super_key,
        keys_ascend(
            json_value(JsonModel::Entries(entries), super_struct, super_key, ints, floats)->Struct_0.fields,
        ),
{
    lemma_collected_fields_ascend(
        json_entry_fields(entries, nested_name(super_struct, super_key), ints, floats),
    );
}

/// Every value that a JSON value stands for is ordered: the fields of
/// every record in it ascend by name.
pub proof fn lemma_json_value_is_ordered(
    contents: JsonModel,
    super_struct: Seq<char>,
    super_key: Seq<char>,
    ints: IntSize,
    floats: FloatSize,
)
    ensures
        value_is_ordered(json_value(contents, super_struct, super_key, ints, floats)),
    decreases contents,
{
    match contents {
        JsonModel::Number(n) => {
            lemma_number_is_ordered(n, ints, floats);
        },
        JsonModel::Items(items) => {
            let values = json_item_values(items, super_struct, super_key, ints, floats);
            assert forall|i: int| 0 <= i < values.len() implies value_is_ordered(
                #[trigger] values[i],
            ) by {
                lemma_json_value_is_ordered(items[i], super_struct, super_key, ints, floats);
            }
            lemma_value_is_ordered(ValueModel::Array(values));
        },
        JsonModel::Entries(entries) => {
            let parent = nested_name(super_struct, super_key);
            let fields = json_entry_fields(entries, parent, ints, floats);
            assert forall|i: int| 0 <= i < fields.len() implies value_is_ordered(
                (#[trigger] fields[i]).1,
            ) by {
                let entry = entries[i];
                assert(decreases_to!(entries => entry));
                assert(decreases_to!(entry => entry.1));
                lemma_json_value_is_ordered(entry.1, parent, fields[i].0, ints, floats);
            }
            lemma_collected_record_is_ordered(parent, fields);
        },
        _ => {},
    }
}

/// The record that a JSON document stands for is ordered.
pub proof fn lemma_json_record_is_ordered(
    document: Result<Seq<(Seq<char>, JsonModel)>, Seq<char>>,
    ints: IntSize,
    floats: FloatSize,
)
    ensures
        json_record(document, ints, floats) matches Ok(record) ==> record_is_ordered(record),
{
    match document {
        Ok(entries) => {
            let fields = json_entry_fields(entries, "Config"@, ints, floats);
            assert forall|i: int| 0 <= i < fields.len() implies value_is_ordered(
                (#[trigger] fields[i]).1,
            ) by {
                lemma_json_value_is_ordered(entries[i].1, "Config"@, entries[i].0, ints, floats);
            }
            lemma_collected_record_is_ordered("Config"@, fields);
        },
        Err(_) => {},
    }
}

} // verus!
