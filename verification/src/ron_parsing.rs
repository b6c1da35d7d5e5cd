//! The adapter for RON documents, on top of the `ron` crate.
//!
//! A document has to be a struct or a map whose keys are texts; named
//! structs and tuples are not supported.

use vstd::prelude::*;
use vstd::string::*;
use crate::error::{GenerationError, GenerationErrorModel};
use crate::options::{FloatSize, IntSize, StructOptions};
use crate::generation::type_text;
use crate::parsing::{
    collect_fields,
    lemma_collected_fields_ascend,
    lemma_collected_record_is_ordered,
    key_list_model,
    keys_of_list,
    keys_result_model,
    nested_name,
    nested_struct_name,
    parsed_to_generic_struct,
    preferred_float,
    preferred_float_model,
    preferred_int,
    preferred_int_model,
    record_result_model,
};
use crate::ron_guard::{ron_has_small_numbers, ron_numbers_are_small};
use crate::text::contains_char;
use crate::value::{
    fields_of,
    keys_ascend,
    lemma_value_is_ordered,
    record_is_ordered,
    value_is_ordered,
    lemma_array_model,
    models_of,
    GenericStruct,
    GenericValue,
    RecordModel,
    ValueModel,
};

verus! {

/// `ron::value::Value`: a parsed RON value. Nothing inside it is seen here;
/// what it holds is read through [`ron_node`].
#[verifier::external_type_specification]
#[verifier::external_body]
pub struct ExRonValue(ron::value::Value);

/// `ron::value::Number`: a parsed RON number, read through `get`.
#[verifier::external_type_specification]
#[verifier::external_body]
pub struct ExRonNumber(ron::value::Number);

/// What a RON number offers: the decimal text of its value, and its value
/// cut down to a signed integer.
pub ghost struct RonNumberModel {
    pub text: Seq<char>,
    pub truncated: i64,
}

/// What a RON value holds. The keys of a map are values themselves.
pub ghost enum RonModel {
    Unit,
    Bool(bool),
    Char(char),
    Number(RonNumberModel),
    Text(Seq<char>),
    Maybe(Option<Box<RonModel>>),
    Items(Seq<RonModel>),
    Entries(Seq<(RonModel, RonModel)>),
}

/// What a `ron::value::Value` holds, as a tree of plain values; the
/// entries of a map stand in the order in which the map hands them out.
pub uninterp spec fn ron_contents(value: ron::value::Value) -> RonModel;

/// What a `ron::value::Number` offers through `get`: the text of the float
/// and the float cast to a signed integer.
pub uninterp spec fn ron_number(number: ron::value::Number) -> RonNumberModel;

/// What `ron::de::from_str` makes of a text that is read as a value: the
/// contents of the value, or the message of the error.
pub uninterp spec fn ron_document(text: Seq<char>) -> Result<RonModel, Seq<char>>;

/// What `ron::de::from_str` makes of a text that is read as a list of
/// named entries: the names in the order of the text, or the message of
/// the error.
pub uninterp spec fn ron_key_list(text: Seq<char>) -> Result<Seq<Seq<char>>, Seq<char>>;

/// One level of a RON value: its kind, with what it holds at that level.
pub enum RonNode<'a> {
    Unit,
    Bool(bool),
    Char(char),
    Number(ron::value::Number),
    Text(&'a String),
    Maybe(Option<&'a ron::value::Value>),
    Items(&'a Vec<ron::value::Value>),
    Entries(Vec<(&'a ron::value::Value, &'a ron::value::Value)>),
}

/// The contents of the values of a sequence, in order.
pub open spec fn ron_items_contents(items: Seq<ron::value::Value>) -> Seq<RonModel> {
    Seq::new(items.len(), |i: int| ron_contents(items[i]))
}

/// The contents of the keys and values of the entries, in order.
pub open spec fn ron_entries_contents(
    entries: Seq<(&ron::value::Value, &ron::value::Value)>,
) -> Seq<(RonModel, RonModel)> {
    Seq::new(entries.len(), |i: int| (ron_contents(*entries[i].0), ron_contents(*entries[i].1)))
}

/// What one level of a value holds, over the contents of what is below.
pub open spec fn ron_node_model(node: RonNode) -> RonModel {
    match node {
        RonNode::Unit => RonModel::Unit,
        RonNode::Bool(b) => RonModel::Bool(b),
        RonNode::Char(c) => RonModel::Char(c),
        RonNode::Number(n) => RonModel::Number(ron_number(n)),
        RonNode::Text(s) => RonModel::Text(s@),
        RonNode::Maybe(inner) => RonModel::Maybe(
            match inner {
                Some(present) => Some(Box::new(ron_contents(*present))),
                None => None,
            },
        ),
        RonNode::Items(items) => RonModel::Items(ron_items_contents(items@)),
        RonNode::Entries(entries) => RonModel::Entries(ron_entries_contents(entries@)),
    }
}

/// The model of a parse result.
pub open spec fn ron_parsed_model(r: Result<ron::value::Value, String>) -> Result<
    RonModel,
    Seq<char>,
> {
    match r {
        Ok(value) => Ok(ron_contents(value)),
        Err(message) => Err(message@),
    }
}

/// What is said of a document with a number that may be too large for a
/// float.
pub open spec fn ron_number_fault() -> GenerationErrorModel {
    GenerationErrorModel::DeserializationFailed("A number in the RON document is too large."@)
}

/// Calls `ron::de::from_str` for a value; an error is handed out as its
/// message. The contract names the result.
///
/// The parser stops the program on a float that is not finite, so the text
/// may hold none. It reads a float only where a value begins with a digit,
/// a sign or a point, outside of comments and literals, and takes the run
/// of number characters from there; a float whose digits and exponent come
/// to no more than 307 is below ten to the power of 307.
#[verifier::external_body]
fn ron_from_str(text: &str) -> (r: Result<ron::value::Value, String>)
    requires
        ron_numbers_are_small(text@),
    ensures
        ron_parsed_model(r) == ron_document(text@),
{
    ron::de::from_str::<ron::value::Value>(text).map_err(|error| error.to_string())
}

/// Calls `ron::de::from_str` for a `linear_map::LinearMap` from names to
/// values, which keeps the entries in the order of the text, and hands the
/// names out in that order; an error is handed out as its message. The
/// contract names the result.
///
/// The parser stops the program on a float that is not finite, so the text
/// may hold none; see [`ron_from_str`].
#[verifier::external_body]
fn ron_keys_from_str(text: &str) -> (r: Result<Vec<String>, String>)
    requires
        ron_numbers_are_small(text@),
    ensures
        key_list_model(r) == ron_key_list(text@),
{
    ron::de::from_str::<linear_map::LinearMap<String, ron::value::Value>>(text)
        .map(|map| map.into_iter().map(|pair| pair.0).collect())
        .map_err(|error| error.to_string())
}

/// Tells the variants of `ron::value::Value` apart and hands out what the
/// variant holds: the contents of the value are those of the node.
#[verifier::external_body]
fn ron_node<'a>(value: &'a ron::value::Value) -> (r: RonNode<'a>)
    ensures
        ron_node_model(r) == ron_contents(*value),
{
    match value {
        ron::value::Value::Unit => RonNode::Unit,
        ron::value::Value::Bool(b) => RonNode::Bool(*b),
        ron::value::Value::Char(c) => RonNode::Char(*c),
        ron::value::Value::Number(n) => RonNode::Number(*n),
        ron::value::Value::String(s) => RonNode::Text(s),
        ron::value::Value::Option(inner) => RonNode::Maybe(inner.as_deref()),
        ron::value::Value::Seq(items) => RonNode::Items(items),
        ron::value::Value::Map(map) => RonNode::Entries(map.iter().collect()),
    }
}

/// Calls `ron::value::Number::get` and hands the float out as its decimal
/// text.
#[verifier::external_body]
fn ron_number_text(number: ron::value::Number) -> (r: String)
    ensures
        r@ == ron_number(number).text,
{
    number.get().to_string()
}

/// Calls `ron::value::Number::get` and casts the float to a signed
/// integer.
#[verifier::external_body]
fn ron_number_truncated(number: ron::value::Number) -> (r: i64)
    ensures
        r == ron_number(number).truncated,
{
    number.get() as i64
}

/// The text of a key; empty for a key that is no text.
pub open spec fn ron_key_text(key: RonModel) -> Seq<char> {
    match key {
        RonModel::Text(s) => s,
        _ => Seq::empty(),
    }
}

/// Every key of every map in the value, at any depth, is a text.
pub open spec fn ron_text_keys(contents: RonModel) -> bool
    decreases contents,
{
    match contents {
        RonModel::Maybe(Some(present)) => ron_text_keys(*present),
        RonModel::Items(items) => forall|i: int|
            0 <= i < items.len() ==> ron_text_keys(#[trigger] items[i]),
        RonModel::Entries(entries) => forall|i: int|
            0 <= i < entries.len() ==> (#[trigger] entries[i]).0 is Text && ron_text_keys(
                entries[i].1,
            ),
        _ => true,
    }
}

/// The keys of a sequence are texts where those of each item are; the keys
/// of a map are texts where each key is one and those of each value are.
pub proof fn lemma_ron_text_keys(contents: RonModel)
    ensures
        contents matches RonModel::Items(items) ==> (ron_text_keys(contents) <==> forall|j: int|
            0 <= j < items.len() ==> ron_text_keys(#[trigger] items[j])),
        contents matches RonModel::Entries(entries) ==> (ron_text_keys(contents) <==> forall|
            j: int,
        |
            0 <= j < entries.len() ==> (#[trigger] entries[j]).0 is Text && ron_text_keys(
                entries[j].1,
            )),
{
}

/// The value of a number: one whose decimal text holds no point is an
/// integer of the preferred width, any other a float of the preferred
/// width.
pub open spec fn ron_number_value(n: RonNumberModel, ints: IntSize, floats: FloatSize) -> ValueModel {
    if n.text.contains('.') {
        preferred_float_model(n.text, floats)
    } else {
        preferred_int_model(n.truncated, ints)
    }
}

/// The values that the items of a RON sequence stand for, in order.
pub open spec fn ron_item_values(
    items: Seq<RonModel>,
    super_struct: Seq<char>,
    super_key: Seq<char>,
    ints: IntSize,
    floats: FloatSize,
) -> Seq<ValueModel>
    decreases items,
{
    Seq::new(
        items.len(),
        |i: int|
            if 0 <= i < items.len() {
                ron_value(items[i], super_struct, super_key, ints, floats)
            } else {
                ValueModel::Unit
            },
    )
}

/// The fields that the entries of a RON map stand for, in the order of the
/// entries: each value is converted under its own key, below the record
/// named `parent`.
pub open spec fn ron_entry_fields(
    entries: Seq<(RonModel, RonModel)>,
    parent: Seq<char>,
    ints: IntSize,
    floats: FloatSize,
) -> Seq<(Seq<char>, ValueModel)>
    decreases entries,
{
    Seq::new(
        entries.len(),
        |i: int|
            if 0 <= i < entries.len() {
                (
                    ron_key_text(entries[i].0),
                    ron_value(entries[i].1, parent, ron_key_text(entries[i].0), ints, floats),
                )
            } else {
                (Seq::empty(), ValueModel::Unit)
            },
    )
}

/// The value that a RON value stands for, found under the key `super_key`
/// of the record named `super_struct`.
///
/// A number is an integer or a float of the preferred width; an option
/// holds what its value stands for; a sequence is an array of what its
/// items stand for; a map is a record named after the record and the key
/// it was found under, with its entries as fields.
pub open spec fn ron_value(
    contents: RonModel,
    super_struct: Seq<char>,
    super_key: Seq<char>,
    ints: IntSize,
    floats: FloatSize,
) -> ValueModel
    decreases contents,
{
    match contents {
        RonModel::Unit => ValueModel::Unit,
        RonModel::Bool(b) => ValueModel::Bool(b),
        RonModel::Char(c) => ValueModel::Char(c),
        RonModel::Number(n) => ron_number_value(n, ints, floats),
        RonModel::Text(s) => ValueModel::String(s),
        RonModel::Maybe(inner) => ValueModel::Option(
            match inner {
                Some(present) => Some(
                    Box::new(ron_value(*present, super_struct, super_key, ints, floats)),
                ),
                None => None,
            },
        ),
        RonModel::Items(items) => ValueModel::Array(
            ron_item_values(items, super_struct, super_key, ints, floats),
        ),
        RonModel::Entries(entries) => ValueModel::Struct(
            RecordModel {
                name: nested_name(super_struct, super_key),
                fields: collect_fields(
                    ron_entry_fields(entries, nested_name(super_struct, super_key), ints, floats),
                ),
            },
        ),
    }
}

/// Every key of the entries is a text.
pub open spec fn ron_top_keys_are_text(entries: Seq<(RonModel, RonModel)>) -> bool {
    forall|i: int| 0 <= i < entries.len() ==> (#[trigger] entries[i]).0 is Text
}

/// Every key of every map below the entries is a text.
pub open spec fn ron_nested_keys_are_text(entries: Seq<(RonModel, RonModel)>) -> bool {
    forall|i: int| 0 <= i < entries.len() ==> ron_text_keys((#[trigger] entries[i]).1)
}

/// The record that a RON document stands for: a record named `Config`
/// whose fields are the entries of the document, converted below the name
/// `Config`.
///
/// An error holds the parser's message, or says that the document is no
/// map, that a key of the document is no text, or that a key of a map
/// nested in it is no text; they are looked for in this order.
pub open spec fn ron_record(
    document: Result<RonModel, Seq<char>>,
    ints: IntSize,
    floats: FloatSize,
) -> Result<RecordModel, GenerationErrorModel> {
    match document {
        Ok(RonModel::Entries(entries)) => if !ron_top_keys_are_text(entries) {
            Err(
                GenerationErrorModel::DeserializationFailed(
                    "Top-level keys in RON map must be strings."@,
                ),
            )
        } else if !ron_nested_keys_are_text(entries) {
            Err(GenerationErrorModel::DeserializationFailed("Keys in RON maps must be strings."@))
        } else {
            Ok(
                RecordModel {
                    name: "Config"@,
                    fields: collect_fields(ron_entry_fields(entries, "Config"@, ints, floats)),
                },
            )
        },
        Ok(_) => Err(
            GenerationErrorModel::DeserializationFailed("Root RON object must be a struct or map."@),
        ),
        Err(message) => Err(GenerationErrorModel::DeserializationFailed(message)),
    }
}

/// The record that a RON text stands for: a text with a number that may
/// be too large for a float is refused before it is parsed; any
/// other is parsed and converted.
pub open spec fn ron_parsed_record(source: Seq<char>, ints: IntSize, floats: FloatSize) -> Result<
    RecordModel,
    GenerationErrorModel,
> {
    if ron_numbers_are_small(source) {
        ron_record(ron_document(source), ints, floats)
    } else {
        Err(ron_number_fault())
    }
}

/// The keys of the map that a RON text stands for: a text with a number
/// that may be too large for a float is refused before it is parsed.
pub open spec fn ron_parsed_keys(source: Seq<char>) -> Result<Seq<Seq<char>>, GenerationErrorModel> {
    if ron_numbers_are_small(source) {
        keys_of_list(ron_key_list(source))
    } else {
        Err(ron_number_fault())
    }
}

fn ron_number_to_value(number: ron::value::Number, options: &StructOptions) -> (r: GenericValue)
    ensures
        r@ == ron_number_value(
            ron_number(number),
            options@.default_int_size,
            options@.default_float_size,
        ),
{
    let text = ron_number_text(number);
    if contains_char(text.as_str(), '.') {
        preferred_float(text, options.default_float_size)
    } else {
        preferred_int(ron_number_truncated(number), options.default_int_size)
    }
}

/// Whether every key of every map in the value is a text.
#[verifier::loop_isolation(false)]
pub fn ron_has_text_keys(value: &ron::value::Value) -> (r: bool)
    ensures
        r == ron_text_keys(ron_contents(*value)),
    decreases ron_contents(*value),
{
    match ron_node(value) {
        RonNode::Maybe(Some(present)) => {
            assert(ron_contents(*value) == RonModel::Maybe(Some(Box::new(ron_contents(*present)))));
            assert(ron_text_keys(ron_contents(*value)) == ron_text_keys(ron_contents(*present)));
            ron_has_text_keys(present)
        },
        RonNode::Items(items) => {
            let ghost contents = ron_items_contents(items@);
            let mut i: usize = 0;
            while i < items.len()
                invariant
                    i <= items.len(),
                    forall|j: int| 0 <= j < i ==> ron_text_keys(#[trigger] contents[j]),
                decreases items.len() - i,
            {
                assert(contents[i as int] == ron_contents(items@[i as int]));
                proof {
                    lemma_ron_text_keys(ron_contents(*value));
                }
                if !ron_has_text_keys(&items[i]) {
                    return false;
                }
                i = i + 1;
            }
            proof {
                lemma_ron_text_keys(ron_contents(*value));
            }
            true
        },
        RonNode::Entries(entries) => {
            let ghost contents = ron_entries_contents(entries@);
            let mut i: usize = 0;
            while i < entries.len()
                invariant
                    i <= entries.len(),
                    forall|j: int|
                        0 <= j < i ==> (#[trigger] contents[j]).0 is Text && ron_text_keys(
                            contents[j].1,
                        ),
                decreases entries.len() - i,
            {
                proof {
                    let entry = contents[i as int];
                    assert(entry == (
                        ron_contents(*entries@[i as int].0),
                        ron_contents(*entries@[i as int].1),
                    ));
                    assert(decreases_to!(contents => entry));
                    assert(decreases_to!(entry => entry.1));
                    lemma_ron_text_keys(ron_contents(*value));
                }
                match ron_node(entries[i].0) {
                    RonNode::Text(_) => {},
                    _ => {
                        assert(!(contents[i as int].0 is Text));
                        return false;
                    },
                }
                if !ron_has_text_keys(entries[i].1) {
                    assert(!ron_text_keys(contents[i as int].1));
                    return false;
                }
                i = i + 1;
            }
            proof {
                lemma_ron_text_keys(ron_contents(*value));
            }
            true
        },
        _ => true,
    }
}

/// Converts a RON value found under the key `super_key` of the record
/// named `super_struct`. The keys of all maps in it have to be texts.
#[verifier::loop_isolation(false)]
pub fn ron_to_raw_value(
    super_struct: &str,
    super_key: &str,
    value: &ron::value::Value,
    options: &StructOptions,
) -> (r: GenericValue)
    requires
        ron_text_keys(ron_contents(*value)),
    ensures
        r@ == ron_value(
            ron_contents(*value),
            super_struct@,
            super_key@,
            options@.default_int_size,
            options@.default_float_size,
        ),
        value_is_ordered(r@),
    decreases ron_contents(*value),
{
    let ghost ints = options@.default_int_size;
    let ghost floats = options@.default_float_size;
    proof {
        lemma_ron_value_is_ordered(ron_contents(*value), super_struct@, super_key@, ints, floats);
    }
    match ron_node(value) {
        RonNode::Unit => GenericValue::Unit,
        RonNode::Bool(b) => GenericValue::Bool(b),
        RonNode::Char(c) => GenericValue::Char(c),
        RonNode::Number(n) => ron_number_to_value(n, options),
        RonNode::Text(s) => GenericValue::String(s.clone()),
        RonNode::Maybe(inner) => match inner {
            Some(present) => GenericValue::Option(
                Some(Box::new(ron_to_raw_value(super_struct, super_key, present, options))),
            ),
            None => GenericValue::Option(None),
        },
        RonNode::Items(items) => {
            let ghost contents = ron_items_contents(items@);
            let ghost target = ron_item_values(contents, super_struct@, super_key@, ints, floats);
            let mut values: Vec<GenericValue> = Vec::new();
            let mut i: usize = 0;
            while i < items.len()
                invariant
                    i <= items.len(),
                    values@.len() == i,
                    forall|j: int| 0 <= j < i ==> (#[trigger] values@[j])@ == target[j],
                decreases items.len() - i,
            {
                assert(contents[i as int] == ron_contents(items@[i as int]));
                let element = ron_to_raw_value(super_struct, super_key, &items[i], options);
                values.push(element);
                i = i + 1;
            }
            proof {
                lemma_array_model(values);
                assert(models_of(values@) =~= target);
            }
            GenericValue::Array(values)
        },
        RonNode::Entries(entries) => {
            let ghost contents = ron_entries_contents(entries@);
            let sub_struct_name = nested_struct_name(super_struct, super_key);
            let ghost target = ron_entry_fields(contents, sub_struct_name@, ints, floats);
            let mut record = GenericStruct::new(sub_struct_name.clone());
            let mut i: usize = 0;
            assert(target.subrange(0, 0) =~= Seq::empty());
            while i < entries.len()
                invariant
                    i <= entries.len(),
                    record@ == (RecordModel {
                        name: sub_struct_name@,
                        fields: collect_fields(target.subrange(0, i as int)),
                    }),
                decreases entries.len() - i,
            {
                proof {
                    let entry = contents[i as int];
                    assert(entry == (
                        ron_contents(*entries@[i as int].0),
                        ron_contents(*entries@[i as int].1),
                    ));
                    assert(decreases_to!(contents => entry));
                    assert(decreases_to!(entry => entry.1));
                }
                let key = match ron_node(entries[i].0) {
                    RonNode::Text(s) => s.clone(),
                    _ => vstd::pervasive::unreached(),
                };
                let element = ron_to_raw_value(
                    sub_struct_name.as_str(),
                    key.as_str(),
                    entries[i].1,
                    options,
                );
                proof {
                    let next = target.subrange(0, i + 1);
                    assert(next.drop_last() =~= target.subrange(0, i as int));
                    assert(next.last() == (key@, element@));
                }
                record.insert(key, element);
                i = i + 1;
            }
            assert(target.subrange(0, i as int) =~= target);
            GenericValue::Struct(record)
        },
    }
}

/// Parses a RON document into its root record.
///
/// The document has to be a struct or a map, and every key of every map
/// in it a text. Numbers take the widths that the options prefer; a
/// document with a number that may be too large for a float is
/// refused.
#[verifier::loop_isolation(false)]
pub fn parse_ron(ron: &str, options: &StructOptions) -> (r: Result<GenericStruct, GenerationError>)
    ensures
        record_result_model(r) == ron_parsed_record(
            ron@,
            options@.default_int_size,
            options@.default_float_size,
        ),
        r matches Ok(record) ==> record_is_ordered(record@),
{
    proof {
        lemma_ron_record_is_ordered(
            ron_document(ron@),
            options@.default_int_size,
            options@.default_float_size,
        );
    }
    let ghost ints = options@.default_int_size;
    let ghost floats = options@.default_float_size;
    if !ron_has_small_numbers(ron) {
        return Err(
            GenerationError::DeserializationFailed(
                "A number in the RON document is too large.".to_owned(),
            ),
        );
    }
    let ron_object = match ron_from_str(ron) {
        Err(message) => {
            return Err(GenerationError::DeserializationFailed(message));
        },
        Ok(value) => value,
    };
    match ron_node(&ron_object) {
        RonNode::Entries(entries) => {
            let ghost contents = ron_entries_contents(entries@);
            let mut k: usize = 0;
            while k < entries.len()
                invariant
                    k <= entries.len(),
                    forall|j: int| 0 <= j < k ==> (#[trigger] contents[j]).0 is Text,
                decreases entries.len() - k,
            {
                assert(contents[k as int].0 == ron_contents(*entries@[k as int].0));
                match ron_node(entries[k].0) {
                    RonNode::Text(_) => {},
                    _ => {
                        assert(!ron_top_keys_are_text(contents));
                        return Err(
                            GenerationError::DeserializationFailed(
                                "Top-level keys in RON map must be strings.".to_owned(),
                            ),
                        );
                    },
                }
                k = k + 1;
            }
            let mut n: usize = 0;
            while n < entries.len()
                invariant
                    n <= entries.len(),
                    forall|j: int| 0 <= j < n ==> ron_text_keys((#[trigger] contents[j]).1),
                decreases entries.len() - n,
            {
                assert(contents[n as int].1 == ron_contents(*entries@[n as int].1));
                if !ron_has_text_keys(entries[n].1) {
                    assert(!ron_nested_keys_are_text(contents));
                    return Err(
                        GenerationError::DeserializationFailed(
                            "Keys in RON maps must be strings.".to_owned(),
                        ),
                    );
                }
                n = n + 1;
            }
            let ghost target = ron_entry_fields(contents, "Config"@, ints, floats);
            let mut fields: Vec<(String, GenericValue)> = Vec::new();
            let mut i: usize = 0;
            while i < entries.len()
                invariant
                    i <= entries.len(),
                    fields@.len() == i,
                    forall|j: int|
                        0 <= j < i ==> ((#[trigger] fields@[j]).0@, fields@[j].1@) == target[j],
                decreases entries.len() - i,
            {
                assert(contents[i as int] == (
                    ron_contents(*entries@[i as int].0),
                    ron_contents(*entries@[i as int].1),
                ));
                let key = match ron_node(entries[i].0) {
                    RonNode::Text(s) => s.clone(),
                    _ => vstd::pervasive::unreached(),
                };
                let element = ron_to_raw_value("Config", key.as_str(), entries[i].1, options);
                fields.push((key, element));
                i = i + 1;
            }
            assert(fields_of(fields@) =~= target);
            Ok(parsed_to_generic_struct(fields))
        },
        _ => Err(
            GenerationError::DeserializationFailed(
                "Root RON object must be a struct or map.".to_owned(),
            ),
        ),
    }
}

/// The keys of the map that a RON document is, in the order of the text.
/// A document with a number that may be too large for a float is
/// refused.
pub fn parse_map_keys(ron: &str) -> (r: Result<Vec<String>, GenerationError>)
    ensures
        keys_result_model(r) == ron_parsed_keys(ron@),
{
    if !ron_has_small_numbers(ron) {
        return Err(
            GenerationError::DeserializationFailed(
                "A number in the RON document is too large.".to_owned(),
            ),
        );
    }
    match ron_keys_from_str(ron) {
        Ok(keys) => Ok(keys),
        Err(message) => Err(GenerationError::DeserializationFailed(message)),
    }
}

/// A nested record is named after the record and the key it is found
/// under, joined by two underscores; the field that holds it has exactly
/// that name as its type, and its fields ascend by name.
pub proof fn lemma_ron_nested_record_name(
    entries: Seq<(RonModel, RonModel)>,
    super_struct: Seq<char>,
    super_key: Seq<char>,
    ints: IntSize,
    floats: FloatSize,
    max_array_size: nat,
)
    ensures
        ron_value(RonModel::Entries(entries), super_struct, super_key, ints, floats) is Struct,
        ron_value(RonModel::Entries(entries), super_struct, super_key, ints, floats)->Struct_0.name
            == super_struct + "__"@ + super_key,
        type_text(
            ron_value(RonModel::Entries(entries), super_struct, super_key, ints, floats),
            max_array_size,
        ) == super_struct + "__"@ + super_key,
        keys_ascend(
            ron_value(RonModel::Entries(entries), super_struct, super_key, ints, floats)->Struct_0.fields,
        ),
{
    lemma_collected_fields_ascend(
        ron_entry_fields(entries, nested_name(super_struct, super_key), ints, floats),
    );
}

/// Every value that a RON value stands for is ordered: the fields of
/// every record in it ascend by name.
pub proof fn lemma_ron_value_is_ordered(
    contents: RonModel,
    super_struct: Seq<char>,
    super_key: Seq<char>,
    ints: IntSize,
    floats: FloatSize,
)
    ensures
        value_is_ordered(ron_value(contents, super_struct, super_key, ints, floats)),
    decreases contents,
{
    match contents {
        RonModel::Number(n) => {
            assert(value_is_ordered(preferred_int_model(n.truncated, ints)));
            assert(value_is_ordered(preferred_float_model(n.text, floats)));
        },
        RonModel::Maybe(Some(present)) => {
            lemma_ron_value_is_ordered(*present, super_struct, super_key, ints, floats);
        },
        RonModel::Items(items) => {
            let values = ron_item_values(items, super_struct, super_key, ints, floats);
            assert forall|i: int| 0 <= i < values.len() implies value_is_ordered(
                #[trigger] values[i],
            ) by {
                lemma_ron_value_is_ordered(items[i], super_struct, super_key, ints, floats);
            }
            lemma_value_is_ordered(ValueModel::Array(values));
        },
        RonModel::Entries(entries) => {
            let parent = nested_name(super_struct, super_key);
            let fields = ron_entry_fields(entries, parent, ints, floats);
            assert forall|i: int| 0 <= i < fields.len() implies value_is_ordered(
                (#[trigger] fields[i]).1,
            ) by {
                let entry = entries[i];
                assert(decreases_to!(entries => entry));
                assert(decreases_to!(entry => entry.1));
                lemma_ron_value_is_ordered(entry.1, parent, fields[i].0, ints, floats);
            }
            lemma_collected_record_is_ordered(parent, fields);
        },
        _ => {},
    }
}

/// The record that a RON document stands for is ordered.
pub proof fn lemma_ron_record_is_ordered(
    document: Result<RonModel, Seq<char>>,
    ints: IntSize,
    floats: FloatSize,
)
    ensures
        ron_record(document, ints, floats) matches Ok(record) ==> record_is_ordered(record),
{
    match document {
        Ok(RonModel::Entries(entries)) => {
            let fields = ron_entry_fields(entries, "Config"@, ints, floats);
            assert forall|i: int| 0 <= i < fields.len() implies value_is_ordered(
                (#[trigger] fields[i]).1,
            ) by {
                lemma_ron_value_is_ordered(entries[i].1, "Config"@, fields[i].0, ints, floats);
            }
            lemma_collected_record_is_ordered("Config"@, fields);
        },
        _ => {},
    }
}

} // verus!
