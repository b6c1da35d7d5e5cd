//! What the adapters of all formats share: the widths of numbers, the names
//! of nested records, and the collecting of fields into a record.

use vstd::prelude::*;
use vstd::string::*;
use crate::error::{GenerationError, GenerationErrorModel};
use crate::options::{FloatSize, IntSize};
use crate::value::{
    fields_of,
    insert_field,
    keys_ascend,
    lemma_insert_field_keeps_order,
    lemma_insert_field_keeps_values_ordered,
    lemma_value_is_ordered,
    record_is_ordered,
    value_is_ordered,
    GenericStruct,
    GenericValue,
    RecordModel,
    ValueModel,
};

verus! {

/// What a parsed number offers: its value as a signed integer, as an
/// unsigned integer, and the decimal text of its value as a float, each
/// where the number can be read so.
pub ghost struct NumberModel {
    pub signed: Option<i64>,
    pub unsigned: Option<u64>,
    pub float: Option<Seq<char>>,
}

/// An integer at the preferred width, cut down to the bits that fit.
pub open spec fn preferred_int_model(value: i64, preferred: IntSize) -> ValueModel {
    match preferred {
        IntSize::I8 => ValueModel::I8(value as i8),
        IntSize::I16 => ValueModel::I16(value as i16),
        IntSize::I32 => ValueModel::I32(value as i32),
        IntSize::I64 => ValueModel::I64(value),
        IntSize::ISize => ValueModel::ISize(value as isize),
    }
}

/// A float, given by its decimal text, at the preferred width. The width
/// decides the declared type; the text stays as it is.
pub open spec fn preferred_float_model(text: Seq<char>, preferred: FloatSize) -> ValueModel {
    match preferred {
        FloatSize::F32 => ValueModel::F32(text),
        FloatSize::F64 => ValueModel::F64(text),
    }
}

/// The value of a number: a signed integer at the preferred width where it
/// is one; else an unsigned 64-bit integer where it is one; else a float
/// at the preferred width.
pub open spec fn number_value(n: NumberModel, ints: IntSize, floats: FloatSize) -> ValueModel {
    match n.signed {
        Some(x) => preferred_int_model(x, ints),
        None => match n.unsigned {
            Some(x) => ValueModel::U64(x),
            None => match n.float {
                Some(text) => preferred_float_model(text, floats),
                None => ValueModel::Unit,
            },
        },
    }
}

/// The number can be read as a signed integer, as an unsigned integer or
/// as a float.
pub open spec fn number_is_readable(n: NumberModel) -> bool {
    n.signed is Some || n.unsigned is Some || n.float is Some
}

/// The name of a record nested under the key `super_key` of the record
/// named `super_struct`: the two joined by two underscores.
pub open spec fn nested_name(super_struct: Seq<char>, super_key: Seq<char>) -> Seq<char> {
    super_struct + "__"@ + super_key
}

/// The fields of a record that is filled with the entries in order.
pub open spec fn collect_fields(entries: Seq<(Seq<char>, ValueModel)>) -> Seq<
    (Seq<char>, ValueModel),
>
    decreases entries.len(),
{
    if entries.len() == 0 {
        Seq::empty()
    } else {
        insert_field(collect_fields(entries.drop_last()), entries.last().0, entries.last().1)
    }
}

/// The model of a record or an error.
pub open spec fn record_result_model(r: Result<GenericStruct, GenerationError>) -> Result<
    RecordModel,
    GenerationErrorModel,
> {
    match r {
        Ok(record) => Ok(record@),
        Err(error) => Err(error@),
    }
}

/// The model of a list of keys or an error message.
pub open spec fn key_list_model(r: Result<Vec<String>, String>) -> Result<
    Seq<Seq<char>>,
    Seq<char>,
> {
    match r {
        Ok(keys) => Ok(keys.deep_view()),
        Err(message) => Err(message@),
    }
}

/// The model of a list of keys or a generation error.
pub open spec fn keys_result_model(r: Result<Vec<String>, GenerationError>) -> Result<
    Seq<Seq<char>>,
    GenerationErrorModel,
> {
    match r {
        Ok(keys) => Ok(keys.deep_view()),
        Err(error) => Err(error@),
    }
}

/// The keys that a parsed list of keys stands for, or the error that holds
/// the parser's message.
pub open spec fn keys_of_list(list: Result<Seq<Seq<char>>, Seq<char>>) -> Result<
    Seq<Seq<char>>,
    GenerationErrorModel,
> {
    match list {
        Ok(keys) => Ok(keys),
        Err(message) => Err(GenerationErrorModel::DeserializationFailed(message)),
    }
}

/// The names of the fields of a record that is filled with entries
/// ascend, whatever the order of the entries.
pub proof fn lemma_collected_fields_ascend(entries: Seq<(Seq<char>, ValueModel)>)
    ensures
        keys_ascend(collect_fields(entries)),
    decreases entries.len(),
{
    if entries.len() > 0 {
        lemma_collected_fields_ascend(entries.drop_last());
        lemma_insert_field_keeps_order(
            collect_fields(entries.drop_last()),
            entries.last().0,
            entries.last().1,
        );
    }
}

/// A record that is filled with entries whose values are ordered is
/// ordered itself, whatever the order of the entries.
pub proof fn lemma_collected_record_is_ordered(
    name: Seq<char>,
    entries: Seq<(Seq<char>, ValueModel)>,
)
    requires
        forall|i: int| 0 <= i < entries.len() ==> value_is_ordered((#[trigger] entries[i]).1),
    ensures
        record_is_ordered(RecordModel { name, fields: collect_fields(entries) }),
        value_is_ordered(ValueModel::Struct(RecordModel { name, fields: collect_fields(entries) })),
        forall|i: int|
            0 <= i < collect_fields(entries).len() ==> value_is_ordered(
                (#[trigger] collect_fields(entries)[i]).1,
            ),
    decreases entries.len(),
{
    lemma_collected_fields_ascend(entries);
    if entries.len() > 0 {
        let shorter = entries.drop_last();
        assert forall|i: int| 0 <= i < shorter.len() implies value_is_ordered(
            (#[trigger] shorter[i]).1,
        ) by {
            assert(shorter[i] == entries[i]);
        }
        lemma_collected_record_is_ordered(name, shorter);
        assert(value_is_ordered(entries[entries.len() - 1].1));
        lemma_insert_field_keeps_values_ordered(
            collect_fields(shorter),
            entries.last().0,
            entries.last().1,
        );
    }
    lemma_value_is_ordered(ValueModel::Struct(RecordModel { name, fields: collect_fields(entries) }));
}

/// A number is ordered: it holds no record.
pub proof fn lemma_number_is_ordered(n: NumberModel, ints: IntSize, floats: FloatSize)
    ensures
        value_is_ordered(number_value(n, ints, floats)),
        forall|x: i64| value_is_ordered(#[trigger] preferred_int_model(x, ints)),
        forall|t: Seq<char>| value_is_ordered(#[trigger] preferred_float_model(t, floats)),
{
}

/// An integer as a value of the preferred width.
pub fn preferred_int(value: i64, preferred: IntSize) -> (r: GenericValue)
    ensures
        r@ == preferred_int_model(value, preferred),
{
    match preferred {
        IntSize::I8 => GenericValue::I8(#[verifier::truncate] (value as i8)),
        IntSize::I16 => GenericValue::I16(#[verifier::truncate] (value as i16)),
        IntSize::I32 => GenericValue::I32(#[verifier::truncate] (value as i32)),
        IntSize::I64 => GenericValue::I64(value),
        IntSize::ISize => GenericValue::ISize(#[verifier::truncate] (value as isize)),
    }
}

/// A float, given by its decimal text, as a value of the preferred width.
/// The width decides the declared type; the text stays as it is.
pub fn preferred_float(value: String, preferred: FloatSize) -> (r: GenericValue)
    ensures
        r@ == preferred_float_model(value@, preferred),
{
    match preferred {
        FloatSize::F32 => GenericValue::F32(value),
        FloatSize::F64 => GenericValue::F64(value),
    }
}

/// The name of a record nested under a key of another record.
pub fn nested_struct_name(super_struct: &str, super_key: &str) -> (r: String)
    ensures
        r@ == nested_name(super_struct@, super_key@),
{
    let mut name = super_struct.to_owned();
    name.append("__");
    name.append(super_key);
    name
}

/// The root record of a document, named `Config`, filled with the given
/// fields in order.
pub fn parsed_to_generic_struct(fields: Vec<(String, GenericValue)>) -> (r: GenericStruct)
    ensures
        r@ == (RecordModel { name: "Config"@, fields: collect_fields(fields_of(fields@)) }),
        (forall|i: int| 0 <= i < fields@.len() ==> value_is_ordered((#[trigger] fields@[i]).1@))
            ==> record_is_ordered(r@),
{
    let ghost all = fields_of(fields@);
    proof {
        if forall|i: int| 0 <= i < fields@.len() ==> value_is_ordered((#[trigger] fields@[i]).1@) {
            assert forall|i: int| 0 <= i < all.len() implies value_is_ordered(
                (#[trigger] all[i]).1,
            ) by {
                assert(all[i].1 == fields@[i].1@);
            }
            lemma_collected_record_is_ordered("Config"@, all);
        }
    }
    let mut rest = fields;
    let mut root = GenericStruct::new("Config".to_owned());
    let ghost mut done: int = 0;
    assert(all.subrange(0, 0) =~= Seq::empty());
    while rest.len() > 0
        invariant
            0 <= done <= all.len(),
            done + rest@.len() == all.len(),
            fields_of(rest@) =~= all.subrange(done, all.len() as int),
            root@ == (RecordModel {
                name: "Config"@,
                fields: collect_fields(all.subrange(0, done)),
            }),
        decreases rest.len(),
    {
        let ghost before = rest@;
        let field = rest.remove(0);
        proof {
            let next = all.subrange(0, done + 1);
            assert(next.drop_last() =~= all.subrange(0, done));
            assert(fields_of(before)[0] == all.subrange(done, all.len() as int)[0]);
            assert(next.last() == (field.0@, field.1@));
            assert(fields_of(rest@) =~= all.subrange(done + 1, all.len() as int)) by {
                assert forall|j: int| 0 <= j < rest@.len() implies fields_of(rest@)[j]
                    == all.subrange(done + 1, all.len() as int)[j] by {
                    assert(rest@[j] == before[j + 1]);
                    assert(fields_of(before)[j + 1] == all.subrange(done, all.len() as int)[j + 1]);
                }
            }
            done = done + 1;
        }
        root.insert(field.0, field.1);
    }
    assert(all.subrange(0, done) =~= all);
    root
}

} // verus!
