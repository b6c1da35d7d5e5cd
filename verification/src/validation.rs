//! The checks a value tree has to pass before any code is written for it.

use vstd::prelude::*;
use vstd::string::*;
use crate::error::{GenerationError, GenerationErrorModel};
use crate::generation::{type_string, type_text};
use crate::text::chars_of;
use crate::value::{
    lemma_array_model,
    lemma_record_is_ordered,
    lemma_value_is_ordered,
    models_of,
    record_is_ordered,
    value_is_ordered,
    GenericStruct,
    GenericValue,
    RecordModel,
    ValueModel,
};

verus! {

/// A letter of the ASCII alphabet.
pub open spec fn ascii_letter(c: char) -> bool {
    ('a' <= c && c <= 'z') || ('A' <= c && c <= 'Z')
}

/// A decimal digit.
pub open spec fn ascii_digit(c: char) -> bool {
    '0' <= c && c <= '9'
}

/// The identifier rule: the name is not empty, starts with an underscore
/// or an ASCII letter, holds only underscores, ASCII letters and digits,
/// and is not the single underscore.
pub open spec fn is_identifier(name: Seq<char>) -> bool {
    &&& name.len() > 0
    &&& (name[0] == '_' || ascii_letter(name[0]))
    &&& forall|i: int|
        0 <= i < name.len() ==> (#[trigger] name[i] == '_' || ascii_letter(name[i]) || ascii_digit(
            name[i],
        ))
    &&& !(name.len() == 1 && name[0] == '_')
}

/// All elements have the type of the first one, compared by type name.
pub open spec fn homogeneous(items: Seq<ValueModel>) -> bool {
    forall|i: int| 0 <= i < items.len() ==> type_text(#[trigger] items[i], 0) == type_text(items[0], 0)
}

/// The first fault of a value found under the key `key`, if there is one.
///
/// An array is checked for elements of different types before its elements
/// are looked into; a present option is looked into; a nested record is
/// checked as a record; every other value is sound.
pub open spec fn value_fault(key: Seq<char>, v: ValueModel) -> Option<GenerationErrorModel>
    decreases v,
{
    match v {
        ValueModel::Option(Some(present)) => value_fault(key, *present),
        ValueModel::Array(items) => if !homogeneous(items) {
            Some(GenerationErrorModel::HeterogenousArray(key))
        } else {
            items_fault(key, items)
        },
        ValueModel::Struct(record) => fields_fault(record.fields),
        _ => None,
    }
}

/// The first fault among the elements of an array under the key `key`.
pub open spec fn items_fault(key: Seq<char>, items: Seq<ValueModel>) -> Option<GenerationErrorModel>
    decreases items,
{
    if items.len() == 0 {
        None
    } else {
        match items_fault(key, items.drop_last()) {
            Some(fault) => Some(fault),
            None => value_fault(key, items.last()),
        }
    }
}

/// The fault of one field: its name is checked before its value.
pub open spec fn field_fault(field: (Seq<char>, ValueModel)) -> Option<GenerationErrorModel>
    decreases field,
{
    if !is_identifier(field.0) {
        Some(GenerationErrorModel::InvalidFieldName(field.0))
    } else {
        value_fault(field.0, field.1)
    }
}

/// The first fault among fields, taken in order.
pub open spec fn fields_fault(fields: Seq<(Seq<char>, ValueModel)>) -> Option<GenerationErrorModel>
    decreases fields,
{
    if fields.len() == 0 {
        None
    } else {
        match fields_fault(fields.drop_last()) {
            Some(fault) => Some(fault),
            None => field_fault(fields.last()),
        }
    }
}

/// The first fault of a record, if there is one.
pub open spec fn record_fault(r: RecordModel) -> Option<GenerationErrorModel> {
    fields_fault(r.fields)
}

/// What a check returns, as a model: nothing, or the fault.
pub open spec fn check_model(r: Result<(), GenerationError>) -> Option<GenerationErrorModel> {
    match r {
        Ok(_) => None,
        Err(error) => Some(error@),
    }
}

fn is_ascii_letter(c: char) -> (r: bool)
    ensures
        r == ascii_letter(c),
{
    ('a' <= c && c <= 'z') || ('A' <= c && c <= 'Z')
}

fn is_ascii_digit(c: char) -> (r: bool)
    ensures
        r == ascii_digit(c),
{
    '0' <= c && c <= '9'
}

/// Whether a name can stand as an identifier in generated code.
pub fn valid_identifier(name: &str) -> (r: bool)
    ensures
        r == is_identifier(name@),
{
    let chars = chars_of(name);
    let n = chars.len();
    if n == 0 {
        return false;
    }
    let first = chars[0];
    if !(first == '_' || is_ascii_letter(first)) {
        return false;
    }
    if n == 1 && first == '_' {
        return false;
    }
    let mut i: usize = 0;
    while i < n
        invariant
            i <= n,
            n == name@.len(),
            chars@ == name@,
            forall|j: int|
                0 <= j < i ==> (#[trigger] name@[j] == '_' || ascii_letter(name@[j]) || ascii_digit(
                    name@[j],
                )),
        decreases n - i,
    {
        let c = chars[i];
        if !(c == '_' || is_ascii_letter(c) || is_ascii_digit(c)) {
            return false;
        }
        i = i + 1;
    }
    true
}

/// Checks a field's name against the identifier rule.
pub fn validate_field_name(field_name: &str) -> (r: Result<(), GenerationError>)
    ensures
        check_model(r) == if is_identifier(field_name@) {
            None
        } else {
            Some(GenerationErrorModel::InvalidFieldName(field_name@))
        },
{
    if valid_identifier(field_name) {
        Ok(())
    } else {
        Err(GenerationError::InvalidFieldName(field_name.to_owned()))
    }
}

/// Checks that the elements of an array under the key `key` all have the
/// type of the first one. An array of no or one element always passes.
pub fn validate_array_element_types(key: &str, values: &Vec<GenericValue>) -> (r: Result<
    (),
    GenerationError,
>)
    ensures
        check_model(r) == if homogeneous(models_of(values@)) {
            None
        } else {
            Some(GenerationErrorModel::HeterogenousArray(key@))
        },
{
    let ghost items = models_of(values@);
    if values.len() > 0 {
        let candidate = type_string(&values[0]);
        let mut i: usize = 0;
        while i < values.len()
            invariant
                i <= values.len(),
                items == models_of(values@),
                candidate@ == type_text(items[0], 0),
                forall|j: int| 0 <= j < i ==> type_text(#[trigger] items[j], 0) == type_text(items[0], 0),
            decreases values.len() - i,
        {
            let current = type_string(&values[i]);
            if current != candidate {
                assert(type_text(items[i as int], 0) != type_text(items[0], 0));
                return Err(GenerationError::HeterogenousArray(key.to_owned()));
            }
            i = i + 1;
        }
    }
    Ok(())
}

/// Checks a value found under the key `key`.
#[verifier::loop_isolation(false)]
pub fn validate_value(key: &str, value: &GenericValue) -> (r: Result<(), GenerationError>)
    requires
        value_is_ordered(value@),
    ensures
        check_model(r) == value_fault(key@, value@),
    decreases value,
{
    proof {
        lemma_value_is_ordered(value@);
    }
    match value {
        GenericValue::Option(Some(present)) => validate_value(key, present),
        GenericValue::Array(values) => {
            let ghost items = value@->Array_0;
            proof {
                lemma_array_model(*values);
            }
            match validate_array_element_types(key, values) {
                Err(error) => {
                    return Err(error);
                },
                Ok(_) => {},
            }
            let mut i: usize = 0;
            assert(items.subrange(0, 0) =~= Seq::<ValueModel>::empty());
            while i < values.len()
                invariant
                    i <= values.len(),
                    items_fault(key@, items.subrange(0, i as int)) is None,
                decreases values.len() - i,
            {
                let ghost next = items.subrange(0, i + 1);
                assert(next.drop_last() =~= items.subrange(0, i as int));
                assert(next.last() == values@[i as int]@);
                match validate_value(key, &values[i]) {
                    Err(error) => {
                        assert(items_fault(key@, next) == Some(error@));
                        proof {
                            lemma_items_fault_prefix(key@, items, i + 1);
                        }
                        return Err(error);
                    },
                    Ok(_) => {},
                }
                i = i + 1;
            }
            assert(items.subrange(0, i as int) =~= items);
            Ok(())
        },
        GenericValue::Struct(struct_value) => {
            assert(value@ == ValueModel::Struct(struct_value@));
            validate_struct(struct_value)
        },
        _ => Ok(()),
    }
}

/// A fault among the first elements is the fault of the whole array.
pub proof fn lemma_items_fault_prefix(key: Seq<char>, items: Seq<ValueModel>, n: int)
    requires
        0 <= n <= items.len(),
        items_fault(key, items.subrange(0, n)) is Some,
    ensures
        items_fault(key, items) == items_fault(key, items.subrange(0, n)),
    decreases items.len() - n,
{
    if n < items.len() {
        let longer = items.subrange(0, n + 1);
        assert(longer.drop_last() =~= items.subrange(0, n));
        lemma_items_fault_prefix(key, items, n + 1);
    } else {
        assert(items.subrange(0, n) =~= items);
    }
}

/// A fault among the first fields is the fault of all the fields.
pub proof fn lemma_fields_fault_prefix(fields: Seq<(Seq<char>, ValueModel)>, n: int)
    requires
        0 <= n <= fields.len(),
        fields_fault(fields.subrange(0, n)) is Some,
    ensures
        fields_fault(fields) == fields_fault(fields.subrange(0, n)),
    decreases fields.len() - n,
{
    if n < fields.len() {
        let longer = fields.subrange(0, n + 1);
        assert(longer.drop_last() =~= fields.subrange(0, n));
        lemma_fields_fault_prefix(fields, n + 1);
    } else {
        assert(fields.subrange(0, n) =~= fields);
    }
}

/// Checks a record and all that is nested in it: every field name against
/// the identifier rule and every array for elements of one type. The
/// first fault found, going through the fields in order, is returned.
#[verifier::loop_isolation(false)]
pub fn validate_struct(struct_value: &GenericStruct) -> (r: Result<(), GenerationError>)
    requires
        record_is_ordered(struct_value@),
    ensures
        check_model(r) == record_fault(struct_value@),
    decreases struct_value,
{
    proof {
        lemma_record_is_ordered(struct_value@);
    }
    let ghost fields = struct_value@.fields;
    assert(fields.subrange(0, 0) =~= Seq::<(Seq<char>, ValueModel)>::empty());
    let mut i: usize = 0;
    while i < struct_value.fields.len()
        invariant
            i <= struct_value.fields.len(),
            fields_fault(fields.subrange(0, i as int)) is None,
        decreases struct_value.fields.len() - i,
    {
        let ghost next = fields.subrange(0, i + 1);
        assert(next.drop_last() =~= fields.subrange(0, i as int));
        assert(next.last() == (
            struct_value.fields@[i as int].0@,
            struct_value.fields@[i as int].1@,
        ));
        match validate_field_name(struct_value.fields[i].0.as_str()) {
            Err(error) => {
                assert(field_fault(next.last()) == Some(error@));
                assert(fields_fault(next) == Some(error@));
                proof {
                    lemma_fields_fault_prefix(fields, i + 1);
                }
                return Err(error);
            },
            Ok(_) => {},
        }
        match validate_value(struct_value.fields[i].0.as_str(), &struct_value.fields[i].1) {
            Err(error) => {
                assert(field_fault(next.last()) == Some(error@));
                assert(fields_fault(next) == Some(error@));
                proof {
                    lemma_fields_fault_prefix(fields, i + 1);
                }
                return Err(error);
            },
            Ok(_) => {},
        }
        assert(field_fault(next.last()) is None);
        i = i + 1;
    }
    assert(fields.subrange(0, i as int) =~= fields);
    Ok(())
}

/// An array of no or one element has elements of one type.
pub proof fn lemma_short_array_is_homogeneous(items: Seq<ValueModel>)
    requires
        items.len() <= 1,
    ensures
        homogeneous(items),
{
}

/// An array of two elements whose type names differ is rejected as
/// heterogeneous, under the key it was found at.
pub proof fn lemma_mixed_pair_is_rejected(key: Seq<char>, items: Seq<ValueModel>)
    requires
        items.len() == 2,
        type_text(items[0], 0) != type_text(items[1], 0),
    ensures
        value_fault(key, ValueModel::Array(items)) == Some(
            GenerationErrorModel::HeterogenousArray(key),
        ),
{
    assert(!homogeneous(items));
}

} // verus!
