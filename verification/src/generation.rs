//! Type names, literals and declarations for a value tree.

use vstd::prelude::*;
use vstd::string::*;
use crate::text::{blanks, contains_char, decimal_text, join, joined, push_decimal, signed_decimal_text, signed_text, spaces, unsigned_text};
use crate::options::{derive_flags, EnumOptions, EnumOptionsModel, SerdeSupport, StructOptions};
use crate::value::{
    lemma_record_is_ordered,
    lemma_value_is_ordered,
    record_is_ordered,
    value_is_ordered,
    GenericStruct,
    GenericValue,
    RecordModel,
    ValueModel,
};

verus! {

/// The indentation of what is nested one level below `indentation`: four
/// blanks more, as far as the machine's largest number allows.
pub open spec fn deeper(indentation: nat) -> nat {
    if indentation + 4 <= usize::MAX {
        indentation + 4
    } else {
        usize::MAX as nat
    }
}

/// Whether an array of `len` elements is declared and written with a fixed
/// size: it is not empty and no longer than the limit.
pub open spec fn fixed_size(len: nat, max_array_size: nat) -> bool {
    0 < len <= max_array_size
}

/// The type name of a value.
///
/// An absent option and an empty array have the unit type as their element
/// type; an array's element type is that of its first element.
pub open spec fn type_text(v: ValueModel, max_array_size: nat) -> Seq<char>
    decreases v,
{
    match v {
        ValueModel::Unit => "()"@,
        ValueModel::Bool(_) => "bool"@,
        ValueModel::Char(_) => "char"@,
        ValueModel::I8(_) => "i8"@,
        ValueModel::I16(_) => "i16"@,
        ValueModel::I32(_) => "i32"@,
        ValueModel::I64(_) => "i64"@,
        ValueModel::U8(_) => "u8"@,
        ValueModel::U16(_) => "u16"@,
        ValueModel::U32(_) => "u32"@,
        ValueModel::U64(_) => "u64"@,
        ValueModel::ISize(_) => "isize"@,
        ValueModel::Usize(_) => "usize"@,
        ValueModel::F32(_) => "f32"@,
        ValueModel::F64(_) => "f64"@,
        ValueModel::String(_) => "Cow<'static, str>"@,
        ValueModel::Option(inner) => "Option<"@ + (match inner {
            Some(present) => type_text(*present, max_array_size),
            None => "()"@,
        }) + ">"@,
        ValueModel::Array(items) => {
            let element = if items.len() > 0 {
                type_text(items[0], max_array_size)
            } else {
                "()"@
            };
            if fixed_size(items.len(), max_array_size) {
                "["@ + element + "; "@ + decimal_text(items.len()) + "]"@
            } else {
                "Cow<'static, ["@ + element + "]>"@
            }
        },
        ValueModel::Struct(record) => record.name,
    }
}

/// The text of a float as a literal: the decimal text, with `.0` behind it
/// where it holds no point.
pub open spec fn float_text(decimal: Seq<char>) -> Seq<char> {
    if decimal.contains('.') {
        decimal
    } else {
        decimal + ".0"@
    }
}

/// The literal of a value, written at the given indentation.
pub open spec fn value_text(v: ValueModel, indentation: nat, max_array_size: nat) -> Seq<char>
    decreases v,
{
    match v {
        ValueModel::Unit => "()"@,
        ValueModel::Bool(b) => if b {
            "true"@
        } else {
            "false"@
        },
        ValueModel::Char(c) => seq!['\'', c, '\''],
        ValueModel::I8(x) => signed_decimal_text(x as int),
        ValueModel::I16(x) => signed_decimal_text(x as int),
        ValueModel::I32(x) => signed_decimal_text(x as int),
        ValueModel::I64(x) => signed_decimal_text(x as int),
        ValueModel::U8(x) => decimal_text(x as nat),
        ValueModel::U16(x) => decimal_text(x as nat),
        ValueModel::U32(x) => decimal_text(x as nat),
        ValueModel::U64(x) => decimal_text(x as nat),
        ValueModel::ISize(x) => signed_decimal_text(x as int),
        ValueModel::Usize(x) => decimal_text(x as nat),
        ValueModel::F32(t) => float_text(t),
        ValueModel::F64(t) => float_text(t),
        ValueModel::String(s) => "Cow::Borrowed(\""@ + s + "\")"@,
        ValueModel::Option(inner) => match inner {
            Some(present) => "Some("@ + value_text(*present, indentation, max_array_size) + ")"@,
            None => "None"@,
        },
        ValueModel::Array(items) => {
            let elements = element_texts(items, deeper(indentation), max_array_size);
            if fixed_size(items.len(), max_array_size) {
                "["@ + joined(elements, ", "@) + "]"@
            } else {
                "Cow::Borrowed(&["@ + joined(elements, ", "@) + "])"@
            }
        },
        ValueModel::Struct(record) => record_text(record, indentation, max_array_size),
    }
}

/// The literals of an array's elements, in order.
pub open spec fn element_texts(items: Seq<ValueModel>, indentation: nat, max_array_size: nat) -> Seq<
    Seq<char>,
>
    decreases items,
{
    Seq::new(
        items.len(),
        |i: int|
            if 0 <= i < items.len() {
                value_text(items[i], indentation, max_array_size)
            } else {
                Seq::empty()
            },
    )
}

/// The lines of a record's fields, in order: each is the indentation, the
/// field's name, a colon, the field's literal and a comma.
pub open spec fn field_lines(
    fields: Seq<(Seq<char>, ValueModel)>,
    indentation: nat,
    max_array_size: nat,
) -> Seq<Seq<char>>
    decreases fields,
{
    Seq::new(
        fields.len(),
        |i: int|
            if 0 <= i < fields.len() {
                blanks(indentation) + fields[i].0 + ": "@ + value_text(
                    fields[i].1,
                    indentation,
                    max_array_size,
                ) + ",\n"@
            } else {
                Seq::empty()
            },
    )
}

/// The literal of a record: its name, then one line for each field in stored
/// order, four blanks deeper than the record itself, and the closing brace
/// at the record's own indentation.
pub open spec fn record_text(r: RecordModel, indentation: nat, max_array_size: nat) -> Seq<char>
    decreases r,
{
    let lines = field_lines(r.fields, deeper(indentation), max_array_size);
    r.name + " {\n"@ + joined(lines, Seq::empty()) + blanks(indentation) + "}"@
}

fn indent_deeper(indentation: usize) -> (r: usize)
    ensures
        r == deeper(indentation as nat),
{
    if indentation <= usize::MAX - 4 {
        indentation + 4
    } else {
        usize::MAX
    }
}

/// The type name of a value where every array is dynamically sized.
pub fn type_string(value: &GenericValue) -> (r: String)
    ensures
        r@ == type_text(value@, 0),
{
    type_string_with_options(value, 0)
}

/// The type name of a value; arrays up to `max_array_size` elements have a
/// fixed size.
pub fn type_string_with_options(value: &GenericValue, max_array_size: usize) -> (r: String)
    ensures
        r@ == type_text(value@, max_array_size as nat),
    decreases value,
{
    match value {
        GenericValue::Unit => "()".to_owned(),
        GenericValue::Bool(_) => "bool".to_owned(),
        GenericValue::Char(_) => "char".to_owned(),
        GenericValue::I8(_) => "i8".to_owned(),
        GenericValue::I16(_) => "i16".to_owned(),
        GenericValue::I32(_) => "i32".to_owned(),
        GenericValue::I64(_) => "i64".to_owned(),
        GenericValue::U8(_) => "u8".to_owned(),
        GenericValue::U16(_) => "u16".to_owned(),
        GenericValue::U32(_) => "u32".to_owned(),
        GenericValue::U64(_) => "u64".to_owned(),
        GenericValue::ISize(_) => "isize".to_owned(),
        GenericValue::Usize(_) => "usize".to_owned(),
        GenericValue::F32(_) => "f32".to_owned(),
        GenericValue::F64(_) => "f64".to_owned(),
        GenericValue::String(_) => "Cow<'static, str>".to_owned(),
        GenericValue::Option(inner) => {
            let element_type = match inner {
                Some(present) => type_string_with_options(present, max_array_size),
                None => "()".to_owned(),
            };
            let mut out = "Option<".to_owned();
            out.append(element_type.as_str());
            out.append(">");
            out
        },
        GenericValue::Array(values) => {
            let element_type = if values.len() > 0 {
                type_string_with_options(&values[0], max_array_size)
            } else {
                "()".to_owned()
            };
            if values.len() > 0 && values.len() <= max_array_size {
                let mut out = "[".to_owned();
                out.append(element_type.as_str());
                out.append("; ");
                push_decimal(&mut out, values.len() as u64);
                out.append("]");
                out
            } else {
                let mut out = "Cow<'static, [".to_owned();
                out.append(element_type.as_str());
                out.append("]>");
                out
            }
        },
        GenericValue::Struct(struct_value) => {
            assert(struct_value@.name == struct_value.struct_name@);
            struct_value.struct_name.clone()
        },
    }
}

/// The literal of a float given by its decimal text: a float is always
/// written with a point.
pub fn float_string(float: &str) -> (r: String)
    ensures
        r@ == float_text(float@),
        r@.contains('.'),
{
    let mut result = float.to_owned();
    if !contains_char(float, '.') {
        proof {
            reveal_strlit(".0");
        }
        result.append(".0");
        assert(result@[float@.len() as int] == '.');
    }
    result
}

/// The literal of a value, written at the given indentation.
#[verifier::loop_isolation(false)]
pub fn value_string(value: &GenericValue, indentation: usize, max_array_size: usize) -> (r: String)
    requires
        value_is_ordered(value@),
    ensures
        r@ == value_text(value@, indentation as nat, max_array_size as nat),
    decreases value,
{
    proof {
        lemma_value_is_ordered(value@);
    }
    match value {
        GenericValue::Unit => "()".to_owned(),
        GenericValue::Bool(b) => if *b {
            "true".to_owned()
        } else {
            "false".to_owned()
        },
        GenericValue::Char(c) => {
            let mut out = String::new();
            out.push('\'');
            out.push(*c);
            out.push('\'');
            assert(out@ =~= seq!['\'', *c, '\'']);
            out
        },
        GenericValue::I8(x) => signed_text(*x as i64),
        GenericValue::I16(x) => signed_text(*x as i64),
        GenericValue::I32(x) => signed_text(*x as i64),
        GenericValue::I64(x) => signed_text(*x),
        GenericValue::U8(x) => unsigned_text(*x as u64),
        GenericValue::U16(x) => unsigned_text(*x as u64),
        GenericValue::U32(x) => unsigned_text(*x as u64),
        GenericValue::U64(x) => unsigned_text(*x),
        GenericValue::ISize(x) => signed_text(*x as i64),
        GenericValue::Usize(x) => unsigned_text(*x as u64),
        GenericValue::F32(t) => float_string(t.as_str()),
        GenericValue::F64(t) => float_string(t.as_str()),
        GenericValue::String(s) => {
            let mut out = "Cow::Borrowed(\"".to_owned();
            out.append(s.as_str());
            out.append("\")");
            out
        },
        GenericValue::Option(inner) => match inner {
            Some(present) => {
                let mut out = "Some(".to_owned();
                out.append(value_string(present, indentation, max_array_size).as_str());
                out.append(")");
                assert(out@ == value_text(value@, indentation as nat, max_array_size as nat));
                out
            },
            None => "None".to_owned(),
        },
        GenericValue::Array(values) => {
            let ghost elements = element_texts(
                value@->Array_0,
                deeper(indentation as nat),
                max_array_size as nat,
            );
            let inner = indent_deeper(indentation);
            let mut value_strings: Vec<String> = Vec::new();
            let mut i: usize = 0;
            while i < values.len()
                invariant
                    i <= values.len(),
                    value_strings@.len() == i,
                    forall|j: int| 0 <= j < i ==> (#[trigger] value_strings@[j])@ == elements[j],
                decreases values.len() - i,
            {
                assert(value_is_ordered(value@->Array_0[i as int]));
                let element = value_string(&values[i], inner, max_array_size);
                value_strings.push(element);
                i = i + 1;
            }
            assert(value_strings.deep_view() =~= elements);
            let body = join(&value_strings, ", ");
            assert(body@ == joined(elements, ", "@));
            if values.len() > 0 && values.len() <= max_array_size {
                let mut out = "[".to_owned();
                out.append(body.as_str());
                out.append("]");
                assert(out@ == value_text(value@, indentation as nat, max_array_size as nat));
                out
            } else {
                let mut out = "Cow::Borrowed(&[".to_owned();
                out.append(body.as_str());
                out.append("])");
                assert(out@ == value_text(value@, indentation as nat, max_array_size as nat));
                out
            }
        },
        GenericValue::Struct(struct_value) => {
            let r = struct_value_string(struct_value, indentation, max_array_size);
            assert(r@ == value_text(value@, indentation as nat, max_array_size as nat));
            r
        },
    }
}

/// The literal of a record, written at the given indentation.
#[verifier::loop_isolation(false)]
pub fn struct_value_string(
    value: &GenericStruct,
    indentation: usize,
    max_array_size: usize,
) -> (r: String)
    requires
        record_is_ordered(value@),
    ensures
        r@ == record_text(value@, indentation as nat, max_array_size as nat),
    decreases value,
{
    proof {
        lemma_record_is_ordered(value@);
    }
    let ghost lines = field_lines(value@.fields, deeper(indentation as nat), max_array_size as nat);
    let inner = indent_deeper(indentation);
    let mut values: Vec<String> = Vec::new();
    let mut i: usize = 0;
    while i < value.fields.len()
        invariant
            i <= value.fields.len(),
            values@.len() == i,
            forall|j: int| 0 <= j < i ==> (#[trigger] values@[j])@ == lines[j],
        decreases value.fields.len() - i,
    {
        assert(value_is_ordered(value@.fields[i as int].1));
        let mut line = spaces(inner);
        line.append(value.fields[i].0.as_str());
        line.append(": ");
        line.append(value_string(&value.fields[i].1, inner, max_array_size).as_str());
        line.append(",\n");
        values.push(line);
        i = i + 1;
    }
    assert(values.deep_view() =~= lines);
    proof {
        reveal_strlit("");
        assert(""@ =~= Seq::<char>::empty());
    }
    let mut out = value.struct_name.clone();
    out.append(" {\n");
    out.append(join(&values, "").as_str());
    out.append(spaces(indentation).as_str());
    out.append("}");
    out
}

/// The path under which the serde traits are named.
pub open spec fn serde_prefix(use_serde_derive_crate: bool) -> Seq<char> {
    if use_serde_derive_crate {
        "serde_derive::"@
    } else {
        "serde::"@
    }
}

/// The traits to derive: those asked for by name, then `Serialize` and
/// `Deserialize` as far as serde support asks for them.
pub open spec fn all_derives(
    derived_traits: Seq<Seq<char>>,
    serde_support: SerdeSupport,
    use_serde_derive_crate: bool,
) -> Seq<Seq<char>> {
    let prefix = serde_prefix(use_serde_derive_crate);
    match derive_flags(serde_support) {
        Some((serialize, deserialize)) => {
            let with_serialize = if serialize {
                derived_traits.push(prefix + "Serialize"@)
            } else {
                derived_traits
            };
            if deserialize {
                with_serialize.push(prefix + "Deserialize"@)
            } else {
                with_serialize
            }
        },
        None => derived_traits,
    }
}

/// The attribute line that derives the traits; empty where there are none.
pub open spec fn derive_text(derives: Seq<Seq<char>>) -> Seq<char> {
    if derives.len() == 0 {
        Seq::empty()
    } else {
        "#[derive("@ + joined(derives, ", "@) + ")]\n"@
    }
}

/// The declarations of a record's fields, in order: each is public and
/// gives the field's name and the type name of its value.
pub open spec fn field_declarations(
    fields: Seq<(Seq<char>, ValueModel)>,
    max_array_size: nat,
) -> Seq<Seq<char>> {
    Seq::new(
        fields.len(),
        |i: int| "    pub "@ + fields[i].0 + ": "@ + type_text(fields[i].1, max_array_size) + ","@,
    )
}

/// The declaration of one record: the derive line, the attribute that
/// allows its name, and the struct with its fields.
pub open spec fn declaration_text(r: RecordModel, derive_line: Seq<char>, max_array_size: nat) -> Seq<
    char,
> {
    derive_line + "#[allow(non_camel_case_types)]\npub struct "@ + r.name + " {\n"@ + joined(
        field_declarations(r.fields, max_array_size),
        "\n"@,
    ) + "\n}\n\n"@
}

/// The declarations of a record and of the records nested in it: the
/// record's own declaration first, then those of its fields in order.
pub open spec fn declarations_text(r: RecordModel, derive_line: Seq<char>, max_array_size: nat) -> Seq<
    char,
>
    decreases r,
{
    declaration_text(r, derive_line, max_array_size) + nested_declarations(
        r.fields,
        derive_line,
        max_array_size,
    )
}

/// The declarations that the fields of a record call for, in order.
pub open spec fn nested_declarations(
    fields: Seq<(Seq<char>, ValueModel)>,
    derive_line: Seq<char>,
    max_array_size: nat,
) -> Seq<char>
    decreases fields,
{
    if fields.len() == 0 {
        Seq::empty()
    } else {
        nested_declarations(fields.drop_last(), derive_line, max_array_size) + value_declarations(
            fields.last().1,
            derive_line,
            max_array_size,
        )
    }
}

/// The declarations that one field's value calls for: those of a nested
/// record, or of the record that is the first element of an array. Of an
/// array only the first element is looked at.
pub open spec fn value_declarations(v: ValueModel, derive_line: Seq<char>, max_array_size: nat) -> Seq<
    char,
>
    decreases v,
{
    match v {
        ValueModel::Struct(record) => declarations_text(record, derive_line, max_array_size),
        ValueModel::Array(items) => if items.len() > 0 {
            match items[0] {
                ValueModel::Struct(record) => declarations_text(record, derive_line, max_array_size),
                _ => Seq::empty(),
            }
        } else {
            Seq::empty()
        },
        _ => Seq::empty(),
    }
}

/// The traits to derive, as texts.
pub fn derive_names(
    derived_traits: &Vec<String>,
    serde_support: SerdeSupport,
    use_serde_derive_crate: bool,
) -> (r: Vec<String>)
    ensures
        r.deep_view() == all_derives(
            derived_traits.deep_view(),
            serde_support,
            use_serde_derive_crate,
        ),
{
    let mut names: Vec<String> = Vec::new();
    let mut i: usize = 0;
    while i < derived_traits.len()
        invariant
            i <= derived_traits.len(),
            names@.len() == i,
            forall|j: int| 0 <= j < i ==> (#[trigger] names@[j])@ == derived_traits@[j]@,
        decreases derived_traits.len() - i,
    {
        names.push(derived_traits[i].clone());
        i = i + 1;
    }
    assert(names.deep_view() =~= derived_traits.deep_view());
    match serde_support.should_derive_ser_de() {
        Some((serialize, deserialize)) => {
            let prefix = if use_serde_derive_crate {
                "serde_derive::"
            } else {
                "serde::"
            };
            if serialize {
                let ghost before = names.deep_view();
                let mut name = prefix.to_owned();
                name.append("Serialize");
                names.push(name);
                assert(names.deep_view() =~= before.push(prefix@ + "Serialize"@));
            }
            if deserialize {
                let ghost before = names.deep_view();
                let mut name = prefix.to_owned();
                name.append("Deserialize");
                names.push(name);
                assert(names.deep_view() =~= before.push(prefix@ + "Deserialize"@));
            }
        },
        None => {},
    }
    names
}

/// The attribute line that derives the given traits.
pub fn derive_string(derives: &Vec<String>) -> (r: String)
    ensures
        r@ == derive_text(derives.deep_view()),
{
    if derives.len() == 0 {
        String::new()
    } else {
        let mut out = "#[derive(".to_owned();
        out.append(join(derives, ", ").as_str());
        out.append(")]\n");
        out
    }
}

/// Appends the declarations of a record and of the records nested in it.
#[verifier::loop_isolation(false)]
pub fn generate_struct_declarations(
    output: &mut String,
    struct_value: &GenericStruct,
    options: &StructOptions,
)
    requires
        record_is_ordered(struct_value@),
    ensures
        final(output)@ == old(output)@ + declarations_text(
            struct_value@,
            derive_text(
                all_derives(
                    options@.derived_traits,
                    options@.serde_support,
                    options@.use_serde_derive_crate,
                ),
            ),
            options@.max_array_size,
        ),
    decreases struct_value,
{
    proof {
        lemma_record_is_ordered(struct_value@);
    }
    let ghost record = struct_value@;
    let ghost max = options@.max_array_size;
    let ghost declarations = field_declarations(record.fields, max);
    let mut field_strings: Vec<String> = Vec::new();
    let mut i: usize = 0;
    while i < struct_value.fields.len()
        invariant
            i <= struct_value.fields.len(),
            field_strings@.len() == i,
            forall|j: int| 0 <= j < i ==> (#[trigger] field_strings@[j])@ == declarations[j],
        decreases struct_value.fields.len() - i,
    {
        let mut line = "    pub ".to_owned();
        line.append(struct_value.fields[i].0.as_str());
        line.append(": ");
        line.append(
            type_string_with_options(&struct_value.fields[i].1, options.max_array_size).as_str(),
        );
        line.append(",");
        field_strings.push(line);
        i = i + 1;
    }
    assert(field_strings.deep_view() =~= declarations);

    let derives = derive_names(
        &options.derived_traits,
        options.serde_support,
        options.use_serde_derive_crate,
    );
    let derive_line = derive_string(&derives);

    let mut declaration = derive_line.clone();
    declaration.append("#[allow(non_camel_case_types)]\npub struct ");
    declaration.append(struct_value.struct_name.as_str());
    declaration.append(" {\n");
    declaration.append(join(&field_strings, "\n").as_str());
    declaration.append("\n}\n\n");
    assert(declaration@ == declaration_text(record, derive_line@, max));
    output.append(declaration.as_str());

    let ghost start = old(output)@ + declaration_text(record, derive_line@, max);
    assert(record.fields.subrange(0, 0) =~= Seq::<(Seq<char>, ValueModel)>::empty());
    assert(output@ =~= start + nested_declarations(record.fields.subrange(0, 0), derive_line@, max));
    let mut k: usize = 0;
    while k < struct_value.fields.len()
        invariant
            k <= struct_value.fields.len(),
            output@ == start + nested_declarations(
                record.fields.subrange(0, k as int),
                derive_line@,
                max,
            ),
        decreases struct_value.fields.len() - k,
    {
        let ghost before = output@;
        let ghost next = record.fields.subrange(0, k + 1);
        assert(next.drop_last() =~= record.fields.subrange(0, k as int));
        assert(next.last().1 == struct_value.fields@[k as int].1@);
        proof {
            assert(value_is_ordered(record.fields[k as int].1));
            lemma_value_is_ordered(record.fields[k as int].1);
        }
        match &struct_value.fields[k].1 {
            GenericValue::Struct(nested) => {
                assert(struct_value.fields@[k as int].1@ == ValueModel::Struct(nested@));
                proof {
                    lemma_record_is_ordered(nested@);
                }
                generate_struct_declarations(output, nested, options);
            },
            GenericValue::Array(values) => {
                if values.len() > 0 {
                    match &values[0] {
                        GenericValue::Struct(nested) => {
                            assert(values@[0]@ == ValueModel::Struct(nested@));
                            proof {
                                let items = record.fields[k as int].1->Array_0;
                                assert(items[0] == values@[0]@);
                                assert(value_is_ordered(items[0]));
                                lemma_value_is_ordered(items[0]);
                                lemma_record_is_ordered(nested@);
                            }
                            generate_struct_declarations(output, nested, options);
                        },
                        _ => {},
                    }
                }
            },
            _ => {},
        }
        assert(output@ =~= before + value_declarations(next.last().1, derive_line@, max));
        assert(output@ =~= start + nested_declarations(next, derive_line@, max));
        k = k + 1;
    }
    assert(record.fields.subrange(0, k as int) =~= record.fields);
    assert(output@ =~= old(output)@ + declarations_text(record, derive_line@, max));
}

/// The declarations of a record and of the records nested in it.
pub fn generate_structs(struct_value: &GenericStruct, options: &StructOptions) -> (r: String)
    requires
        record_is_ordered(struct_value@),
    ensures
        r@ == declarations_text(
            struct_value@,
            derive_text(
                all_derives(
                    options@.derived_traits,
                    options@.serde_support,
                    options@.use_serde_derive_crate,
                ),
            ),
            options@.max_array_size,
        ),
{
    let mut buffer = String::new();
    generate_struct_declarations(&mut buffer, struct_value, options);
    assert(buffer@ =~= declarations_text(
        struct_value@,
        derive_text(
            all_derives(
                options@.derived_traits,
                options@.serde_support,
                options@.use_serde_derive_crate,
            ),
        ),
        options@.max_array_size,
    ));
    buffer
}

/// The lines of an enum's variants, in order.
pub open spec fn variant_lines(variants: Seq<Seq<char>>) -> Seq<Seq<char>> {
    Seq::new(variants.len(), |i: int| "    "@ + variants[i] + ",\n"@)
}

/// The variants as paths below the enum's name, in order.
pub open spec fn variant_paths(enum_name: Seq<char>, variants: Seq<Seq<char>>) -> Seq<Seq<char>> {
    Seq::new(variants.len(), |i: int| enum_name + "::"@ + variants[i])
}

/// The variants' names as string literals, in order.
pub open spec fn variant_literals(variants: Seq<Seq<char>>) -> Seq<Seq<char>> {
    Seq::new(variants.len(), |i: int| "\""@ + variants[i] + "\""@)
}

/// The declaration of the enum itself: one variant for each key, in the
/// order of the keys.
pub open spec fn enum_declaration_text(enum_name: Seq<char>, variants: Seq<Seq<char>>) -> Seq<char> {
    "pub enum "@ + enum_name + " {\n"@ + joined(variant_lines(variants), Seq::empty()) + "}\n"@
}

/// The constant that lists all variants in declared order.
pub open spec fn all_variants_text(
    enum_name: Seq<char>,
    const_name: Seq<char>,
    variants: Seq<Seq<char>>,
) -> Seq<char> {
    "\nimpl "@ + enum_name + " {\n    pub const "@ + const_name + ": &'static ["@ + enum_name
        + "] = &["@ + joined(variant_paths(enum_name, variants), ", "@) + "];\n}\n"@
}

/// The `Default` that gives the first variant.
pub open spec fn default_impl_text(enum_name: Seq<char>, first_variant: Seq<char>) -> Seq<char> {
    "\nimpl Default for "@ + enum_name + " {\n    fn default() -> Self {\n        Self::"@
        + first_variant + "\n    }\n}\n"@
}

/// The `Display` that writes the variant's name.
pub open spec fn display_impl_text(enum_name: Seq<char>) -> Seq<char> {
    "\nimpl std::fmt::Display for "@ + enum_name
        + " {\n    fn fmt(&self, f: &mut std::fmt::Formatter) -> std::fmt::Result {\n        write!(f, \"{:?}\", self)\n    }\n}\n"@
}

/// The `FromStr` that looks the text up among the keys, in order, and
/// gives the variant at the place where it is found.
pub open spec fn from_str_impl_text(
    enum_name: Seq<char>,
    const_name: Seq<char>,
    variants: Seq<Seq<char>>,
) -> Seq<char> {
    "\nimpl std::str::FromStr for "@ + enum_name
        + " {\n    type Err = ();\n\n    fn from_str(s: &str) -> Result<Self, Self::Err> {\n        const STRINGS: &'static [&'static str] = &["@
        + joined(variant_literals(variants), ", "@)
        + "];\n\n        for (index, &key) in STRINGS.iter().enumerate() {\n            if key == s {\n                return Ok("@
        + enum_name + "::"@ + const_name
        + "[index]);\n            }\n        }\n\n        Err(())\n    }\n}\n"@
}

/// The part of the code that the constant of all variants makes up.
pub open spec fn enum_const_part(variants: Seq<Seq<char>>, options: EnumOptionsModel) -> Seq<char> {
    match options.all_variants_const {
        Some(const_name) => all_variants_text(options.enum_name, const_name, variants),
        None => Seq::empty(),
    }
}

/// The part that `Default` makes up: present where it is asked for and
/// there is a first variant.
pub open spec fn enum_default_part(variants: Seq<Seq<char>>, options: EnumOptionsModel) -> Seq<char> {
    if variants.len() > 0 && options.first_variant_is_default {
        default_impl_text(options.enum_name, variants[0])
    } else {
        Seq::empty()
    }
}

/// The part that `Display` makes up.
pub open spec fn enum_display_part(options: EnumOptionsModel) -> Seq<char> {
    if options.impl_display {
        display_impl_text(options.enum_name)
    } else {
        Seq::empty()
    }
}

/// The part that `FromStr` makes up: present where it is asked for and the
/// constant of all variants exists.
pub open spec fn enum_from_str_part(variants: Seq<Seq<char>>, options: EnumOptionsModel) -> Seq<char> {
    match options.all_variants_const {
        Some(const_name) => if options.impl_from_str {
            from_str_impl_text(options.enum_name, const_name, variants)
        } else {
            Seq::empty()
        },
        None => Seq::empty(),
    }
}

/// The code of an enum with one variant for each key: two attributes for
/// the file, the derive line, the enum, and the parts that the options ask
/// for, in this order: the constant of all variants, `Default`, `Display`,
/// `FromStr`.
pub open spec fn enum_text(variants: Seq<Seq<char>>, options: EnumOptionsModel) -> Seq<char> {
    "#![cfg_attr(rustfmt, rustfmt_skip)]\n#![allow(dead_code)]\n\n"@ + derive_text(
        all_derives(options.derived_traits, options.serde_support, options.use_serde_derive_crate),
    ) + enum_declaration_text(options.enum_name, variants) + enum_const_part(variants, options)
        + enum_default_part(variants, options) + enum_display_part(options) + enum_from_str_part(
        variants,
        options,
    )
}

fn enum_declaration(enum_name: &str, variants: &Vec<String>) -> (r: String)
    ensures
        r@ == enum_declaration_text(enum_name@, variants.deep_view()),
{
    let ghost lines = variant_lines(variants.deep_view());
    let mut parts: Vec<String> = Vec::new();
    let mut i: usize = 0;
    while i < variants.len()
        invariant
            i <= variants.len(),
            parts@.len() == i,
            lines == variant_lines(variants.deep_view()),
            forall|j: int| 0 <= j < i ==> (#[trigger] parts@[j])@ == lines[j],
        decreases variants.len() - i,
    {
        let mut line = "    ".to_owned();
        line.append(variants[i].as_str());
        line.append(",\n");
        parts.push(line);
        i = i + 1;
    }
    assert(parts.deep_view() =~= lines);
    proof {
        reveal_strlit("");
        assert(""@ =~= Seq::<char>::empty());
    }
    let mut out = "pub enum ".to_owned();
    out.append(enum_name);
    out.append(" {\n");
    out.append(join(&parts, "").as_str());
    out.append("}\n");
    out
}

fn all_variants_const(enum_name: &str, const_name: &str, variants: &Vec<String>) -> (r: String)
    ensures
        r@ == all_variants_text(enum_name@, const_name@, variants.deep_view()),
{
    let ghost paths = variant_paths(enum_name@, variants.deep_view());
    let mut parts: Vec<String> = Vec::new();
    let mut i: usize = 0;
    while i < variants.len()
        invariant
            i <= variants.len(),
            parts@.len() == i,
            paths == variant_paths(enum_name@, variants.deep_view()),
            forall|j: int| 0 <= j < i ==> (#[trigger] parts@[j])@ == paths[j],
        decreases variants.len() - i,
    {
        let mut path = enum_name.to_owned();
        path.append("::");
        path.append(variants[i].as_str());
        parts.push(path);
        i = i + 1;
    }
    assert(parts.deep_view() =~= paths);
    let mut out = "\nimpl ".to_owned();
    out.append(enum_name);
    out.append(" {\n    pub const ");
    out.append(const_name);
    out.append(": &'static [");
    out.append(enum_name);
    out.append("] = &[");
    out.append(join(&parts, ", ").as_str());
    out.append("];\n}\n");
    out
}

fn default_impl(enum_name: &str, first_variant: &str) -> (r: String)
    ensures
        r@ == default_impl_text(enum_name@, first_variant@),
{
    let mut out = "\nimpl Default for ".to_owned();
    out.append(enum_name);
    out.append(" {\n    fn default() -> Self {\n        Self::");
    out.append(first_variant);
    out.append("\n    }\n}\n");
    out
}

fn display_impl(enum_name: &str) -> (r: String)
    ensures
        r@ == display_impl_text(enum_name@),
{
    let mut out = "\nimpl std::fmt::Display for ".to_owned();
    out.append(enum_name);
    out.append(
        " {\n    fn fmt(&self, f: &mut std::fmt::Formatter) -> std::fmt::Result {\n        write!(f, \"{:?}\", self)\n    }\n}\n",
    );
    out
}

fn from_str_impl(enum_name: &str, const_name: &str, variants: &Vec<String>) -> (r: String)
    ensures
        r@ == from_str_impl_text(enum_name@, const_name@, variants.deep_view()),
{
    let ghost literals = variant_literals(variants.deep_view());
    let mut parts: Vec<String> = Vec::new();
    let mut i: usize = 0;
    while i < variants.len()
        invariant
            i <= variants.len(),
            parts@.len() == i,
            literals == variant_literals(variants.deep_view()),
            forall|j: int| 0 <= j < i ==> (#[trigger] parts@[j])@ == literals[j],
        decreases variants.len() - i,
    {
        let mut literal = "\"".to_owned();
        literal.append(variants[i].as_str());
        literal.append("\"");
        parts.push(literal);
        i = i + 1;
    }
    assert(parts.deep_view() =~= literals);
    let mut out = "\nimpl std::str::FromStr for ".to_owned();
    out.append(enum_name);
    out.append(
        " {\n    type Err = ();\n\n    fn from_str(s: &str) -> Result<Self, Self::Err> {\n        const STRINGS: &'static [&'static str] = &[",
    );
    out.append(join(&parts, ", ").as_str());
    out.append(
        "];\n\n        for (index, &key) in STRINGS.iter().enumerate() {\n            if key == s {\n                return Ok(",
    );
    out.append(enum_name);
    out.append("::");
    out.append(const_name);
    out.append("[index]);\n            }\n        }\n\n        Err(())\n    }\n}\n");
    out
}

/// The code of an enum with one variant for each of the given keys, in
/// their order, and with the parts that the options ask for.
pub fn generate_enum(variants: &Vec<String>, options: &EnumOptions) -> (r: String)
    ensures
        r@ == enum_text(variants.deep_view(), options@),
{
    let ghost keys = variants.deep_view();
    let enum_name = options.enum_name.as_str();
    let derives = derive_names(
        &options.derived_traits,
        options.serde_support,
        options.use_serde_derive_crate,
    );
    let mut tokens = "#![cfg_attr(rustfmt, rustfmt_skip)]\n#![allow(dead_code)]\n\n".to_owned();
    tokens.append(derive_string(&derives).as_str());
    tokens.append(enum_declaration(enum_name, variants).as_str());

    match &options.all_variants_const {
        Some(const_name) => {
            tokens.append(all_variants_const(enum_name, const_name.as_str(), variants).as_str());
        },
        None => {
            assert(tokens@ + Seq::<char>::empty() =~= tokens@);
        },
    }
    assert(tokens@ == "#![cfg_attr(rustfmt, rustfmt_skip)]\n#![allow(dead_code)]\n\n"@ + derive_text(
        all_derives(
            options@.derived_traits,
            options@.serde_support,
            options@.use_serde_derive_crate,
        ),
    ) + enum_declaration_text(options@.enum_name, keys) + enum_const_part(keys, options@));

    let ghost with_const = tokens@;
    if variants.len() > 0 && options.first_variant_is_default {
        tokens.append(default_impl(enum_name, variants[0].as_str()).as_str());
    }
    assert(tokens@ =~= with_const + enum_default_part(keys, options@));

    let ghost with_default = tokens@;
    if options.impl_display {
        tokens.append(display_impl(enum_name).as_str());
    }
    assert(tokens@ =~= with_default + enum_display_part(options@));

    let ghost with_display = tokens@;
    if options.impl_from_str {
        match &options.all_variants_const {
            Some(const_name) => {
                tokens.append(from_str_impl(enum_name, const_name.as_str(), variants).as_str());
            },
            None => {},
        }
    }
    assert(tokens@ =~= with_display + enum_from_str_part(keys, options@));
    tokens
}

/// With a limit of zero every non-empty array is declared as a slice of
/// its first element's type, whatever its length.
pub proof fn lemma_unlimited_array_is_a_slice(items: Seq<ValueModel>)
    requires
        items.len() > 0,
    ensures
        type_text(ValueModel::Array(items), 0) == "Cow<'static, ["@ + type_text(items[0], 0)
            + "]>"@,
{
}

/// A non-empty array that is no longer than a positive limit is declared
/// with a fixed size: its first element's type and its exact length.
pub proof fn lemma_short_array_has_fixed_size(items: Seq<ValueModel>, max_array_size: nat)
    requires
        items.len() > 0,
        max_array_size > 0,
        items.len() <= max_array_size,
    ensures
        type_text(ValueModel::Array(items), max_array_size) == "["@ + type_text(
            items[0],
            max_array_size,
        ) + "; "@ + decimal_text(items.len()) + "]"@,
{
}

/// The type and the literal of an array take the same form: both have a
/// fixed size or neither has.
pub proof fn lemma_array_literal_matches_its_type(
    items: Seq<ValueModel>,
    indentation: nat,
    max_array_size: nat,
)
    ensures
        fixed_size(items.len(), max_array_size) ==> type_text(
            ValueModel::Array(items),
            max_array_size,
        ).first() == '[' && value_text(ValueModel::Array(items), indentation, max_array_size).first()
            == '[',
        !fixed_size(items.len(), max_array_size) ==> type_text(
            ValueModel::Array(items),
            max_array_size,
        ).first() == 'C' && value_text(ValueModel::Array(items), indentation, max_array_size).first()
            == 'C',
{
    reveal_strlit("[");
    reveal_strlit("Cow<'static, [");
    reveal_strlit("Cow::Borrowed(&[");
}

/// The literal of an empty array is the empty slice, whatever the limit
/// and the indentation.
pub proof fn lemma_empty_array_literal(indentation: nat, max_array_size: nat)
    ensures
        value_text(ValueModel::Array(Seq::empty()), indentation, max_array_size)
            == "Cow::Borrowed(&[])"@,
{
    reveal_strlit("Cow::Borrowed(&[");
    reveal_strlit("])");
    reveal_strlit("Cow::Borrowed(&[])");
    let elements = element_texts(Seq::empty(), deeper(indentation), max_array_size);
    assert(elements.len() == 0);
    assert(joined(elements, ", "@) =~= Seq::<char>::empty());
    assert("Cow::Borrowed(&["@ + joined(elements, ", "@) + "])"@ =~= "Cow::Borrowed(&[])"@);
}

/// The literal of a float holds a point, whatever its decimal text.
pub proof fn lemma_float_literal_holds_a_point(decimal: Seq<char>, indentation: nat, max_array_size: nat)
    ensures
        float_text(decimal).contains('.'),
        value_text(ValueModel::F32(decimal), indentation, max_array_size).contains('.'),
        value_text(ValueModel::F64(decimal), indentation, max_array_size).contains('.'),
{
    if !decimal.contains('.') {
        reveal_strlit(".0");
        assert((decimal + ".0"@)[decimal.len() as int] == '.');
    }
}

/// An absent option and an option of the unit value are different values
/// with different literals and the same type.
pub proof fn lemma_absent_option_differs_from_unit_option(indentation: nat, max_array_size: nat)
    ensures
        ValueModel::Option(None) != ValueModel::Option(Some(Box::new(ValueModel::Unit))),
        value_text(ValueModel::Option(None), indentation, max_array_size) != value_text(
            ValueModel::Option(Some(Box::new(ValueModel::Unit))),
            indentation,
            max_array_size,
        ),
        type_text(ValueModel::Option(None), max_array_size) == type_text(
            ValueModel::Option(Some(Box::new(ValueModel::Unit))),
            max_array_size,
        ),
{
    reveal_strlit("None");
    reveal_strlit("Some(");
    reveal_strlit("()");
    reveal_strlit(")");
    let absent = value_text(ValueModel::Option(None), indentation, max_array_size);
    let present = value_text(
        ValueModel::Option(Some(Box::new(ValueModel::Unit))),
        indentation,
        max_array_size,
    );
    assert(absent[0] == 'N');
    assert(present[0] == 'S');
    assert(type_text(ValueModel::Unit, max_array_size) == "()"@);
}

} // verus!
