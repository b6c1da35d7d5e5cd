//! The format-agnostic value tree that every configuration document is
//! normalised into before any text is produced.

use vstd::prelude::*;
use vstd::string::*;
use crate::text::{
    lemma_text_order_is_total,
    lemma_text_order_is_transitive,
    same_text,
    text_less,
    text_lt,
};

verus! {

/// A named record: a list of fields, each a name with its value.
///
/// The fields stand in the ascending order of their names, and no name
/// occurs twice: [`record_is_ordered`] says so of the record and of every
/// record nested in it. [`GenericStruct::new`] and
/// [`GenericStruct::insert`] make and keep records that way, what writes
/// code for a record asks for it, and [`GenericStruct::is_ordered`] tests
/// it.
#[derive(Debug)]
pub struct GenericStruct {
    pub struct_name: String,
    pub fields: Vec<(String, GenericValue)>,
}

/// A typed value of a configuration document.
#[derive(Debug)]
pub enum GenericValue {
    Unit,
    Bool(bool),
    Char(char),
    I8(i8),
    I16(i16),
    I32(i32),
    I64(i64),
    U8(u8),
    U16(u16),
    U32(u32),
    U64(u64),
    ISize(isize),
    Usize(usize),
    /// A float that is declared with 32 bits, held as the decimal text it
    /// is written with. The text is the one the document's number has as
    /// a 64-bit float: it is not rounded to 32 bits here.
    F32(String),
    /// A float that is declared with 64 bits, held as the decimal text it
    /// is written with.
    F64(String),
    String(String),
    Option(Option<Box<GenericValue>>),
    Array(Vec<GenericValue>),
    Struct(GenericStruct),
}

/// The mathematical model of a [`GenericStruct`].
pub ghost struct RecordModel {
    pub name: Seq<char>,
    pub fields: Seq<(Seq<char>, ValueModel)>,
}

/// The mathematical model of a [`GenericValue`].
pub ghost enum ValueModel {
    Unit,
    Bool(bool),
    Char(char),
    I8(i8),
    I16(i16),
    I32(i32),
    I64(i64),
    U8(u8),
    U16(u16),
    U32(u32),
    U64(u64),
    ISize(isize),
    Usize(usize),
    F32(Seq<char>),
    F64(Seq<char>),
    String(Seq<char>),
    Option(Option<Box<ValueModel>>),
    Array(Seq<ValueModel>),
    Struct(RecordModel),
}

impl GenericStruct {
    /// The record's model: its name and its fields in stored order.
    pub open spec fn model(&self) -> RecordModel
        decreases self,
    {
        RecordModel {
            name: self.struct_name@,
            fields: Seq::new(
                self.fields@.len(),
                |i: int|
                    if 0 <= i < self.fields@.len() {
                        (self.fields@[i].0@, self.fields@[i].1.model())
                    } else {
                        (Seq::empty(), ValueModel::Unit)
                    },
            ),
        }
    }
}

impl GenericValue {
    /// The value's model, with text as sequences of characters.
    pub open spec fn model(&self) -> ValueModel
        decreases self,
    {
        match self {
            GenericValue::Unit => ValueModel::Unit,
            GenericValue::Bool(b) => ValueModel::Bool(*b),
            GenericValue::Char(c) => ValueModel::Char(*c),
            GenericValue::I8(x) => ValueModel::I8(*x),
            GenericValue::I16(x) => ValueModel::I16(*x),
            GenericValue::I32(x) => ValueModel::I32(*x),
            GenericValue::I64(x) => ValueModel::I64(*x),
            GenericValue::U8(x) => ValueModel::U8(*x),
            GenericValue::U16(x) => ValueModel::U16(*x),
            GenericValue::U32(x) => ValueModel::U32(*x),
            GenericValue::U64(x) => ValueModel::U64(*x),
            GenericValue::ISize(x) => ValueModel::ISize(*x),
            GenericValue::Usize(x) => ValueModel::Usize(*x),
            GenericValue::F32(t) => ValueModel::F32(t@),
            GenericValue::F64(t) => ValueModel::F64(t@),
            GenericValue::String(s) => ValueModel::String(s@),
            GenericValue::Option(None) => ValueModel::Option(None),
            GenericValue::Option(Some(inner)) => ValueModel::Option(Some(Box::new(inner.model()))),
            GenericValue::Array(items) => ValueModel::Array(
                Seq::new(
                    items@.len(),
                    |i: int|
                        if 0 <= i < items@.len() {
                            items@[i].model()
                        } else {
                            ValueModel::Unit
                        },
                ),
            ),
            GenericValue::Struct(s) => ValueModel::Struct(s.model()),
        }
    }
}

impl View for GenericStruct {
    type V = RecordModel;

    open spec fn view(&self) -> RecordModel {
        self.model()
    }
}

impl View for GenericValue {
    type V = ValueModel;

    open spec fn view(&self) -> ValueModel {
        self.model()
    }
}

/// The models of a sequence of values, in order.
pub open spec fn models_of(values: Seq<GenericValue>) -> Seq<ValueModel> {
    Seq::new(values.len(), |i: int| values[i]@)
}

/// The model of an array is the sequence of its elements' models.
pub proof fn lemma_array_model(values: Vec<GenericValue>)
    ensures
        GenericValue::Array(values)@ == ValueModel::Array(models_of(values@)),
{
    assert(GenericValue::Array(values)@->Array_0 =~= models_of(values@));
}

/// The models of a sequence of fields, in order.
pub open spec fn fields_of(fields: Seq<(String, GenericValue)>) -> Seq<(Seq<char>, ValueModel)> {
    Seq::new(fields.len(), |i: int| (fields[i].0@, fields[i].1@))
}

/// The fields of a record's model are the models of its fields.
pub proof fn lemma_record_fields(record: GenericStruct)
    ensures
        record@.fields == fields_of(record.fields@),
        record@.name == record.struct_name@,
{
    assert(record@.fields =~= fields_of(record.fields@));
}

/// The fields after one more is put in: where a field of that name exists,
/// the new one takes its place; else it goes behind the last field whose
/// name comes before its own.
pub open spec fn insert_field(
    fields: Seq<(Seq<char>, ValueModel)>,
    key: Seq<char>,
    value: ValueModel,
) -> Seq<(Seq<char>, ValueModel)>
    decreases fields.len(),
{
    if fields.len() == 0 {
        seq![(key, value)]
    } else if text_lt(fields.last().0, key) {
        fields.push((key, value))
    } else if fields.last().0 == key {
        fields.drop_last().push((key, value))
    } else {
        insert_field(fields.drop_last(), key, value).push(fields.last())
    }
}

/// The names of the fields strictly ascend in the order of texts.
pub open spec fn keys_ascend(fields: Seq<(Seq<char>, ValueModel)>) -> bool {
    forall|i: int, j: int|
        0 <= i < j < fields.len() ==> text_lt((#[trigger] fields[i]).0, (#[trigger] fields[j]).0)
}

/// Fields behind the place `n` whose names neither come before the new
/// name nor equal it stay where they are, behind the new field.
pub proof fn lemma_insert_field_tail(
    fields: Seq<(Seq<char>, ValueModel)>,
    key: Seq<char>,
    value: ValueModel,
    n: int,
)
    requires
        0 <= n <= fields.len(),
        forall|j: int|
            n <= j < fields.len() ==> !text_lt((#[trigger] fields[j]).0, key) && fields[j].0 != key,
    ensures
        insert_field(fields, key, value) == insert_field(fields.subrange(0, n), key, value)
            + fields.subrange(n, fields.len() as int),
    decreases fields.len(),
{
    if n == fields.len() {
        assert(fields.subrange(0, n) =~= fields);
        assert(insert_field(fields, key, value) + fields.subrange(n, fields.len() as int)
            =~= insert_field(fields, key, value));
    } else {
        let shorter = fields.drop_last();
        assert forall|j: int| n <= j < shorter.len() implies !text_lt(
            (#[trigger] shorter[j]).0,
            key,
        ) && shorter[j].0 != key by {
            assert(shorter[j] == fields[j]);
        }
        lemma_insert_field_tail(shorter, key, value, n);
        assert(shorter.subrange(0, n) =~= fields.subrange(0, n));
        assert(fields.last() == fields[fields.len() - 1]);
        assert(shorter.subrange(n, shorter.len() as int).push(fields.last()) =~= fields.subrange(
            n,
            fields.len() as int,
        ));
        assert(insert_field(fields, key, value) =~= insert_field(fields.subrange(0, n), key, value)
            + fields.subrange(n, fields.len() as int));
    }
}

/// The fields of every record in the value, at any depth, ascend by name.
pub open spec fn value_is_ordered(v: ValueModel) -> bool
    decreases v,
{
    match v {
        ValueModel::Option(Some(present)) => value_is_ordered(*present),
        ValueModel::Array(items) => forall|i: int|
            0 <= i < items.len() ==> value_is_ordered(#[trigger] items[i]),
        ValueModel::Struct(record) => record_is_ordered(record),
        _ => true,
    }
}

/// The fields of the record ascend by name, and so do those of every
/// record nested in it.
pub open spec fn record_is_ordered(r: RecordModel) -> bool
    decreases r,
{
    &&& keys_ascend(r.fields)
    &&& forall|i: int| 0 <= i < r.fields.len() ==> value_is_ordered((#[trigger] r.fields[i]).1)
}

/// What it takes for an array and for a record to be ordered.
pub proof fn lemma_value_is_ordered(v: ValueModel)
    ensures
        v matches ValueModel::Array(items) ==> (value_is_ordered(v) <==> forall|i: int|
            0 <= i < items.len() ==> value_is_ordered(#[trigger] items[i])),
        v matches ValueModel::Struct(record) ==> (value_is_ordered(v) <==> keys_ascend(
            record.fields,
        ) && forall|i: int|
            0 <= i < record.fields.len() ==> value_is_ordered((#[trigger] record.fields[i]).1)),
{
    match v {
        ValueModel::Struct(record) => {
            assert(value_is_ordered(v) == record_is_ordered(record));
        },
        _ => {},
    }
}

/// What it takes for a record to be ordered.
pub proof fn lemma_record_is_ordered(r: RecordModel)
    ensures
        record_is_ordered(r) <==> keys_ascend(r.fields) && forall|i: int|
            0 <= i < r.fields.len() ==> value_is_ordered((#[trigger] r.fields[i]).1),
{
}

/// Every field after one more is put in is the new field or one of the
/// fields before.
pub proof fn lemma_insert_field_members(
    fields: Seq<(Seq<char>, ValueModel)>,
    key: Seq<char>,
    value: ValueModel,
)
    ensures
        forall|i: int|
            0 <= i < insert_field(fields, key, value).len() ==> (#[trigger] insert_field(
                fields,
                key,
                value,
            )[i]) == (key, value) || fields.contains(insert_field(fields, key, value)[i]),
    decreases fields.len(),
{
    let result = insert_field(fields, key, value);
    if fields.len() == 0 {
    } else if text_lt(fields.last().0, key) {
        assert forall|i: int| 0 <= i < result.len() implies (#[trigger] result[i]) == (key, value)
            || fields.contains(result[i]) by {
            if i < fields.len() {
                assert(result[i] == fields[i]);
            }
        }
    } else if fields.last().0 == key {
        assert forall|i: int| 0 <= i < result.len() implies (#[trigger] result[i]) == (key, value)
            || fields.contains(result[i]) by {
            if i < fields.len() - 1 {
                assert(result[i] == fields[i]);
            }
        }
    } else {
        let shorter = fields.drop_last();
        lemma_insert_field_members(shorter, key, value);
        let inner = insert_field(shorter, key, value);
        assert forall|i: int| 0 <= i < result.len() implies (#[trigger] result[i]) == (key, value)
            || fields.contains(result[i]) by {
            if i < inner.len() {
                assert(result[i] == inner[i]);
                if inner[i] != (key, value) {
                    let j = choose|j: int| 0 <= j < shorter.len() && shorter[j] == inner[i];
                    assert(fields[j] == inner[i]);
                }
            } else {
                assert(result[i] == fields[fields.len() - 1]);
            }
        }
    }
}

/// Fields whose names ascend still do so after one more is put in.
pub proof fn lemma_insert_field_keeps_order(
    fields: Seq<(Seq<char>, ValueModel)>,
    key: Seq<char>,
    value: ValueModel,
)
    requires
        keys_ascend(fields),
    ensures
        keys_ascend(insert_field(fields, key, value)),
    decreases fields.len(),
{
    let result = insert_field(fields, key, value);
    if fields.len() == 0 {
    } else if text_lt(fields.last().0, key) {
        assert forall|i: int, j: int| 0 <= i < j < result.len() implies text_lt(
            (#[trigger] result[i]).0,
            (#[trigger] result[j]).0,
        ) by {
            assert(result[i] == fields[i]);
            if j < fields.len() {
                assert(result[j] == fields[j]);
            } else if i < fields.len() - 1 {
                assert(text_lt(fields[i].0, fields[fields.len() - 1].0));
                lemma_text_order_is_transitive(fields[i].0, fields.last().0, key);
            }
        }
    } else if fields.last().0 == key {
        assert forall|i: int, j: int| 0 <= i < j < result.len() implies text_lt(
            (#[trigger] result[i]).0,
            (#[trigger] result[j]).0,
        ) by {
            assert(result[i] == fields[i]);
            assert(result[j].0 == fields[j].0);
        }
    } else {
        let shorter = fields.drop_last();
        let last = fields.last();
        assert forall|i: int, j: int| 0 <= i < j < shorter.len() implies text_lt(
            (#[trigger] shorter[i]).0,
            (#[trigger] shorter[j]).0,
        ) by {
            assert(shorter[i] == fields[i]);
            assert(shorter[j] == fields[j]);
        }
        lemma_insert_field_keeps_order(shorter, key, value);
        lemma_insert_field_members(shorter, key, value);
        lemma_text_order_is_total(last.0, key);
        let inner = insert_field(shorter, key, value);
        assert forall|i: int, j: int| 0 <= i < j < result.len() implies text_lt(
            (#[trigger] result[i]).0,
            (#[trigger] result[j]).0,
        ) by {
            assert(result[i] == inner[i]);
            if j < inner.len() {
                assert(result[j] == inner[j]);
            } else {
                assert(result[j] == last);
                if inner[i] != (key, value) {
                    let k = choose|k: int| 0 <= k < shorter.len() && shorter[k] == inner[i];
                    assert(fields[k] == inner[i]);
                    assert(text_lt(fields[k].0, fields[fields.len() - 1].0));
                }
            }
        }
    }
}

/// Fields whose values are ordered still are so after an ordered value
/// is put in.
pub proof fn lemma_insert_field_keeps_values_ordered(
    fields: Seq<(Seq<char>, ValueModel)>,
    key: Seq<char>,
    value: ValueModel,
)
    requires
        forall|i: int| 0 <= i < fields.len() ==> value_is_ordered((#[trigger] fields[i]).1),
        value_is_ordered(value),
    ensures
        forall|i: int|
            0 <= i < insert_field(fields, key, value).len() ==> value_is_ordered(
                (#[trigger] insert_field(fields, key, value)[i]).1,
            ),
{
    lemma_insert_field_members(fields, key, value);
    let result = insert_field(fields, key, value);
    assert forall|i: int| 0 <= i < result.len() implies value_is_ordered(
        (#[trigger] result[i]).1,
    ) by {
        if result[i] != (key, value) {
            let j = choose|j: int| 0 <= j < fields.len() && fields[j] == result[i];
            assert(value_is_ordered(fields[j].1));
        }
    }
}

impl GenericStruct {
    /// A record of the given name without fields.
    pub fn new(struct_name: String) -> (r: GenericStruct)
        ensures
            r@ == (RecordModel { name: struct_name@, fields: Seq::empty() }),
            record_is_ordered(r@),
    {
        let r = GenericStruct { struct_name, fields: Vec::new() };
        assert(r@.fields =~= Seq::empty());
        proof {
            lemma_record_is_ordered(r@);
        }
        r
    }

    /// Puts a field in, keeping the fields in the order of their names; a
    /// field of the same name is replaced. An ordered record that takes an
    /// ordered value stays ordered.
    #[verifier::loop_isolation(false)]
    pub fn insert(&mut self, key: String, value: GenericValue)
        ensures
            final(self)@ == (RecordModel {
                name: old(self)@.name,
                fields: insert_field(old(self)@.fields, key@, value@),
            }),
            record_is_ordered(old(self)@) && value_is_ordered(value@) ==> record_is_ordered(
                final(self)@,
            ),
    {
        proof {
            if record_is_ordered(old(self)@) && value_is_ordered(value@) {
                lemma_record_is_ordered(old(self)@);
                lemma_insert_field_keeps_order(old(self)@.fields, key@, value@);
                lemma_insert_field_keeps_values_ordered(old(self)@.fields, key@, value@);
                lemma_record_is_ordered(
                    RecordModel {
                        name: old(self)@.name,
                        fields: insert_field(old(self)@.fields, key@, value@),
                    },
                );
            }
        }
        let ghost before = self.fields@;
        let ghost models = fields_of(before);
        proof {
            lemma_record_fields(*self);
        }
        let mut i: usize = self.fields.len();
        while i > 0
            invariant
                i <= self.fields.len(),
                self.fields@ == before,
                self.struct_name == old(self).struct_name,
                models == fields_of(before),
                forall|j: int|
                    i <= j < models.len() ==> !text_lt((#[trigger] models[j]).0, key@)
                        && models[j].0 != key@,
            decreases i,
        {
            let ghost prefix = models.subrange(0, i as int);
            if text_less(self.fields[i - 1].0.as_str(), key.as_str()) {
                proof {
                    lemma_insert_field_tail(models, key@, value@, i as int);
                    assert(prefix.last() == models[i - 1]);
                }
                self.fields.insert(i, (key, value));
                proof {
                    lemma_record_fields(*self);
                    assert(fields_of(self.fields@) =~= prefix.push((key@, value@)) + models.subrange(
                        i as int,
                        models.len() as int,
                    ));
                }
                return ;
            }
            if same_text(self.fields[i - 1].0.as_str(), key.as_str()) {
                proof {
                    lemma_insert_field_tail(models, key@, value@, i as int);
                    assert(prefix.last() == models[i - 1]);
                }
                let _ = self.fields.remove(i - 1);
                self.fields.insert(i - 1, (key, value));
                proof {
                    lemma_record_fields(*self);
                    assert(fields_of(self.fields@) =~= prefix.drop_last().push((key@, value@))
                        + models.subrange(i as int, models.len() as int));
                }
                return ;
            }
            i = i - 1;
        }
        proof {
            lemma_insert_field_tail(models, key@, value@, 0);
            assert(models.subrange(0, 0) =~= Seq::empty());
        }
        self.fields.insert(0, (key, value));
        proof {
            lemma_record_fields(*self);
            assert(fields_of(self.fields@) =~= seq![(key@, value@)] + models.subrange(
                0,
                models.len() as int,
            ));
        }
    }
}

impl GenericValue {
    /// A copy of the value: it holds the same as the value itself.
    #[verifier::loop_isolation(false)]
    pub fn duplicate(&self) -> (r: GenericValue)
        ensures
            r@ == self@,
        decreases self,
    {
        match self {
            GenericValue::Unit => GenericValue::Unit,
            GenericValue::Bool(b) => GenericValue::Bool(*b),
            GenericValue::Char(c) => GenericValue::Char(*c),
            GenericValue::I8(x) => GenericValue::I8(*x),
            GenericValue::I16(x) => GenericValue::I16(*x),
            GenericValue::I32(x) => GenericValue::I32(*x),
            GenericValue::I64(x) => GenericValue::I64(*x),
            GenericValue::U8(x) => GenericValue::U8(*x),
            GenericValue::U16(x) => GenericValue::U16(*x),
            GenericValue::U32(x) => GenericValue::U32(*x),
            GenericValue::U64(x) => GenericValue::U64(*x),
            GenericValue::ISize(x) => GenericValue::ISize(*x),
            GenericValue::Usize(x) => GenericValue::Usize(*x),
            GenericValue::F32(t) => GenericValue::F32(t.clone()),
            GenericValue::F64(t) => GenericValue::F64(t.clone()),
            GenericValue::String(s) => GenericValue::String(s.clone()),
            GenericValue::Option(None) => GenericValue::Option(None),
            GenericValue::Option(Some(inner)) => GenericValue::Option(
                Some(Box::new(inner.duplicate())),
            ),
            GenericValue::Array(items) => {
                let mut copies: Vec<GenericValue> = Vec::new();
                let mut i: usize = 0;
                while i < items.len()
                    invariant
                        i <= items.len(),
                        copies@.len() == i,
                        forall|j: int| 0 <= j < i ==> (#[trigger] copies@[j])@ == items@[j]@,
                    decreases items.len() - i,
                {
                    copies.push(items[i].duplicate());
                    i = i + 1;
                }
                proof {
                    lemma_array_model(copies);
                    lemma_array_model(*items);
                    assert(models_of(copies@) =~= models_of(items@));
                }
                GenericValue::Array(copies)
            },
            GenericValue::Struct(record) => {
                let copy = record.duplicate();
                assert(GenericValue::Struct(copy)@ == ValueModel::Struct(copy@));
                assert(self@ == ValueModel::Struct(record@));
                GenericValue::Struct(copy)
            },
        }
    }
}

impl GenericStruct {
    /// A copy of the record: it holds the same as the record itself.
    #[verifier::loop_isolation(false)]
    pub fn duplicate(&self) -> (r: GenericStruct)
        ensures
            r@ == self@,
        decreases self,
    {
        let mut fields: Vec<(String, GenericValue)> = Vec::new();
        let mut i: usize = 0;
        while i < self.fields.len()
            invariant
                i <= self.fields.len(),
                fields@.len() == i,
                forall|j: int|
                    0 <= j < i ==> (#[trigger] fields@[j]).0@ == self.fields@[j].0@ && fields@[j].1@
                        == self.fields@[j].1@,
            decreases self.fields.len() - i,
        {
            fields.push((self.fields[i].0.clone(), self.fields[i].1.duplicate()));
            i = i + 1;
        }
        let copy = GenericStruct { struct_name: self.struct_name.clone(), fields };
        proof {
            lemma_record_fields(copy);
            lemma_record_fields(*self);
            assert(fields_of(copy.fields@) =~= fields_of(self.fields@));
        }
        copy
    }
}

impl Clone for GenericValue {
    fn clone(&self) -> (r: GenericValue)
        ensures
            r@ == self@,
    {
        self.duplicate()
    }
}

impl Clone for GenericStruct {
    fn clone(&self) -> (r: GenericStruct)
        ensures
            r@ == self@,
    {
        self.duplicate()
    }
}

/// Names of which each comes before the next one ascend.
pub proof fn lemma_neighbours_ascend(fields: Seq<(Seq<char>, ValueModel)>, i: int, j: int)
    requires
        forall|k: int| 0 <= k < fields.len() - 1 ==> text_lt(#[trigger] fields[k].0, fields[k + 1].0),
        0 <= i < j < fields.len(),
    ensures
        text_lt(fields[i].0, fields[j].0),
    decreases j - i,
{
    if j > i + 1 {
        lemma_neighbours_ascend(fields, i, j - 1);
        assert(text_lt(fields[j - 1].0, fields[j - 1 + 1].0));
        lemma_text_order_is_transitive(fields[i].0, fields[j - 1].0, fields[j].0);
    } else {
        assert(text_lt(fields[i].0, fields[i + 1].0));
    }
}

impl GenericValue {
    /// Whether the fields of every record in the value ascend by name.
    #[verifier::loop_isolation(false)]
    pub fn is_ordered(&self) -> (r: bool)
        ensures
            r == value_is_ordered(self@),
        decreases self,
    {
        proof {
            lemma_value_is_ordered(self@);
        }
        match self {
            GenericValue::Option(Some(inner)) => inner.is_ordered(),
            GenericValue::Array(items) => {
                let ghost models = self@->Array_0;
                let mut i: usize = 0;
                while i < items.len()
                    invariant
                        i <= items.len(),
                        forall|j: int| 0 <= j < i ==> value_is_ordered(#[trigger] models[j]),
                    decreases items.len() - i,
                {
                    assert(models[i as int] == items@[i as int]@);
                    if !items[i].is_ordered() {
                        return false;
                    }
                    i = i + 1;
                }
                true
            },
            GenericValue::Struct(record) => {
                assert(self@ == ValueModel::Struct(record@));
                record.is_ordered()
            },
            _ => true,
        }
    }
}

impl GenericStruct {
    /// Whether the fields of the record ascend by name, and those of every
    /// record nested in it.
    #[verifier::loop_isolation(false)]
    pub fn is_ordered(&self) -> (r: bool)
        ensures
            r == record_is_ordered(self@),
        decreases self,
    {
        let ghost fields = self@.fields;
        proof {
            lemma_record_is_ordered(self@);
            lemma_record_fields(*self);
        }
        let mut i: usize = 0;
        while i < self.fields.len()
            invariant
                i <= self.fields.len(),
                forall|j: int| 0 <= j < i ==> value_is_ordered((#[trigger] fields[j]).1),
                forall|k: int| 0 <= k < i - 1 ==> text_lt(#[trigger] fields[k].0, fields[k + 1].0),
            decreases self.fields.len() - i,
        {
            assert(fields[i as int] == (self.fields@[i as int].0@, self.fields@[i as int].1@));
            if i > 0 {
                assert(fields[i - 1] == (self.fields@[i - 1].0@, self.fields@[i - 1].1@));
                if !text_less(self.fields[i - 1].0.as_str(), self.fields[i].0.as_str()) {
                    assert(!text_lt(fields[i - 1].0, fields[i as int].0));
                    return false;
                }
            }
            if !self.fields[i].1.is_ordered() {
                return false;
            }
            i = i + 1;
        }
        proof {
            assert forall|a: int, b: int| 0 <= a < b < fields.len() implies text_lt(
                (#[trigger] fields[a]).0,
                (#[trigger] fields[b]).0,
            ) by {
                lemma_neighbours_ascend(fields, a, b);
            }
        }
        true
    }
}

} // verus!
