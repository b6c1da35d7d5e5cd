//! The generation of an enum whose variants are named after files.

use vstd::prelude::*;
use vstd::string::*;
use crate::enums::{enum_code, generate_enum_code};
use crate::error::{GenerationError, GenerationErrorModel};
use crate::options::{EnumOptions, EnumOptionsModel};
use crate::structs::code_result_model;
use crate::text::{text_less, text_lt};

verus! {

/// The upper case of a letter of the ASCII alphabet; any other character
/// as it is.
pub open spec fn ascii_upper(c: char) -> char {
    if 'a' <= c && c <= 'z' {
        ((c as int) - 32) as char
    } else {
        c
    }
}

/// The camel case of what follows in a text, at the start of a word or
/// within one: underscores are left out, and the character behind one is
/// put in upper case.
pub open spec fn camel_text(text: Seq<char>, at_new_word: bool) -> Seq<char>
    decreases text.len(),
{
    if text.len() == 0 {
        Seq::empty()
    } else if text[0] == '_' {
        camel_text(text.drop_first(), true)
    } else if at_new_word {
        seq![ascii_upper(text[0])] + camel_text(text.drop_first(), false)
    } else {
        seq![text[0]] + camel_text(text.drop_first(), false)
    }
}

/// The camel case of a text: a text starts with a new word.
pub open spec fn camel_case_of(s: Seq<char>) -> Seq<char> {
    camel_text(s, true)
}

/// Calls `case::CaseExt::to_camel`, which goes through the characters
/// once: it drops every underscore and puts the character behind one, and
/// the first one, in ASCII upper case.
#[verifier::external_body]
fn to_camel(s: &str) -> (r: String)
    ensures
        r@ == camel_case_of(s@),
{
    case::CaseExt::to_camel(s)
}

/// The camel case of a text holds no underscore.
pub proof fn lemma_camel_case_has_no_underscore(text: Seq<char>, at_new_word: bool)
    ensures
        !camel_text(text, at_new_word).contains('_'),
    decreases text.len(),
{
    if text.len() > 0 {
        lemma_camel_case_has_no_underscore(text.drop_first(), true);
        lemma_camel_case_has_no_underscore(text.drop_first(), false);
        let rest = camel_text(text.drop_first(), false);
        if text[0] != '_' {
            let head = if at_new_word {
                ascii_upper(text[0])
            } else {
                text[0]
            };
            let whole = seq![head] + rest;
            assert(head != '_');
            assert forall|i: int| 0 <= i < whole.len() implies whole[i] != '_' by {
                if i > 0 {
                    assert(whole[i] == rest[i - 1]);
                    assert(rest.contains(rest[i - 1]));
                }
            }
        }
    }
}

/// The texts of a sequence of strings, in order.
pub open spec fn texts_of(strings: Seq<String>) -> Seq<Seq<char>> {
    Seq::new(strings.len(), |i: int| strings[i]@)
}

/// A sorted sequence with one text more: it goes behind the last text
/// that does not come after it.
pub open spec fn insert_text(sorted: Seq<Seq<char>>, text: Seq<char>) -> Seq<Seq<char>>
    decreases sorted.len(),
{
    if sorted.len() == 0 {
        seq![text]
    } else if text_lt(text, sorted.last()) {
        insert_text(sorted.drop_last(), text).push(sorted.last())
    } else {
        sorted.push(text)
    }
}

/// The texts in ascending order; equal texts keep their order.
pub open spec fn sorted_texts(texts: Seq<Seq<char>>) -> Seq<Seq<char>>
    decreases texts.len(),
{
    if texts.len() == 0 {
        Seq::empty()
    } else {
        insert_text(sorted_texts(texts.drop_last()), texts.last())
    }
}

/// The camel case of each text, in order.
pub open spec fn camel_keys(stems: Seq<Seq<char>>) -> Seq<Seq<char>> {
    Seq::new(stems.len(), |i: int| camel_case_of(stems[i]))
}

/// Texts behind the place `n` that all come after the new text stay
/// where they are, behind the new text.
pub proof fn lemma_insert_text_tail(sorted: Seq<Seq<char>>, text: Seq<char>, n: int)
    requires
        0 <= n <= sorted.len(),
        forall|j: int| n <= j < sorted.len() ==> text_lt(text, #[trigger] sorted[j]),
    ensures
        insert_text(sorted, text) == insert_text(sorted.subrange(0, n), text) + sorted.subrange(
            n,
            sorted.len() as int,
        ),
    decreases sorted.len(),
{
    if n == sorted.len() {
        assert(sorted.subrange(0, n) =~= sorted);
        assert(insert_text(sorted, text) + sorted.subrange(n, sorted.len() as int) =~= insert_text(
            sorted,
            text,
        ));
    } else {
        let shorter = sorted.drop_last();
        assert(sorted.last() == sorted[sorted.len() - 1]);
        assert forall|j: int| n <= j < shorter.len() implies text_lt(text, #[trigger] shorter[j]) by {
            assert(shorter[j] == sorted[j]);
        }
        lemma_insert_text_tail(shorter, text, n);
        assert(shorter.subrange(0, n) =~= sorted.subrange(0, n));
        assert(shorter.subrange(n, shorter.len() as int).push(sorted.last()) =~= sorted.subrange(
            n,
            sorted.len() as int,
        ));
        assert(insert_text(sorted, text) =~= insert_text(sorted.subrange(0, n), text)
            + sorted.subrange(n, sorted.len() as int));
    }
}

/// Sorts texts in ascending order; equal texts keep their order.
#[verifier::loop_isolation(false)]
pub fn sort_keys(keys: &Vec<String>) -> (r: Vec<String>)
    ensures
        r.deep_view() == sorted_texts(keys.deep_view()),
{
    let ghost all = keys.deep_view();
    let mut out: Vec<String> = Vec::new();
    let mut i: usize = 0;
    assert(all.subrange(0, 0) =~= Seq::<Seq<char>>::empty());
    assert(texts_of(out@) =~= Seq::<Seq<char>>::empty());
    while i < keys.len()
        invariant
            i <= keys.len(),
            texts_of(out@) == sorted_texts(all.subrange(0, i as int)),
        decreases keys.len() - i,
    {
        let ghost before = texts_of(out@);
        let ghost next = all.subrange(0, i + 1);
        assert(next.drop_last() =~= all.subrange(0, i as int));
        assert(next.last() == keys@[i as int]@);
        let key = keys[i].clone();
        let mut position: usize = out.len();
        while position > 0 && text_less(key.as_str(), out[position - 1].as_str())
            invariant
                position <= out.len(),
                texts_of(out@) == before,
                forall|j: int| position <= j < before.len() ==> text_lt(key@, #[trigger] before[j]),
            decreases position,
        {
            position = position - 1;
        }
        proof {
            lemma_insert_text_tail(before, key@, position as int);
            let prefix = before.subrange(0, position as int);
            if position > 0 {
                assert(prefix.last() == before[position - 1]);
            }
            assert(insert_text(prefix, key@) == prefix.push(key@));
        }
        out.insert(position, key);
        assert(texts_of(out@) =~= insert_text(before, keys@[i as int]@));
        i = i + 1;
    }
    assert(all.subrange(0, i as int) =~= all);
    assert(out.deep_view() =~= texts_of(out@));
    out
}

/// The enum code for files of the given stems: the variants are the camel
/// cases of the stems, in ascending order.
pub open spec fn files_enum_code(stems: Seq<Seq<char>>, options: EnumOptionsModel) -> Result<
    Seq<char>,
    GenerationErrorModel,
> {
    enum_code(sorted_texts(camel_keys(stems)), options)
}

/// Generates the code of an enum with one variant for each file: the
/// variant of a file is the camel case of the stem of its name. The
/// variants stand in ascending order. A stem whose camel case is no valid
/// identifier is an error.
pub fn files_enum_from_stems(stems: &Vec<String>, options: &EnumOptions) -> (r: Result<
    String,
    GenerationError,
>)
    ensures
        code_result_model(r) == files_enum_code(stems.deep_view(), options@),
{
    let mut keys: Vec<String> = Vec::new();
    let mut i: usize = 0;
    while i < stems.len()
        invariant
            i <= stems.len(),
            keys@.len() == i,
            forall|j: int| 0 <= j < i ==> (#[trigger] keys@[j])@ == camel_case_of(stems@[j]@),
        decreases stems.len() - i,
    {
        keys.push(to_camel(stems[i].as_str()));
        i = i + 1;
    }
    assert(keys.deep_view() =~= camel_keys(stems.deep_view()));
    let sorted = sort_keys(&keys);
    generate_enum_code(&sorted, options)
}

} // verus!
