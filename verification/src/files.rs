//! What is decided about the destination file before it is written.

use vstd::prelude::*;
use vstd::string::*;
use crate::text::same_text;

verus! {

/// Whether the output has to be written: always, unless a write is only
/// wanted on change and the destination already holds the output.
pub open spec fn write_needed(
    existing: Option<Seq<char>>,
    output: Seq<char>,
    write_only_if_changed: bool,
) -> bool {
    !write_only_if_changed || existing != Some(output)
}

/// Whether the output has to be written to a destination that holds
/// `existing`, or nothing where it could not be read.
pub fn should_write(existing: Option<&str>, output: &str, write_only_if_changed: bool) -> (r: bool)
    ensures
        r == write_needed(
            match existing {
                Some(text) => Some(text@),
                None => None,
            },
            output@,
            write_only_if_changed,
        ),
{
    if write_only_if_changed {
        match existing {
            Some(text) => !same_text(text, output),
            None => true,
        }
    } else {
        true
    }
}

} // verus!
