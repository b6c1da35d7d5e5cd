//! A guard for RON documents: it finds the numbers of a document that may
//! be too large for a float, before the document is parsed.
//!
//! The guard goes through the text once, as a reader of RON does: it
//! passes over comments, string literals and character literals, and looks
//! at numbers only where one can begin.

use vstd::prelude::*;
use vstd::string::*;
use crate::text::chars_of;

verus! {

/// Where in a document the guard is.
#[derive(Debug, Clone, Copy, PartialEq, Eq, Structural)]
pub enum RonMode {
    /// Among values, names and punctuation.
    Code,
    /// Behind a slash that may begin a comment.
    Slash,
    /// In a comment that ends with the line.
    LineComment,
    /// In a block comment, nested `level` deep, behind nothing of note, a
    /// slash (`pending == 1`) or a star (`pending == 2`).
    BlockComment { level: usize, pending: u8 },
    /// In a string literal, behind a backslash or not.
    Text { escaped: bool },
    /// In a character literal, behind a backslash or not.
    Character { escaped: bool },
    /// Behind an `r` that may begin a raw string, and `hashes` hashes.
    RawStart { hashes: usize },
    /// In a raw string that ends with a quote and `hashes` hashes; with
    /// `closing`, a quote and `matched` hashes behind it have been read.
    Raw { hashes: usize, closing: bool, matched: usize },
}

/// What the guard knows at one place of a document.
#[derive(Debug, Clone, Copy, PartialEq, Eq, Structural)]
pub struct RonScan {
    /// Where the guard is.
    pub mode: RonMode,
    /// A number that may be too large was found.
    pub failed: bool,
    /// The character before is a letter, a digit or an underscore.
    pub after_name: bool,
    /// The guard is in a run of number characters in which a number can
    /// have begun.
    pub in_number: bool,
    /// The digits of the run since a number can have begun, up to 1000.
    pub digits: usize,
    /// What of an exponent has been read: nothing (0), the mark (1), the
    /// mark and a sign (2), digits (3).
    pub exponent_part: u8,
    /// The exponent has a minus sign.
    pub exponent_negative: bool,
    /// The value of the exponent's digits, up to 1000.
    pub exponent: usize,
}

/// The largest sum of a number's digits and its exponent that the guard
/// lets pass: such a number is below ten to the power of 307, which a
/// float can hold.
pub const MAX_MAGNITUDE: usize = 307;

/// A letter of the ASCII alphabet, a digit or an underscore.
pub open spec fn name_char(c: char) -> bool {
    ('a' <= c && c <= 'z') || ('A' <= c && c <= 'Z') || ('0' <= c && c <= '9') || c == '_'
}

/// A character that can stand in a number: a digit, a point, a sign or an
/// exponent mark.
pub open spec fn number_char(c: char) -> bool {
    ('0' <= c && c <= '9') || c == '.' || c == '+' || c == '-' || c == 'e' || c == 'E'
}

/// A character that a number can begin with: a digit, a sign or a point.
pub open spec fn number_start_char(c: char) -> bool {
    ('0' <= c && c <= '9') || c == '.' || c == '+' || c == '-'
}

/// The value of a digit.
pub open spec fn digit_value(c: char) -> usize {
    if c == '1' {
        1
    } else if c == '2' {
        2
    } else if c == '3' {
        3
    } else if c == '4' {
        4
    } else if c == '5' {
        5
    } else if c == '6' {
        6
    } else if c == '7' {
        7
    } else if c == '8' {
        8
    } else if c == '9' {
        9
    } else {
        0
    }
}

/// The guard at the start of a document.
pub open spec fn scan_start() -> RonScan {
    RonScan {
        mode: RonMode::Code,
        failed: false,
        after_name: false,
        in_number: false,
        digits: 0,
        exponent_part: 0,
        exponent_negative: false,
        exponent: 0,
    }
}

/// The guard in the given mode, outside of any number.
pub open spec fn scan_in(mode: RonMode, after_name: bool) -> RonScan {
    RonScan {
        mode,
        failed: false,
        after_name,
        in_number: false,
        digits: 0,
        exponent_part: 0,
        exponent_negative: false,
        exponent: 0,
    }
}

/// One step of the guard among values, names and punctuation.
///
/// A number can begin at a digit, a sign or a point that does not follow a
/// letter, a digit or an underscore. From there to the end of the run of
/// number characters the guard counts the digits and reads the exponents:
/// the digits behind an exponent mark, with a sign between them or not. It
/// fails where the digits and an exponent without a minus sign come to
/// more than [`MAX_MAGNITUDE`].
pub open spec fn code_step(s: RonScan, c: char) -> RonScan {
    if number_char(c) {
        let in_number = s.in_number || (number_start_char(c) && !s.after_name);
        if !in_number {
            scan_in(RonMode::Code, name_char(c))
        } else if '0' <= c && c <= '9' {
            let digits: usize = if s.digits < 1000 {
                (s.digits + 1) as usize
            } else {
                s.digits
            };
            let exponent: usize = if s.exponent_part == 0 {
                0
            } else if s.exponent > 99 {
                1000
            } else {
                (s.exponent * 10 + digit_value(c)) as usize
            };
            let counted: usize = if s.exponent_negative {
                0
            } else {
                exponent
            };
            RonScan {
                mode: RonMode::Code,
                failed: digits + counted > MAX_MAGNITUDE,
                after_name: true,
                in_number: true,
                digits,
                exponent_part: if s.exponent_part == 0 {
                    0
                } else {
                    3
                },
                exponent_negative: s.exponent_negative,
                exponent,
            }
        } else if c == 'e' || c == 'E' {
            RonScan {
                mode: RonMode::Code,
                failed: false,
                after_name: true,
                in_number: true,
                digits: s.digits,
                exponent_part: 1,
                exponent_negative: false,
                exponent: 0,
            }
        } else if (c == '+' || c == '-') && s.exponent_part == 1 {
            RonScan {
                mode: RonMode::Code,
                failed: false,
                after_name: false,
                in_number: true,
                digits: s.digits,
                exponent_part: 2,
                exponent_negative: c == '-',
                exponent: 0,
            }
        } else {
            RonScan {
                mode: RonMode::Code,
                failed: false,
                after_name: false,
                in_number: true,
                digits: s.digits,
                exponent_part: 0,
                exponent_negative: false,
                exponent: 0,
            }
        }
    } else if c == '"' {
        scan_in(RonMode::Text { escaped: false }, false)
    } else if c == '\'' {
        scan_in(RonMode::Character { escaped: false }, false)
    } else if c == '/' {
        scan_in(RonMode::Slash, false)
    } else if c == 'r' && !s.after_name {
        scan_in(RonMode::RawStart { hashes: 0 }, true)
    } else {
        scan_in(RonMode::Code, name_char(c))
    }
}

/// One step of the guard.
///
/// A comment runs from two slashes to the end of the line, or from a
/// slash and a star to the star and slash that close it, comments within
/// it included. A string literal runs from a quote to the next quote that
/// no backslash stands before; a character literal likewise between
/// apostrophes. A raw string runs from an `r`, hashes and a quote to the
/// next quote with as many hashes behind it.
pub open spec fn scan_step(s: RonScan, c: char) -> RonScan {
    match s.mode {
        RonMode::Code => code_step(s, c),
        RonMode::Slash => if c == '/' {
            scan_in(RonMode::LineComment, false)
        } else if c == '*' {
            scan_in(RonMode::BlockComment { level: 1, pending: 0 }, false)
        } else {
            code_step(scan_in(RonMode::Code, false), c)
        },
        RonMode::LineComment => if c == '\n' {
            scan_in(RonMode::Code, false)
        } else {
            s
        },
        RonMode::BlockComment { level, pending } => if pending == 1 && c == '*' {
            scan_in(
                RonMode::BlockComment {
                    level: if level < usize::MAX {
                        (level + 1) as usize
                    } else {
                        level
                    },
                    pending: 0,
                },
                false,
            )
        } else if pending == 2 && c == '/' {
            if level <= 1 {
                scan_in(RonMode::Code, false)
            } else {
                scan_in(RonMode::BlockComment { level: (level - 1) as usize, pending: 0 }, false)
            }
        } else if c == '/' {
            scan_in(RonMode::BlockComment { level, pending: 1 }, false)
        } else if c == '*' {
            scan_in(RonMode::BlockComment { level, pending: 2 }, false)
        } else {
            scan_in(RonMode::BlockComment { level, pending: 0 }, false)
        },
        RonMode::Text { escaped } => if escaped {
            scan_in(RonMode::Text { escaped: false }, false)
        } else if c == '\\' {
            scan_in(RonMode::Text { escaped: true }, false)
        } else if c == '"' {
            scan_in(RonMode::Code, false)
        } else {
            s
        },
        RonMode::Character { escaped } => if escaped {
            scan_in(RonMode::Character { escaped: false }, false)
        } else if c == '\\' {
            scan_in(RonMode::Character { escaped: true }, false)
        } else if c == '\'' {
            scan_in(RonMode::Code, false)
        } else {
            s
        },
        RonMode::RawStart { hashes } => if c == '#' {
            scan_in(
                RonMode::RawStart {
                    hashes: if hashes < usize::MAX {
                        (hashes + 1) as usize
                    } else {
                        hashes
                    },
                },
                false,
            )
        } else if c == '"' {
            scan_in(RonMode::Raw { hashes, closing: false, matched: 0 }, false)
        } else {
            code_step(scan_in(RonMode::Code, hashes == 0), c)
        },
        RonMode::Raw { hashes, closing, matched } => if c == '"' {
            if hashes == 0 {
                scan_in(RonMode::Code, false)
            } else {
                scan_in(RonMode::Raw { hashes, closing: true, matched: 0 }, false)
            }
        } else if c == '#' && closing {
            if matched + 1 >= hashes {
                scan_in(RonMode::Code, false)
            } else {
                scan_in(RonMode::Raw { hashes, closing: true, matched: (matched + 1) as usize }, false)
            }
        } else {
            scan_in(RonMode::Raw { hashes, closing: false, matched: 0 }, false)
        },
    }
}

/// Whether the guard, at `s`, gets through the rest of a document without
/// finding a number that may be too large.
pub open spec fn scan_passes(text: Seq<char>, s: RonScan) -> bool
    decreases text.len(),
{
    if text.len() == 0 {
        true
    } else {
        let next = scan_step(s, text[0]);
        !next.failed && scan_passes(text.drop_first(), next)
    }
}

/// No number of the document can be too large for a float: every number,
/// outside of comments and of string and character literals, has digits
/// and an exponent that come to no more than [`MAX_MAGNITUDE`].
pub open spec fn ron_numbers_are_small(text: Seq<char>) -> bool {
    scan_passes(text, scan_start())
}

fn is_name_char(c: char) -> (r: bool)
    ensures
        r == name_char(c),
{
    ('a' <= c && c <= 'z') || ('A' <= c && c <= 'Z') || ('0' <= c && c <= '9') || c == '_'
}

fn value_of_digit(c: char) -> (r: usize)
    ensures
        r == digit_value(c),
{
    if c == '1' {
        1
    } else if c == '2' {
        2
    } else if c == '3' {
        3
    } else if c == '4' {
        4
    } else if c == '5' {
        5
    } else if c == '6' {
        6
    } else if c == '7' {
        7
    } else if c == '8' {
        8
    } else if c == '9' {
        9
    } else {
        0
    }
}

fn enter(mode: RonMode, after_name: bool) -> (r: RonScan)
    ensures
        r == scan_in(mode, after_name),
{
    RonScan {
        mode,
        failed: false,
        after_name,
        in_number: false,
        digits: 0,
        exponent_part: 0,
        exponent_negative: false,
        exponent: 0,
    }
}

fn step_in_code(s: RonScan, c: char) -> (r: RonScan)
    ensures
        r == code_step(s, c),
{
    let is_digit = '0' <= c && c <= '9';
    let is_mark = c == 'e' || c == 'E';
    let is_sign = c == '+' || c == '-';
    if is_digit || is_mark || is_sign || c == '.' {
        let in_number = s.in_number || (!is_mark && !s.after_name);
        if !in_number {
            enter(RonMode::Code, is_name_char(c))
        } else if is_digit {
            let digits: usize = if s.digits < 1000 {
                s.digits + 1
            } else {
                s.digits
            };
            let exponent: usize = if s.exponent_part == 0 {
                0
            } else if s.exponent > 99 {
                1000
            } else {
                s.exponent * 10 + value_of_digit(c)
            };
            let counted: usize = if s.exponent_negative {
                0
            } else {
                exponent
            };
            RonScan {
                mode: RonMode::Code,
                failed: digits > MAX_MAGNITUDE || counted > MAX_MAGNITUDE - digits,
                after_name: true,
                in_number: true,
                digits,
                exponent_part: if s.exponent_part == 0 {
                    0
                } else {
                    3
                },
                exponent_negative: s.exponent_negative,
                exponent,
            }
        } else if is_mark {
            RonScan {
                mode: RonMode::Code,
                failed: false,
                after_name: true,
                in_number: true,
                digits: s.digits,
                exponent_part: 1,
                exponent_negative: false,
                exponent: 0,
            }
        } else if is_sign && s.exponent_part == 1 {
            RonScan {
                mode: RonMode::Code,
                failed: false,
                after_name: false,
                in_number: true,
                digits: s.digits,
                exponent_part: 2,
                exponent_negative: c == '-',
                exponent: 0,
            }
        } else {
            RonScan {
                mode: RonMode::Code,
                failed: false,
                after_name: false,
                in_number: true,
                digits: s.digits,
                exponent_part: 0,
                exponent_negative: false,
                exponent: 0,
            }
        }
    } else if c == '"' {
        enter(RonMode::Text { escaped: false }, false)
    } else if c == '\'' {
        enter(RonMode::Character { escaped: false }, false)
    } else if c == '/' {
        enter(RonMode::Slash, false)
    } else if c == 'r' && !s.after_name {
        enter(RonMode::RawStart { hashes: 0 }, true)
    } else {
        enter(RonMode::Code, is_name_char(c))
    }
}

fn step(s: RonScan, c: char) -> (r: RonScan)
    ensures
        r == scan_step(s, c),
{
    match s.mode {
        RonMode::Code => step_in_code(s, c),
        RonMode::Slash => {
            if c == '/' {
                enter(RonMode::LineComment, false)
            } else if c == '*' {
                enter(RonMode::BlockComment { level: 1, pending: 0 }, false)
            } else {
                step_in_code(enter(RonMode::Code, false), c)
            }
        },
        RonMode::LineComment => {
            if c == '\n' {
                enter(RonMode::Code, false)
            } else {
                s
            }
        },
        RonMode::BlockComment { level, pending } => {
            if pending == 1 && c == '*' {
                let deeper: usize = if level < usize::MAX {
                    level + 1
                } else {
                    level
                };
                enter(RonMode::BlockComment { level: deeper, pending: 0 }, false)
            } else if pending == 2 && c == '/' {
                if level <= 1 {
                    enter(RonMode::Code, false)
                } else {
                    enter(RonMode::BlockComment { level: level - 1, pending: 0 }, false)
                }
            } else if c == '/' {
                enter(RonMode::BlockComment { level, pending: 1 }, false)
            } else if c == '*' {
                enter(RonMode::BlockComment { level, pending: 2 }, false)
            } else {
                enter(RonMode::BlockComment { level, pending: 0 }, false)
            }
        },
        RonMode::Text { escaped } => {
            if escaped {
                enter(RonMode::Text { escaped: false }, false)
            } else if c == '\\' {
                enter(RonMode::Text { escaped: true }, false)
            } else if c == '"' {
                enter(RonMode::Code, false)
            } else {
                s
            }
        },
        RonMode::Character { escaped } => {
            if escaped {
                enter(RonMode::Character { escaped: false }, false)
            } else if c == '\\' {
                enter(RonMode::Character { escaped: true }, false)
            } else if c == '\'' {
                enter(RonMode::Code, false)
            } else {
                s
            }
        },
        RonMode::RawStart { hashes } => {
            if c == '#' {
                let more: usize = if hashes < usize::MAX {
                    hashes + 1
                } else {
                    hashes
                };
                enter(RonMode::RawStart { hashes: more }, false)
            } else if c == '"' {
                enter(RonMode::Raw { hashes, closing: false, matched: 0 }, false)
            } else {
                step_in_code(enter(RonMode::Code, hashes == 0), c)
            }
        },
        RonMode::Raw { hashes, closing, matched } => {
            if c == '"' {
                if hashes == 0 {
                    enter(RonMode::Code, false)
                } else {
                    enter(RonMode::Raw { hashes, closing: true, matched: 0 }, false)
                }
            } else if c == '#' && closing {
                if hashes == 0 || matched >= hashes - 1 {
                    enter(RonMode::Code, false)
                } else {
                    enter(RonMode::Raw { hashes, closing: true, matched: matched + 1 }, false)
                }
            } else {
                enter(RonMode::Raw { hashes, closing: false, matched: 0 }, false)
            }
        },
    }
}

/// Whether no number of the document can be too large for a float.
pub fn ron_has_small_numbers(text: &str) -> (r: bool)
    ensures
        r == ron_numbers_are_small(text@),
{
    let chars = chars_of(text);
    let mut state = enter(RonMode::Code, false);
    let mut i: usize = 0;
    assert(text@.skip(0) =~= text@);
    while i < chars.len()
        invariant
            i <= chars.len(),
            chars@ == text@,
            ron_numbers_are_small(text@) == scan_passes(text@.skip(i as int), state),
        decreases chars.len() - i,
    {
        proof {
            let rest = text@.skip(i as int);
            assert(rest[0] == chars@[i as int]);
            assert(rest.drop_first() =~= text@.skip(i + 1));
        }
        state = step(state, chars[i]);
        if state.failed {
            return false;
        }
        i = i + 1;
    }
    true
}

} // verus!
