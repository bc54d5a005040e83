//! The line classifier: given one line of text and the configured
//! comment-prefix character, decides which of comment, section, option or
//! blank the line is — or that it is malformed — and extracts the trimmed
//! substrings that belong to it.

use vstd::prelude::*;
use vstd::string::StrSliceExecFns;

use crate::text::{
    find_char, find_idx, is_ws, lemma_find_idx_props, trim_spec, trim_start_spec, trim_start_str,
    trim_str,
};

verus! {

/// The classification of one line, at the specification level.
pub enum LineClass {
    /// Nothing but white-space.
    Blank,
    /// A comment: the text after the prefix, with leading white-space
    /// trimmed.
    Comment { text: Seq<char> },
    /// A section header: the trimmed name between the brackets.
    Section { name: Seq<char> },
    /// A key/value option: the trimmed text on either side of the first
    /// `=` sign.
    KeyValue { key: Seq<char>, value: Seq<char> },
    /// None of the recognized forms.
    Invalid,
}

/// The classification of one line, carrying the extracted slices.
pub enum LineKind<'a> {
    Blank,
    Comment(&'a str),
    Section(&'a str),
    KeyValue(&'a str, &'a str),
    Invalid,
}

impl<'a> View for LineKind<'a> {
    type V = LineClass;

    open spec fn view(&self) -> LineClass {
        match self {
            LineKind::Blank => LineClass::Blank,
            LineKind::Comment(text) => LineClass::Comment { text: text@ },
            LineKind::Section(name) => LineClass::Section { name: name@ },
            LineKind::KeyValue(key, value) => LineClass::KeyValue { key: key@, value: value@ },
            LineKind::Invalid => LineClass::Invalid,
        }
    }
}

/// Whether `c` is one byte long in UTF-8. Only such a character can match
/// the one-byte prefix inspection that classification performs, so a
/// multi-byte first character falls through to option handling.
pub open spec fn fits_one_byte(c: char) -> bool {
    (c as u32) < 128
}

/// What one line, its trailing line terminator already stripped,
/// represents.
///
/// After leading white-space is dropped: an empty line is blank; a line
/// opening with `[` is a section when a closing `]` follows (anything
/// after `]` is ignored) and malformed otherwise; a line opening with the
/// one-byte comment prefix is a comment; any other line is a key/value
/// option when it holds `=` and malformed otherwise.
pub open spec fn classify_spec(line: Seq<char>, start_comment: char) -> LineClass {
    let t = trim_start_spec(line);
    if t.len() == 0 {
        LineClass::Blank
    } else if t[0] == '[' {
        let rest = t.subrange(1, t.len() as int);
        if find_idx(rest, ']') < rest.len() {
            LineClass::Section { name: trim_spec(rest.subrange(0, find_idx(rest, ']'))) }
        } else {
            LineClass::Invalid
        }
    } else if fits_one_byte(t[0]) && t[0] == start_comment {
        LineClass::Comment { text: trim_start_spec(t.subrange(1, t.len() as int)) }
    } else if find_idx(t, '=') < t.len() {
        LineClass::KeyValue {
            key: trim_spec(t.subrange(0, find_idx(t, '='))),
            value: trim_spec(t.subrange(find_idx(t, '=') + 1, t.len() as int)),
        }
    } else {
        LineClass::Invalid
    }
}

/// Classify one line, its trailing line terminator already stripped,
/// against the given comment-prefix character.
///
/// The first significant character is inspected as a whole character, so
/// classification never splits the line inside a multi-byte sequence.
pub fn classify<'a>(line: &'a str, start_comment: char) -> (r: LineKind<'a>)
    ensures
        r@ == classify_spec(line@, start_comment),
{
    let t = trim_start_str(line);
    let n = t.unicode_len();
    if n == 0 {
        return LineKind::Blank;
    }
    let c0 = t.get_char(0);
    if c0 == '[' {
        let rest = t.substring_char(1, n);
        match find_char(rest, ']') {
            Some(p) => {
                proof {
                    lemma_find_idx_props(rest@, ']');
                }
                let name = trim_str(rest.substring_char(0, p));
                LineKind::Section(name)
            },
            None => LineKind::Invalid,
        }
    } else if (c0 as u32) < 128 && c0 == start_comment {
        let rest = t.substring_char(1, n);
        LineKind::Comment(trim_start_str(rest))
    } else {
        match find_char(t, '=') {
            Some(p) => {
                let key = trim_str(t.substring_char(0, p));
                let value = trim_str(t.substring_char(p + 1, n));
                LineKind::KeyValue(key, value)
            },
            None => LineKind::Invalid,
        }
    }
}

} // verus!
