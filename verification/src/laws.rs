//! General properties of classification and dispatch, stated and proved
//! once and for all inputs.

use vstd::prelude::*;

use crate::classify::{classify_spec, fits_one_byte, LineClass};
use crate::parser::{class_of_line, events_up_to, line_events, IniEvent};
use crate::text::{
    find_idx, is_ws, lemma_find_idx_at, lemma_trim_end_at, lemma_trim_start_at, trim_spec,
    trim_start_spec,
};

verus! {

/// Whether a line of this classification gives rise to a handler call:
/// every form but blank and malformed does.
pub open spec fn is_actionable(class: LineClass) -> bool {
    !(class is Blank) && !(class is Invalid)
}

/// The number of the first `j` lines whose classification gives rise to a
/// handler call.
pub open spec fn actionable_count(lines: Seq<Seq<char>>, start_comment: char, j: int) -> int
    decreases j,
{
    if j <= 0 {
        0
    } else {
        actionable_count(lines, start_comment, j - 1) + if is_actionable(
            class_of_line(lines[j - 1], start_comment),
        ) {
            1 as int
        } else {
            0 as int
        }
    }
}

/// For any prefix of the input, the number of handler calls dispatched
/// equals the number of well-formed, non-blank lines in that prefix: one
/// call per such line, none for blank or malformed lines.
pub proof fn lemma_dispatch_count(lines: Seq<Seq<char>>, start_comment: char, j: int)
    requires
        0 <= j <= lines.len(),
    ensures
        events_up_to(lines, start_comment, j).len() == actionable_count(lines, start_comment, j),
    decreases j,
{
    if j > 0 {
        lemma_dispatch_count(lines, start_comment, j - 1);
    }
}

/// Parsing is deterministic: the sequence of handler calls that a
/// complete parse of some input dispatches is a function of the lines and
/// the comment prefix alone, so re-parsing the same input with a fresh
/// handler dispatches the identical sequence.
pub proof fn lemma_reparse_identical(
    lines: Seq<Seq<char>>,
    start_comment: char,
    first: Seq<IniEvent>,
    second: Seq<IniEvent>,
)
    requires
        first == events_up_to(lines, start_comment, lines.len() as int),
        second == events_up_to(lines, start_comment, lines.len() as int),
    ensures
        first == second,
{
}

/// A section line round-trips its name: `[` and `]` around the name, any
/// white-space padding inside the brackets, and anything at all after the
/// closing bracket classify as a section carrying exactly the name.
pub proof fn lemma_section_round_trip(
    name: Seq<char>,
    pad1: Seq<char>,
    pad2: Seq<char>,
    tail: Seq<char>,
    start_comment: char,
)
    requires
        name.len() > 0,
        !is_ws(name[0]),
        !is_ws(name[name.len() - 1]),
        forall|k: int| 0 <= k < name.len() ==> name[k] != ']',
        forall|k: int| 0 <= k < pad1.len() ==> is_ws(pad1[k]),
        forall|k: int| 0 <= k < pad2.len() ==> is_ws(pad2[k]),
    ensures
        classify_spec(seq!['['] + pad1 + name + pad2 + seq![']'] + tail, start_comment)
            == (LineClass::Section { name }),
{
    let line = seq!['['] + pad1 + name + pad2 + seq![']'] + tail;
    assert(line[0] == '[');
    assert(!is_ws('['));
    lemma_trim_start_at(line, 0);
    assert(trim_start_spec(line) =~= line);
    let rest = line.subrange(1, line.len() as int);
    let m = pad1.len() + name.len() + pad2.len();
    assert(rest =~= pad1 + name + pad2 + seq![']'] + tail);
    assert forall|k: int| 0 <= k < m implies rest[k] != ']' by {
        assert(!is_ws(']'));
        if k < pad1.len() {
            assert(rest[k] == pad1[k]);
        } else if k < pad1.len() + name.len() {
            assert(rest[k] == name[k - pad1.len()]);
        } else {
            assert(rest[k] == pad2[k - pad1.len() - name.len()]);
        }
    }
    assert(rest[m as int] == ']');
    lemma_find_idx_at(rest, ']', m as int);
    let interior = rest.subrange(0, m as int);
    assert(interior =~= pad1 + name + pad2);
    lemma_trim_start_at(interior, pad1.len() as int);
    let stripped = interior.subrange(pad1.len() as int, interior.len() as int);
    assert(stripped =~= name + pad2);
    lemma_trim_end_at(stripped, name.len() as int);
    assert(stripped.subrange(0, name.len() as int) =~= name);
}

/// A line that opens a section bracket but never closes it is malformed.
pub proof fn lemma_unclosed_section_invalid(line: Seq<char>, start_comment: char)
    requires
        trim_start_spec(line).len() > 0,
        trim_start_spec(line)[0] == '[',
        forall|k: int| 0 <= k < line.len() ==> line[k] != ']',
    ensures
        classify_spec(line, start_comment) is Invalid,
{
    let t = trim_start_spec(line);
    lemma_trim_start_is_suffix(line);
    let rest = t.subrange(1, t.len() as int);
    assert forall|k: int| 0 <= k < rest.len() implies rest[k] != ']' by {
        assert(rest[k] == line[line.len() - t.len() + 1 + k]);
    }
    lemma_find_idx_at(rest, ']', rest.len() as int);
}

/// Trimming the start of a sequence leaves a suffix of it.
pub proof fn lemma_trim_start_is_suffix(s: Seq<char>)
    ensures
        trim_start_spec(s).len() <= s.len(),
        trim_start_spec(s) == s.subrange(s.len() - trim_start_spec(s).len(), s.len() as int),
    decreases s.len(),
{
    if s.len() == 0 || !is_ws(s[0]) {
        assert(s.subrange(0, s.len() as int) =~= s);
    } else {
        lemma_trim_start_is_suffix(s.drop_first());
        let t = trim_start_spec(s);
        assert(s.drop_first().subrange(s.len() - 1 - t.len(), s.len() - 1) =~= s.subrange(
            s.len() - t.len(),
            s.len() as int,
        ));
    }
}

/// A line of white-space alone, the empty line included, is blank, and a
/// blank line gives rise to no handler call.
pub proof fn lemma_blank_line(line: Seq<char>, start_comment: char)
    requires
        forall|k: int| 0 <= k < line.len() ==> is_ws(line[k]),
    ensures
        classify_spec(line, start_comment) is Blank,
        line_events(classify_spec(line, start_comment)) == Seq::<IniEvent>::empty(),
{
    lemma_trim_start_at(line, line.len() as int);
}

/// A line whose first significant character is more than one byte long in
/// UTF-8 is never taken for a section or a comment, whatever the prefix:
/// it is a key/value option when it holds `=`, and malformed otherwise.
pub proof fn lemma_multibyte_first_char(line: Seq<char>, start_comment: char)
    requires
        trim_start_spec(line).len() > 0,
        !fits_one_byte(trim_start_spec(line)[0]),
    ensures
        ({
            let t = trim_start_spec(line);
            if find_idx(t, '=') < t.len() {
                classify_spec(line, start_comment) == (LineClass::KeyValue {
                    key: trim_spec(t.subrange(0, find_idx(t, '='))),
                    value: trim_spec(t.subrange(find_idx(t, '=') + 1, t.len() as int)),
                })
            } else {
                classify_spec(line, start_comment) is Invalid
            }
        }),
{
    let t = trim_start_spec(line);
    assert(t[0] != '[') by {
        assert(('[' as u32) < 128);
    }
}

} // verus!
