//! The parser driver: owns the handler and the comment-prefix
//! configuration, walks the input line by line with a 1-based line
//! counter, classifies each line and dispatches it to the handler,
//! stopping at the first syntax error or handler rejection.
//!
//! The driver keeps a ghost log of the handler calls it has dispatched, in
//! order; every contract of the driver speaks of that log, so what the
//! handler was shown is pinned down even though the handler itself may
//! accept or reject as it pleases.

use vstd::prelude::*;
use vstd::string::StrSliceExecFns;

use crate::classify::{classify, classify_spec, LineClass, LineKind};
use crate::text::{trim_end_spec, trim_end_str};

verus! {

/// One handler call: a section header, a key/value option, or a comment.
pub enum IniEvent {
    Section { name: Seq<char> },
    KeyValue { key: Seq<char>, value: Seq<char> },
    Comment { text: Seq<char> },
}

/// Interface for the INI format handler. The handler owns all
/// interpretation and storage policy; returning an error from any method
/// aborts the parse at that line.
pub trait IniHandler {
    type Error;

    /// Called when a section header is found.
    fn section(&mut self, name: &str) -> Result<(), Self::Error>;

    /// Called when a key/value option is found.
    fn option(&mut self, key: &str, value: &str) -> Result<(), Self::Error>;

    /// Called for each comment; ignores it unless overridden.
    fn comment(&mut self, _text: &str) -> Result<(), Self::Error> {
        Ok(())
    }
}

/// Convenient error type for handlers that don't need detailed errors.
#[derive(Debug)]
pub struct IniHandlerError {}

/// Relies on `std::io::Error` as an opaque payload: the verified library
/// stores and returns it in [`IniError::Io`] but never constructs or
/// inspects one; only unverified input-reading code around the library
/// does.
#[verifier::external_type_specification]
#[verifier::external_body]
pub struct ExIoError(std::io::Error);

/// Errors for INI format parsing.
#[derive(Debug)]
pub enum IniError<HandlerError> {
    /// A line that matches none of the recognized forms, with its 1-based
    /// line number.
    InvalidLine(usize),
    /// The handler rejected a section, option or comment; carries the
    /// handler's own error value.
    Handler(HandlerError),
    /// Reading the input failed.
    Io(std::io::Error),
}

/// What one dispatched line guarantees: how the log of handler calls
/// grows, and which result comes back, by the line's classification.
pub open spec fn line_outcome<HandlerError>(
    class: LineClass,
    before: Seq<IniEvent>,
    after: Seq<IniEvent>,
    r: Result<(), IniError<HandlerError>>,
    lineno: usize,
) -> bool {
    match class {
        LineClass::Blank => r is Ok && after == before,
        LineClass::Invalid => r == Err::<(), IniError<HandlerError>>(
            IniError::InvalidLine(lineno),
        ) && after == before,
        LineClass::Section { name } => after == before.push(IniEvent::Section { name }) && (r
            is Ok || r matches Err(IniError::Handler(_))),
        LineClass::KeyValue { key, value } => after == before.push(
            IniEvent::KeyValue { key, value },
        ) && (r is Ok || r matches Err(IniError::Handler(_))),
        LineClass::Comment { text } => after == before.push(IniEvent::Comment { text }) && (r
            is Ok || r matches Err(IniError::Handler(_))),
    }
}

/// The views of a sequence of owned lines.
pub open spec fn line_views(lines: Seq<String>) -> Seq<Seq<char>> {
    lines.map_values(|l: String| l@)
}

/// The classification of one physical line: its trailing white-space is
/// stripped before it is classified.
pub open spec fn class_of_line(line: Seq<char>, start_comment: char) -> LineClass {
    classify_spec(trim_end_spec(line), start_comment)
}

/// The handler call a classified line gives rise to: none for a blank or
/// malformed line, exactly one otherwise.
pub open spec fn line_events(class: LineClass) -> Seq<IniEvent> {
    match class {
        LineClass::Blank => Seq::empty(),
        LineClass::Invalid => Seq::empty(),
        LineClass::Section { name } => seq![IniEvent::Section { name }],
        LineClass::KeyValue { key, value } => seq![IniEvent::KeyValue { key, value }],
        LineClass::Comment { text } => seq![IniEvent::Comment { text }],
    }
}

/// The handler calls that the first `j` lines give rise to, in line
/// order.
pub open spec fn events_up_to(lines: Seq<Seq<char>>, start_comment: char, j: int) -> Seq<IniEvent>
    decreases j,
{
    if j <= 0 {
        Seq::empty()
    } else {
        events_up_to(lines, start_comment, j - 1) + line_events(
            class_of_line(lines[j - 1], start_comment),
        )
    }
}

/// Whether none of the first `j` lines is malformed.
pub open spec fn well_formed_up_to(lines: Seq<Seq<char>>, start_comment: char, j: int) -> bool {
    forall|k: int|
        0 <= k < j ==> !(#[trigger] class_of_line(lines[k], start_comment) is Invalid)
}

/// What a whole parse guarantees, by its result.
///
/// On success every line was well formed and the handler saw every call
/// the input gives rise to. A syntax error carries the 1-based number of
/// the first malformed line; the lines before it were dispatched in full.
/// A handler error means some well-formed, non-blank line was rejected:
/// the rejected call is the last one in the log. An I/O error never
/// arises here.
pub open spec fn parse_outcome<HandlerError>(
    lines: Seq<Seq<char>>,
    start_comment: char,
    before: Seq<IniEvent>,
    after: Seq<IniEvent>,
    r: Result<(), IniError<HandlerError>>,
) -> bool {
    match r {
        Ok(()) => {
            &&& well_formed_up_to(lines, start_comment, lines.len() as int)
            &&& after == before + events_up_to(lines, start_comment, lines.len() as int)
        },
        Err(IniError::InvalidLine(l)) => {
            &&& 1 <= l <= lines.len()
            &&& class_of_line(lines[l - 1], start_comment) is Invalid
            &&& well_formed_up_to(lines, start_comment, l - 1)
            &&& after == before + events_up_to(lines, start_comment, l - 1)
        },
        Err(IniError::Handler(_)) => exists|j: int|
            {
                &&& 0 <= j < lines.len()
                &&& well_formed_up_to(lines, start_comment, j + 1)
                &&& !(#[trigger] class_of_line(lines[j], start_comment) is Blank)
                &&& after == before + events_up_to(lines, start_comment, j + 1)
            },
        Err(IniError::Io(_)) => false,
    }
}

/// INI format parser.
pub struct IniParser<H> {
    handler: H,
    start_comment: char,
    calls: Ghost<Seq<IniEvent>>,
}

impl<H> IniParser<H> {
    /// The configured comment-prefix character.
    pub closed spec fn comment_prefix(&self) -> char {
        self.start_comment
    }

    /// The log of handler calls this parser has dispatched, in order.
    pub closed spec fn dispatched(&self) -> Seq<IniEvent> {
        self.calls@
    }

    /// The handler, as a value, for specification purposes.
    pub closed spec fn handler_spec(&self) -> H {
        self.handler
    }

    /// Read access to the handler, to inspect what it accumulated.
    pub fn handler(&self) -> (r: &H)
        ensures
            r == self.handler_spec(),
    {
        &self.handler
    }

    /// Consume the parser and hand the handler back.
    pub fn into_handler(self) -> (r: H)
        ensures
            r == self.handler_spec(),
    {
        self.handler
    }
}

impl<H: IniHandler> IniParser<H> {
    /// Create a parser using the given handler and `;` as start of
    /// comment.
    pub fn new(handler: H) -> (r: IniParser<H>)
        ensures
            r.handler_spec() == handler,
            r.comment_prefix() == ';',
            r.dispatched() == Seq::<IniEvent>::empty(),
    {
        Self::with_start_comment(handler, ';')
    }

    /// Create a parser using the given character as start of comment.
    ///
    /// Classification goes by the first significant character alone, and
    /// section markers are recognized before comment markers: a prefix of
    /// `[` never takes effect, and a prefix of more than one byte in
    /// UTF-8 matches no line.
    pub fn with_start_comment(handler: H, start_comment: char) -> (r: IniParser<H>)
        ensures
            r.handler_spec() == handler,
            r.comment_prefix() == start_comment,
            r.dispatched() == Seq::<IniEvent>::empty(),
    {
        IniParser { handler, start_comment, calls: Ghost(Seq::empty()) }
    }

    /// Parse one line without its trailing line terminator: classify it
    /// and dispatch the matching handler call, if any.
    ///
    /// A malformed line is reported as a syntax error carrying `lineno`
    /// and reaches the handler in no way; a rejected call surfaces the
    /// handler's error.
    pub fn parse_ini_line(&mut self, line: &str, lineno: usize) -> (r: Result<
        (),
        IniError<H::Error>,
    >)
        ensures
            final(self).comment_prefix() == old(self).comment_prefix(),
            line_outcome(
                classify_spec(line@, old(self).comment_prefix()),
                old(self).dispatched(),
                final(self).dispatched(),
                r,
                lineno,
            ),
    {
        match classify(line, self.start_comment) {
            LineKind::Blank => Ok(()),
            LineKind::Section(name) => {
                self.calls = Ghost(self.calls@.push(IniEvent::Section { name: name@ }));
                match self.handler.section(name) {
                    Ok(()) => Ok(()),
                    Err(e) => Err(IniError::Handler(e)),
                }
            },
            LineKind::KeyValue(key, value) => {
                self.calls = Ghost(
                    self.calls@.push(IniEvent::KeyValue { key: key@, value: value@ }),
                );
                match self.handler.option(key, value) {
                    Ok(()) => Ok(()),
                    Err(e) => Err(IniError::Handler(e)),
                }
            },
            LineKind::Comment(text) => {
                self.calls = Ghost(self.calls@.push(IniEvent::Comment { text: text@ }));
                match self.handler.comment(text) {
                    Ok(()) => Ok(()),
                    Err(e) => Err(IniError::Handler(e)),
                }
            },
            LineKind::Invalid => Err(IniError::InvalidLine(lineno)),
        }
    }

    /// Parse input already split into physical lines, their line
    /// terminators stripped, in order; line numbers are 1-based.
    pub fn parse_buffered(&mut self, lines: &Vec<String>) -> (r: Result<(), IniError<H::Error>>)
        ensures
            final(self).comment_prefix() == old(self).comment_prefix(),
            parse_outcome(
                line_views(lines@),
                old(self).comment_prefix(),
                old(self).dispatched(),
                final(self).dispatched(),
                r,
            ),
    {
        let ghost lseq = line_views(lines@);
        let ghost prefix = self.comment_prefix();
        let ghost pre = self.dispatched();
        let n = lines.len();
        let mut i: usize = 0;
        while i < n
            invariant
                n == lines@.len(),
                0 <= i <= n,
                lseq == line_views(lines@),
                prefix == old(self).comment_prefix(),
                pre == old(self).dispatched(),
                self.comment_prefix() == prefix,
                self.dispatched() == pre + events_up_to(lseq, prefix, i as int),
                well_formed_up_to(lseq, prefix, i as int),
            decreases n - i,
        {
            let trimmed = trim_end_str(lines[i].as_str());
            let ghost before = self.dispatched();
            let res = self.parse_ini_line(trimmed, i + 1);
            proof {
                assert(lseq[i as int] == lines@[i as int]@);
                let class = class_of_line(lseq[i as int], prefix);
                assert(classify_spec(trimmed@, prefix) == class);
                assert(events_up_to(lseq, prefix, i + 1) == events_up_to(lseq, prefix, i as int)
                    + line_events(class));
                match class {
                    LineClass::Blank => {
                        assert(before + Seq::<IniEvent>::empty() =~= before);
                    },
                    LineClass::Invalid => {},
                    LineClass::Section { name } => {
                        assert(before.push(IniEvent::Section { name }) =~= pre + events_up_to(
                            lseq,
                            prefix,
                            i + 1,
                        ));
                    },
                    LineClass::KeyValue { key, value } => {
                        assert(before.push(IniEvent::KeyValue { key, value }) =~= pre
                            + events_up_to(lseq, prefix, i + 1));
                    },
                    LineClass::Comment { text } => {
                        assert(before.push(IniEvent::Comment { text }) =~= pre + events_up_to(
                            lseq,
                            prefix,
                            i + 1,
                        ));
                    },
                }
            }
            match res {
                Ok(()) => {},
                Err(e) => {
                    proof {
                        let class = class_of_line(lseq[i as int], prefix);
                        if !(class is Invalid) {
                            assert(well_formed_up_to(lseq, prefix, i + 1));
                            assert(parse_outcome(lseq, prefix, pre, self.dispatched(), Err::<
                                (),
                                IniError<H::Error>,
                            >(e)));
                        }
                    }
                    return Err(e);
                },
            }
            i += 1;
        }
        Ok(())
    }
}

} // verus!
