//! The error every parser reports: where the parse failed, a message that
//! says why, and optional help.
use crate::span::{Span, SpanView, span_at};
use vstd::prelude::*;

verus! {

/// `String::push` appends one character.
pub assume_specification[ std::string::String::push ](s: &mut String, ch: char)
    ensures
        final(s)@ == old(s)@.push(ch),
;

/// What `format!("{:?}", t)` writes for a string slice `t`: the text in
/// double quotes, with Rust's escapes.
pub uninterp spec fn str_debug(t: Seq<char>) -> Seq<char>;

/// Rust's `Debug` text of a string slice, as `format!("{:?}", t)` writes it.
#[verifier::external_body]
fn debug_text(t: &str) -> (r: String)
    ensures
        r@ == str_debug(t@),
{
    format!("{:?}", t)
}

/// The kinds of failure of the basic parsers.
#[derive(Clone, Copy, PartialEq, Eq, Debug)]
pub enum ErrorKind {
    Tag,
    Alpha,
    Digit,
    CrLf,
    Float,
    Eof,
    SeparatedList,
    SeparatedNonEmptyList,
}

/// The name of an error kind, as `Debug` writes it.
pub open spec fn kind_name(kind: ErrorKind) -> Seq<char> {
    match kind {
        ErrorKind::Tag => "Tag"@,
        ErrorKind::Alpha => "Alpha"@,
        ErrorKind::Digit => "Digit"@,
        ErrorKind::CrLf => "CrLf"@,
        ErrorKind::Float => "Float"@,
        ErrorKind::Eof => "Eof"@,
        ErrorKind::SeparatedList => "SeparatedList"@,
        ErrorKind::SeparatedNonEmptyList => "SeparatedNonEmptyList"@,
    }
}

fn kind_name_text(kind: ErrorKind) -> (r: &'static str)
    ensures
        r@ == kind_name(kind),
{
    match kind {
        ErrorKind::Tag => "Tag",
        ErrorKind::Alpha => "Alpha",
        ErrorKind::Digit => "Digit",
        ErrorKind::CrLf => "CrLf",
        ErrorKind::Float => "Float",
        ErrorKind::Eof => "Eof",
        ErrorKind::SeparatedList => "SeparatedList",
        ErrorKind::SeparatedNonEmptyList => "SeparatedNonEmptyList",
    }
}

/// The message for a failure of the kind `kind`.
pub open spec fn kind_message(kind: ErrorKind) -> Seq<char> {
    match kind {
        ErrorKind::Tag => "got the incorrect symbol"@,
        ErrorKind::Float => "expected a decimal number here"@,
        _ => "parse error "@ + kind_name(kind),
    }
}

/// The message for a missing tag `t`.
pub open spec fn tag_message(t: Seq<char>) -> Seq<char> {
    "got the incorrect symbol, expected: "@ + str_debug(t)
}

/// The message for an unexpected character `c`.
pub open spec fn char_message(c: char) -> Seq<char> {
    "unexpected character '"@ + seq![c] + "'"@
}

/// The content of a [`ParseError`]: the byte offset where the parse failed,
/// the message and the help.
pub struct Problem {
    pub at: int,
    pub message: Seq<char>,
    pub help: Option<Seq<char>>,
}

/// How a parse fails, as nom's `Err`: more input is needed, a recoverable
/// error, or an unrecoverable failure.
pub enum Fault {
    Incomplete,
    Error(Problem),
    Failure(Problem),
}

/// The outcome of a parser: the offset of the rest of the input and the
/// value, or the way it failed.
pub type Outcome<V> = Result<(int, V), Fault>;

pub open spec fn opt_text(h: Option<String>) -> Option<Seq<char>> {
    match h {
        Some(t) => Some(t@),
        None => None,
    }
}

/// A recoverable error at `at` of the kind `kind`.
pub open spec fn kind_problem(at: int, kind: ErrorKind) -> Fault {
    Fault::Error(Problem { at, message: kind_message(kind), help: None })
}

/// A recoverable error at `at` for the missing tag `t`.
pub open spec fn tag_problem(at: int, t: Seq<char>) -> Fault {
    Fault::Error(Problem { at, message: tag_message(t), help: None })
}

/// Any error from parsing a flow file. The span locates the error in the
/// input, the message says why the parse failed, and the help is optional
/// additional context.
#[derive(Debug, PartialEq)]
pub struct ParseError<'a> {
    span: Span<'a>,
    pub message: String,
    pub help: Option<String>,
}

impl<'a> View for ParseError<'a> {
    type V = Problem;

    closed spec fn view(&self) -> Problem {
        Problem { at: self.span@.offset, message: self.message@, help: opt_text(self.help) }
    }
}

impl<'a> ParseError<'a> {
    /// The position of the error.
    pub closed spec fn spec_span(&self) -> SpanView {
        self.span@
    }

    pub fn new(message: String, help: Option<String>, span: Span<'a>) -> (r: ParseError<'a>)
        ensures
            r@ == (Problem { at: span@.offset, message: message@, help: opt_text(help) }),
            r.spec_span() == span@,
    {
        ParseError { span, message, help }
    }

    pub fn span(&self) -> (r: &Span<'a>)
        ensures
            r@ == self.spec_span(),
    {
        &self.span
    }

    /// The line of the error, starting at 1.
    pub fn line(&self) -> (r: u32)
        ensures
            r == self.spec_span().line,
            r == span_at(self.spec_span().input, self.spec_span().offset).line,
    {
        self.span.check();
        self.span.location_line()
    }

    /// The byte offset of the error.
    pub fn offset(&self) -> (r: usize)
        ensures
            r == self.spec_span().offset,
            r == self@.at,
            r <= self.spec_span().input.len(),
    {
        self.span.check();
        self.span.location_offset()
    }

    /// The text that describes any such error.
    pub fn to_string(&self) -> (r: String)
        ensures
            r@ == "Could not parse flow file"@,
    {
        String::from_str("Could not parse flow file")
    }

    /// The error for a failure of the kind `kind` at `input`.
    pub fn from_error_kind(input: Span<'a>, kind: ErrorKind) -> (r: ParseError<'a>)
        ensures
            r@ == (Problem { at: input@.offset, message: kind_message(kind), help: None }),
            r.spec_span() == input@,
    {
        let message = match kind {
            ErrorKind::Tag => String::from_str("got the incorrect symbol"),
            ErrorKind::Float => String::from_str("expected a decimal number here"),
            _ => {
                let mut m = String::from_str("parse error ");
                m.append(kind_name_text(kind));
                m
            },
        };
        ParseError::new(message, None, input)
    }

    /// Keeps the error that was already there.
    pub fn append(input: Span<'a>, kind: ErrorKind, other: ParseError<'a>) -> (r: ParseError<'a>)
        ensures
            r == other,
    {
        other
    }

    /// The error for an unexpected character `c` at `input`.
    pub fn from_char(input: Span<'a>, c: char) -> (r: ParseError<'a>)
        ensures
            r@ == (Problem { at: input@.offset, message: char_message(c), help: None }),
            r.spec_span() == input@,
    {
        let mut m = String::from_str("unexpected character '");
        m.push(c);
        assert(m@ =~= "unexpected character '"@ + seq![c]);
        m.append("'");
        ParseError::new(m, None, input)
    }

    /// The error for a missing tag `tag` at `input`.
    pub fn from_tag(input: Span<'a>, tag: &str) -> (r: ParseError<'a>)
        ensures
            r@ == (Problem { at: input@.offset, message: tag_message(tag@), help: None }),
            r.spec_span() == input@,
    {
        let mut m = String::from_str("got the incorrect symbol, expected: ");
        let shown = debug_text(tag);
        m.append(shown.as_str());
        ParseError::new(m, None, input)
    }
}

/// How a parser fails: nom's `Err`.
#[derive(Debug, PartialEq)]
pub enum ParseFailure<'a> {
    /// More input is needed.
    Incomplete,
    /// A recoverable error: an alternative may still match.
    Error(ParseError<'a>),
    /// An unrecoverable failure.
    Failure(ParseError<'a>),
}

/// What a parser returns: the rest of the input and the value, or how it
/// failed.
pub type IResult<'a, O> = Result<(Span<'a>, O), ParseFailure<'a>>;

/// The outcome that a parser result stands for.
pub open spec fn outcome<'a, O: DeepView>(r: &IResult<'a, O>) -> Outcome<O::V> {
    match r {
        Ok((rest, v)) => Ok((rest@.offset, v.deep_view())),
        Err(ParseFailure::Incomplete) => Err(Fault::Incomplete),
        Err(ParseFailure::Error(e)) => Err(Fault::Error(e@)),
        Err(ParseFailure::Failure(e)) => Err(Fault::Failure(e@)),
    }
}

/// Every position in the result points into the input `s`.
pub open spec fn located_in<'a, O>(r: &IResult<'a, O>, s: Seq<u8>) -> bool {
    match r {
        Ok((rest, _)) => rest@.input == s,
        Err(ParseFailure::Incomplete) => true,
        Err(ParseFailure::Error(e)) => e.spec_span().input == s,
        Err(ParseFailure::Failure(e)) => e.spec_span().input == s,
    }
}

/// A parser result that stands for the outcome `o` on the input `s`.
pub open spec fn yields<'a, O: DeepView>(r: &IResult<'a, O>, s: Seq<u8>, o: Outcome<O::V>) -> bool {
    outcome(r) == o && located_in(r, s)
}

} // verus!
