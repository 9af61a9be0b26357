//! Positions in an input text: the byte offset from the start of the text and
//! the 1-based line number at that offset.
use vstd::prelude::*;
use vstd::string::StringSliceAdditionalSpecFns;

verus! {

/// Number of line feed bytes in `b`.
pub open spec fn newline_count(b: Seq<u8>) -> nat
    decreases b.len(),
{
    if b.len() == 0 {
        0
    } else {
        newline_count(b.drop_last()) + (if b.last() == 10u8 {
            1nat
        } else {
            0nat
        })
    }
}

/// The mathematical content of a [`Span`]: the whole input, the byte offset
/// into it and the line number there.
pub struct SpanView {
    pub input: Seq<u8>,
    pub offset: int,
    pub line: int,
}

/// The position `p` of `s`, with its line number.
pub open spec fn span_at(s: Seq<u8>, p: int) -> SpanView {
    SpanView { input: s, offset: p, line: 1 + newline_count(s.take(p)) as int }
}

/// A position fits its input, and every line number of the input fits a `u32`.
pub open spec fn well_formed_view(v: SpanView) -> bool {
    &&& 0 <= v.offset <= v.input.len()
    &&& v == span_at(v.input, v.offset)
    &&& newline_count(v.input) < u32::MAX
}

pub proof fn lemma_newline_count_split(a: Seq<u8>, b: Seq<u8>)
    ensures
        newline_count(a + b) == newline_count(a) + newline_count(b),
    decreases b.len(),
{
    if b.len() == 0 {
        assert(a + b =~= a);
    } else {
        lemma_newline_count_split(a, b.drop_last());
        assert((a + b).drop_last() =~= a + b.drop_last());
    }
}

pub proof fn lemma_newline_count_prefix(s: Seq<u8>, p: int, q: int)
    requires
        0 <= p <= q <= s.len(),
    ensures
        newline_count(s.take(p)) <= newline_count(s.take(q)),
        newline_count(s.take(q)) == newline_count(s.take(p)) + newline_count(s.subrange(p, q)),
{
    lemma_newline_count_split(s.take(p), s.subrange(p, q));
    assert(s.take(p) + s.subrange(p, q) =~= s.take(q));
}

/// A position in an input text, as nom_locate's `LocatedSpan` keeps it: the
/// whole input, the byte offset of the position and the line number there.
/// The text that remains to be parsed is the input from the offset on.
#[derive(Clone, Copy, Debug, PartialEq, Eq)]
pub struct Span<'a> {
    input: &'a [u8],
    offset: usize,
    line: u32,
}

impl<'a> View for Span<'a> {
    type V = SpanView;

    closed spec fn view(&self) -> SpanView {
        SpanView { input: self.input@, offset: self.offset as int, line: self.line as int }
    }
}

impl<'a> Span<'a> {
    #[verifier::type_invariant]
    spec fn well_formed(self) -> bool {
        well_formed_view(self@)
    }

    /// The start of the text `text`.
    pub fn new(text: &'a str) -> (r: Span<'a>)
        requires
            newline_count(text.spec_bytes()) < u32::MAX,
        ensures
            r@ == span_at(text.spec_bytes(), 0),
    {
        Self::from_bytes(text.as_bytes())
    }

    /// The start of the input `input`.
    pub fn from_bytes(input: &'a [u8]) -> (r: Span<'a>)
        requires
            newline_count(input@) < u32::MAX,
        ensures
            r@ == span_at(input@, 0),
    {
        assert(input@.take(0) =~= Seq::<u8>::empty());
        Span { input, offset: 0, line: 1 }
    }

    /// Every span is well formed.
    pub fn check(&self)
        ensures
            well_formed_view(self@),
            self@.input.len() <= usize::MAX,
    {
        proof {
            use_type_invariant(self);
            assert(self.input@.len() == vstd::slice::spec_slice_len(self.input));
        }
    }

    /// The whole input this span points into.
    pub fn input(&self) -> (r: &'a [u8])
        ensures
            r@ == self@.input,
    {
        self.input
    }

    /// The byte offset of this position.
    pub fn location_offset(&self) -> (r: usize)
        ensures
            r == self@.offset,
    {
        self.offset
    }

    /// The line number of this position, starting at 1.
    pub fn location_line(&self) -> (r: u32)
        ensures
            r == self@.line,
            r == 1 + newline_count(self@.input.take(self@.offset)),
    {
        proof {
            use_type_invariant(self);
        }
        self.line
    }

    /// The text that remains from this position on.
    pub fn fragment(&self) -> (r: &'a [u8])
        ensures
            r@ == self@.input.skip(self@.offset),
    {
        proof {
            use_type_invariant(self);
        }
        vstd::slice::slice_subrange(self.input, self.offset, self.input.len())
    }

    /// The position `q` of the same input, at or after this one.
    pub fn advance_to(&self, q: usize) -> (r: Span<'a>)
        requires
            self@.offset <= q <= self@.input.len(),
        ensures
            r@ == span_at(self@.input, q as int),
    {
        proof {
            use_type_invariant(self);
        }
        let mut i = self.offset;
        let mut line = self.line;
        while i < q
            invariant
                well_formed_view(self@),
                self@.offset <= i <= q <= self@.input.len(),
                line == 1 + newline_count(self.input@.take(i as int)),
            decreases q - i,
        {
            proof {
                assert(self.input@.take(i + 1).drop_last() =~= self.input@.take(i as int));
                lemma_newline_count_prefix(self.input@, i + 1, self.input@.len() as int);
                assert(self.input@.take(self.input@.len() as int) =~= self.input@);
            }
            if self.input[i] == 10u8 {
                line = line + 1;
            }
            i = i + 1;
        }
        Span { input: self.input, offset: q, line }
    }
}

} // verus!
