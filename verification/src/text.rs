//! The basic parsers that the file grammars are built from: tags, runs of
//! letters, digits or blanks, line endings and runs of characters.
use crate::errors::{
    kind_problem, tag_problem, ErrorKind, Fault, IResult, Outcome, ParseError, ParseFailure,
    yields,
};
use crate::span::Span;
use vstd::prelude::*;
use vstd::string::StringSliceAdditionalSpecFns;
use vstd::utf8::encode_utf8;

verus! {

/// Byte classes that the basic parsers scan for.
#[derive(Clone, Copy, PartialEq, Eq)]
pub enum CharClass {
    /// ASCII letters.
    Alpha,
    /// ASCII decimal digits.
    Digit,
    /// Space and tab.
    Blank,
    /// Bytes that continue a UTF-8 encoded character.
    Continuation,
    /// Bytes that can occur in the text of a floating point number,
    /// `nan`, `inf` or `infinity` in any case.
    Number,
}

pub open spec fn is_digit_byte(b: u8) -> bool {
    48 <= b <= 57
}

pub open spec fn in_class(c: CharClass, b: u8) -> bool {
    match c {
        CharClass::Alpha => (65 <= b <= 90) || (97 <= b <= 122),
        CharClass::Digit => is_digit_byte(b),
        CharClass::Blank => b == 32 || b == 9,
        CharClass::Continuation => 128 <= b < 192,
        CharClass::Number => {
            ||| is_digit_byte(b)
            ||| b == 43 || b == 45 || b == 46 || b == 69 || b == 101
            ||| b == 65 || b == 70 || b == 73 || b == 78 || b == 84 || b == 89
            ||| b == 97 || b == 102 || b == 105 || b == 110 || b == 116 || b == 121
        },
    }
}

/// The end of the run of bytes of the class `c` that starts at `p`.
pub open spec fn run_end(s: Seq<u8>, p: int, c: CharClass) -> int
    decreases s.len() - p,
{
    if p < 0 || p >= s.len() || !in_class(c, s[p]) {
        p
    } else {
        run_end(s, p + 1, c)
    }
}

pub proof fn lemma_run_end(s: Seq<u8>, p: int, c: CharClass)
    requires
        0 <= p <= s.len(),
    ensures
        p <= run_end(s, p, c) <= s.len(),
        forall|i: int| p <= i < run_end(s, p, c) ==> in_class(c, #[trigger] s[i]),
        run_end(s, p, c) < s.len() ==> !in_class(c, s[run_end(s, p, c)]),
    decreases s.len() - p,
{
    if p < s.len() && in_class(c, s[p]) {
        lemma_run_end(s, p + 1, c);
    }
}

/// The text of ASCII bytes.
pub open spec fn ascii_text(b: Seq<u8>) -> Seq<char> {
    Seq::new(b.len(), |i: int| b[i] as char)
}

/// The bytes of an ASCII string slice are its characters.
pub proof fn lemma_ascii_str_bytes(s: &str)
    requires
        vstd::utf8::is_ascii_chars(s@),
    ensures
        ascii_text(vstd::string::StringSliceAdditionalSpecFns::spec_bytes(s)) == s@,
{
    vstd::utf8::is_ascii_chars_encode_utf8(s@);
    let b = vstd::string::StringSliceAdditionalSpecFns::spec_bytes(s);
    assert forall|i: int| 0 <= i < s@.len() implies ascii_text(b)[i] == s@[i] by {
        assert(s@[i] as u8 == b[i]);
        assert('\0' <= s@[i] <= '\u{7f}');
    }
    assert(ascii_text(b) =~= s@);
}

/// Runs `f` on what `o` parsed, or fails as `o` did.
pub open spec fn bind<A, B>(o: Outcome<A>, f: spec_fn(int, A) -> Outcome<B>) -> Outcome<B> {
    match o {
        Ok((q, a)) => f(q, a),
        Err(e) => Err(e),
    }
}

/// The number of bytes of `s` from `p` on.
pub open spec fn remaining(s: Seq<u8>, p: int) -> nat {
    if p <= s.len() {
        (s.len() - p) as nat
    } else {
        0
    }
}

/// A parser outcome that, where it succeeds, has not moved back from `p`.
pub open spec fn moves_forward<V>(o: Outcome<V>, p: int) -> bool {
    o matches Ok((q, _)) ==> p <= q
}

pub proof fn lemma_run1_forward(s: Seq<u8>, p: int, c: CharClass, kind: ErrorKind)
    ensures
        moves_forward(sp_run1(s, p, c, kind), p),
{
    if 0 <= p <= s.len() {
        lemma_run_end(s, p, c);
    }
}

/// The text `t` stands at `p`.
pub open spec fn starts_with(s: Seq<u8>, p: int, t: Seq<u8>) -> bool {
    0 <= p && p + t.len() <= s.len() && s.subrange(p, p + t.len()) == t
}

/// The tag `t`: its exact text.
pub open spec fn sp_tag(s: Seq<u8>, p: int, t: Seq<char>) -> Outcome<()> {
    if starts_with(s, p, encode_utf8(t)) {
        Ok((p + encode_utf8(t).len(), ()))
    } else {
        Err(tag_problem(p, t))
    }
}

/// One or more bytes of the class `c`, else an error of the kind `kind`.
pub open spec fn sp_run1(s: Seq<u8>, p: int, c: CharClass, kind: ErrorKind) -> Outcome<()> {
    if run_end(s, p, c) == p {
        Err(kind_problem(p, kind))
    } else {
        Ok((run_end(s, p, c), ()))
    }
}

/// One or more ASCII letters.
pub open spec fn sp_alpha1(s: Seq<u8>, p: int) -> Outcome<()> {
    sp_run1(s, p, CharClass::Alpha, ErrorKind::Alpha)
}

/// One or more ASCII digits.
pub open spec fn sp_digit1(s: Seq<u8>, p: int) -> Outcome<()> {
    sp_run1(s, p, CharClass::Digit, ErrorKind::Digit)
}

/// A line ending: `\n` or `\r\n`.
pub open spec fn sp_line_ending(s: Seq<u8>, p: int) -> Outcome<()> {
    if 0 <= p < s.len() && s[p] == 10u8 {
        Ok((p + 1, ()))
    } else if 0 <= p && p + 1 < s.len() && s[p] == 13u8 && s[p + 1] == 10u8 {
        Ok((p + 2, ()))
    } else {
        Err(kind_problem(p, ErrorKind::CrLf))
    }
}

/// Zero or more spaces and tabs, in streaming mode: when they run to the end
/// of the input, more input is needed.
pub open spec fn sp_space0_streaming(s: Seq<u8>, p: int) -> Outcome<()> {
    if run_end(s, p, CharClass::Blank) >= s.len() {
        Err(Fault::Incomplete)
    } else {
        Ok((run_end(s, p, CharClass::Blank), ()))
    }
}

/// The end of `n` characters from `q`, a character starting at every byte
/// that does not continue a UTF-8 encoded character.
pub open spec fn chars_end(s: Seq<u8>, q: int, n: nat) -> Option<int>
    decreases n,
{
    if n == 0 {
        Some(q)
    } else if q < 0 || q >= s.len() {
        None
    } else {
        chars_end(s, run_end(s, q + 1, CharClass::Continuation), (n - 1) as nat)
    }
}

/// Exactly `n` characters.
pub open spec fn sp_take(s: Seq<u8>, p: int, n: nat) -> Outcome<()> {
    match chars_end(s, p, n) {
        Some(q) => Ok((q, ())),
        None => Err(kind_problem(p, ErrorKind::Eof)),
    }
}

pub proof fn lemma_chars_end(s: Seq<u8>, q: int, n: nat)
    requires
        0 <= q <= s.len(),
    ensures
        chars_end(s, q, n) matches Some(e) ==> q <= e <= s.len(),
    decreases n,
{
    if n > 0 && q < s.len() {
        lemma_run_end(s, q + 1, CharClass::Continuation);
        lemma_chars_end(s, run_end(s, q + 1, CharClass::Continuation), (n - 1) as nat);
    }
}

fn in_class_byte(c: CharClass, b: u8) -> (r: bool)
    ensures
        r == in_class(c, b),
{
    match c {
        CharClass::Alpha => (65 <= b && b <= 90) || (97 <= b && b <= 122),
        CharClass::Digit => 48 <= b && b <= 57,
        CharClass::Blank => b == 32 || b == 9,
        CharClass::Continuation => 128 <= b && b < 192,
        CharClass::Number => {
            (48 <= b && b <= 57) || b == 43 || b == 45 || b == 46 || b == 69 || b == 101 || b == 65
                || b == 70 || b == 73 || b == 78 || b == 84 || b == 89 || b == 97 || b == 102
                || b == 105 || b == 110 || b == 116 || b == 121
        },
    }
}

/// The end of the run of bytes of the class `c` from `p`.
pub fn scan(s: &[u8], p: usize, c: CharClass) -> (e: usize)
    requires
        p <= s@.len(),
    ensures
        e == run_end(s@, p as int, c),
        p <= e <= s@.len(),
{
    let mut i = p;
    while i < s.len() && in_class_byte(c, s[i])
        invariant
            p <= i <= s@.len(),
            run_end(s@, i as int, c) == run_end(s@, p as int, c),
        decreases s@.len() - i,
    {
        i = i + 1;
    }
    proof {
        lemma_run_end(s@, p as int, c);
    }
    i
}

/// Whether the bytes `t` stand at `p` of `s`.
pub fn starts_with_at(s: &[u8], p: usize, t: &[u8]) -> (r: bool)
    requires
        p <= s@.len(),
    ensures
        r == starts_with(s@, p as int, t@),
{
    if t.len() > s.len() - p {
        return false;
    }
    let mut i: usize = 0;
    let n = s.len();
    while i < t.len()
        invariant
            n == s@.len(),
            p + t@.len() <= s@.len(),
            0 <= i <= t@.len(),
            forall|j: int| 0 <= j < i ==> s@[p + j] == t@[j],
        decreases t@.len() - i,
    {
        if s[p + i] != t[i] {
            assert(s@.subrange(p as int, p + t@.len())[i as int] != t@[i as int]);
            return false;
        }
        i = i + 1;
    }
    assert(s@.subrange(p as int, p + t@.len()) =~= t@);
    true
}

/// The tag `t`.
pub fn tag<'a>(input: Span<'a>, t: &str) -> (r: IResult<'a, ()>)
    ensures
        yields(&r, input@.input, sp_tag(input@.input, input@.offset, t@)),
{
    input.check();
    let s = input.input();
    let p = input.location_offset();
    let tb = t.as_bytes();
    let n = s.len();
    if starts_with_at(s, p, tb) {
        Ok((input.advance_to(p + tb.len()), ()))
    } else {
        Err(ParseFailure::Error(ParseError::from_tag(input, t)))
    }
}

/// One or more bytes of the class `c`, else an error of the kind `kind`.
pub fn run1<'a>(input: Span<'a>, c: CharClass, kind: ErrorKind) -> (r: IResult<'a, ()>)
    ensures
        yields(&r, input@.input, sp_run1(input@.input, input@.offset, c, kind)),
{
    input.check();
    let s = input.input();
    let p = input.location_offset();
    let e = scan(s, p, c);
    if e == p {
        Err(ParseFailure::Error(ParseError::from_error_kind(input, kind)))
    } else {
        Ok((input.advance_to(e), ()))
    }
}

/// One or more ASCII letters.
pub fn alpha1<'a>(input: Span<'a>) -> (r: IResult<'a, ()>)
    ensures
        yields(&r, input@.input, sp_alpha1(input@.input, input@.offset)),
{
    run1(input, CharClass::Alpha, ErrorKind::Alpha)
}

/// One or more ASCII digits.
pub fn digit1<'a>(input: Span<'a>) -> (r: IResult<'a, ()>)
    ensures
        yields(&r, input@.input, sp_digit1(input@.input, input@.offset)),
{
    run1(input, CharClass::Digit, ErrorKind::Digit)
}

/// A line ending, `\n` or `\r\n`.
pub fn line_ending<'a>(input: Span<'a>) -> (r: IResult<'a, ()>)
    ensures
        yields(&r, input@.input, sp_line_ending(input@.input, input@.offset)),
{
    input.check();
    let s = input.input();
    let p = input.location_offset();
    if p < s.len() && s[p] == 10u8 {
        Ok((input.advance_to(p + 1), ()))
    } else if p < s.len() && p + 1 < s.len() && s[p] == 13u8 && s[p + 1] == 10u8 {
        Ok((input.advance_to(p + 2), ()))
    } else {
        Err(ParseFailure::Error(ParseError::from_error_kind(input, ErrorKind::CrLf)))
    }
}

/// Zero or more spaces and tabs; more input is needed when they reach the
/// end of the input.
pub fn space0_streaming<'a>(input: Span<'a>) -> (r: IResult<'a, ()>)
    ensures
        yields(&r, input@.input, sp_space0_streaming(input@.input, input@.offset)),
{
    input.check();
    let s = input.input();
    let p = input.location_offset();
    let e = scan(s, p, CharClass::Blank);
    if e >= s.len() {
        Err(ParseFailure::Incomplete)
    } else {
        Ok((input.advance_to(e), ()))
    }
}

/// Exactly `n` characters.
pub fn take<'a>(input: Span<'a>, n: usize) -> (r: IResult<'a, ()>)
    ensures
        yields(&r, input@.input, sp_take(input@.input, input@.offset, n as nat)),
{
    input.check();
    let s = input.input();
    let p = input.location_offset();
    let mut q = p;
    let mut k: usize = 0;
    let len = s.len();
    while k < n
        invariant
            len == s@.len(),
            s@ == input@.input,
            p == input@.offset,
            p <= q <= s@.len(),
            k <= n,
            chars_end(s@, p as int, n as nat) == chars_end(s@, q as int, (n - k) as nat),
        decreases n - k,
    {
        if q >= s.len() {
            assert(chars_end(s@, q as int, (n - k) as nat) is None);
            return Err(ParseFailure::Error(ParseError::from_error_kind(input, ErrorKind::Eof)));
        }
        q = scan(s, q + 1, CharClass::Continuation);
        k = k + 1;
    }
    Ok((input.advance_to(q), ()))
}

/// Appends the ASCII bytes `b` to `m` as characters.
pub fn push_ascii(m: &mut String, b: &[u8])
    ensures
        final(m)@ == old(m)@ + ascii_text(b@),
{
    let mut i: usize = 0;
    while i < b.len()
        invariant
            0 <= i <= b@.len(),
            m@ == old(m)@ + ascii_text(b@.take(i as int)),
        decreases b@.len() - i,
    {
        m.push(b[i] as char);
        proof {
            assert(ascii_text(b@.take(i + 1)) =~= ascii_text(b@.take(i as int)).push(b@[i as int] as char));
        }
        i = i + 1;
    }
    assert(b@.take(b@.len() as int) =~= b@);
}

/// The decimal digit `d`.
pub open spec fn digit_char(d: nat) -> char {
    (d + 48) as char
}

/// The decimal numeral of `n`, without leading zeros.
pub open spec fn decimal_text(n: nat) -> Seq<char>
    decreases n,
{
    if n < 10 {
        seq![digit_char(n)]
    } else {
        decimal_text(n / 10).push(digit_char(n % 10))
    }
}

/// Appends the decimal numeral of `n` to `m`.
pub fn push_decimal(m: &mut String, n: usize)
    ensures
        final(m)@ == old(m)@ + decimal_text(n as nat),
    decreases n,
{
    if n >= 10 {
        push_decimal(m, n / 10);
    }
    let d: u8 = (n % 10) as u8;
    m.push((d + 48u8) as char);
    assert(seq![digit_char(n as nat)] =~= Seq::<char>::empty().push(digit_char(n as nat)));
}

/// Adds the items `acc` in front of what `o` parsed.
pub open spec fn prepend<V>(acc: Seq<V>, o: Outcome<Seq<V>>) -> Outcome<Seq<V>> {
    match o {
        Ok((q, rest)) => Ok((q, acc + rest)),
        Err(e) => Err(e),
    }
}

pub proof fn lemma_prepend<V>(a: Seq<V>, b: Seq<V>, o: Outcome<Seq<V>>, q: int)
    ensures
        prepend(a, prepend(b, o)) == prepend(a + b, o),
        prepend(a, Ok((q, Seq::<V>::empty()))) == Ok::<(int, Seq<V>), Fault>((q, a)),
{
    match o {
        Ok((e, rest)) => {
            assert(a + (b + rest) =~= (a + b) + rest);
        },
        Err(e) => {},
    }
    assert(a + Seq::<V>::empty() =~= a);
}

} // verus!
