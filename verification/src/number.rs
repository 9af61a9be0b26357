//! Decimal numbers. nom recognises the text of a floating point number; the
//! library keeps that text, and turning it into a float is left to callers.
use crate::errors::{ErrorKind, Fault, IResult, Outcome, ParseError, ParseFailure, Problem, kind_message, yields};
use crate::span::Span;
use crate::text::{ascii_text, is_digit_byte, run_end, scan, CharClass};
use vstd::prelude::*;

verus! {

/// `w` holds the byte `b` at `i`.
pub open spec fn byte_is(w: Seq<u8>, i: int, b: u8) -> bool {
    0 <= i < w.len() && w[i] == b
}

/// `w` holds a decimal digit at `i`.
pub open spec fn digit_at(w: Seq<u8>, i: int) -> bool {
    0 <= i < w.len() && is_digit_byte(w[i])
}

/// The end of the digits of the mantissa that starts at `i`: digits with an
/// optional `.` and more digits, or `.` and one or more digits.
pub open spec fn mantissa_end(w: Seq<u8>, i: int) -> Option<int> {
    if digit_at(w, i) {
        let d = run_end(w, i, CharClass::Digit);
        if byte_is(w, d, 46) {
            Some(run_end(w, d + 1, CharClass::Digit))
        } else {
            Some(d)
        }
    } else if byte_is(w, i, 46) && digit_at(w, i + 1) {
        Some(run_end(w, i + 1, CharClass::Digit))
    } else {
        None
    }
}

/// An ASCII letter in lower case.
pub open spec fn lower_byte(b: u8) -> u8 {
    if 65 <= b <= 90 { (b + 32) as u8 } else { b }
}

/// `w` starts with the lower-case word `x`, in any case.
pub open spec fn starts_no_case(w: Seq<u8>, x: Seq<u8>) -> bool {
    w.len() >= x.len() && forall|i: int| 0 <= i < x.len() ==> lower_byte(#[trigger] w[i]) == x[i]
}

/// The length of the decimal number at the start of `w`: an optional sign,
/// a mantissa, and an optional exponent (`e` or `E`, an optional sign, and
/// digits); else `nan` or `inf` in any case. `Err(true)` where an exponent
/// has no digits, `Err(false)` where no number stands there.
pub open spec fn float_scan(w: Seq<u8>) -> Result<nat, bool> {
    let i: int = if byte_is(w, 0, 43) || byte_is(w, 0, 45) { 1 } else { 0 };
    match mantissa_end(w, i) {
        Some(m) => if byte_is(w, m, 101) || byte_is(w, m, 69) {
            let k: int = if byte_is(w, m + 1, 43) || byte_is(w, m + 1, 45) { m + 2 } else { m + 1 };
            if digit_at(w, k) {
                Ok(run_end(w, k, CharClass::Digit) as nat)
            } else {
                Err(true)
            }
        } else {
            Ok(m as nat)
        },
        None => if starts_no_case(w, seq![110u8, 97u8, 110u8]) || starts_no_case(w, seq![105u8, 110u8, 102u8]) {
            Ok(3)
        } else {
            Err(false)
        },
    }
}

/// A number that `float_scan` finds lies within `w`.
pub proof fn lemma_float_scan_within(w: Seq<u8>)
    ensures
        float_scan(w) matches Ok(n) ==> n <= w.len(),
{
    let i: int = if byte_is(w, 0, 43) || byte_is(w, 0, 45) { 1 } else { 0 };
    if digit_at(w, i) {
        crate::text::lemma_run_end(w, i, CharClass::Digit);
        let d = run_end(w, i, CharClass::Digit);
        if byte_is(w, d, 46) {
            crate::text::lemma_run_end(w, d + 1, CharClass::Digit);
        }
    } else if byte_is(w, i, 46) && digit_at(w, i + 1) {
        crate::text::lemma_run_end(w, i + 1, CharClass::Digit);
    }
    if let Some(m) = mantissa_end(w, i) {
        let k: int = if byte_is(w, m + 1, 43) || byte_is(w, m + 1, 45) { m + 2 } else { m + 1 };
        if digit_at(w, k) {
            crate::text::lemma_run_end(w, k, CharClass::Digit);
        }
    }
}

/// Calls `nom::number::complete::recognize_float_or_exceptions` (what nom's
/// `double` recognises numbers with) on the ASCII bytes `window`. Claimed of
/// it: it recognises the number that `float_scan` describes, which is what
/// its grammar of signs, digits, `.`, exponent and the words `nan` and `inf`
/// (tried before `infinity`) gives, and it fails unrecoverably only after an
/// exponent without digits; the recognised number is the text of the bytes
/// it consumed.
#[verifier::external_body]
fn recognize_float(window: &[u8]) -> (r: Result<(usize, String), bool>)
    requires
        forall|i: int| 0 <= i < window@.len() ==> window@[i] < 128,
    ensures
        match r {
            Ok((n, text)) => {
                &&& float_scan(window@) == Ok::<nat, bool>(n as nat)
                &&& text@ == ascii_text(window@.take(n as int))
            },
            Err(failure) => float_scan(window@) == Err::<nat, bool>(failure),
        },
{
    match nom::number::complete::recognize_float_or_exceptions::<&[u8], nom::error::Error<&[u8]>>(window) {
        Ok((_, found)) => Ok((found.len(), String::from_utf8_lossy(found).into_owned())),
        Err(nom::Err::Error(_)) => Err(false),
        Err(nom::Err::Failure(_)) => Err(true),
        Err(nom::Err::Incomplete(_)) => Err(false),
    }
}

/// nom's reading of the text from a position: the length and text of the
/// number it recognised, or whether it failed unrecoverably.
pub open spec fn scan_view(scan: Result<(usize, String), bool>) -> Result<(nat, Seq<char>), bool> {
    match scan {
        Ok((n, text)) => Ok((n as nat, text@)),
        Err(failure) => Err(failure),
    }
}

/// The outcome of a decimal number at `p`, given nom's reading `scan` of the
/// text from there: the number's text and the position after it, or an
/// error at `p`, unrecoverable where nom failed so.
pub open spec fn number_outcome(p: int, scan: Result<(nat, Seq<char>), bool>) -> Outcome<Seq<char>> {
    match scan {
        Ok((n, text)) => Ok((p + n, text)),
        Err(failure) => {
            let problem = Problem { at: p, message: kind_message(ErrorKind::Float), help: None };
            if failure {
                Err(Fault::Failure(problem))
            } else {
                Err(Fault::Error(problem))
            }
        },
    }
}

/// The text of a decimal number, as nom's `double` reads it: nom looks at the
/// run of bytes from `p` that may belong to a number.
pub open spec fn sp_double(s: Seq<u8>, p: int) -> Outcome<Seq<char>> {
    let window = s.subrange(p, run_end(s, p, CharClass::Number));
    number_outcome(
        p,
        match float_scan(window) {
            Ok(n) => Ok((n, ascii_text(window.take(n as int)))),
            Err(failure) => Err(failure),
        },
    )
}

/// The outcome of a decimal number at `input`, given nom's reading `scan` of
/// the text from there.
pub fn number_at<'a>(input: Span<'a>, scan: Result<(usize, String), bool>) -> (r: IResult<'a, String>)
    requires
        scan matches Ok((n, _)) ==> input@.offset + n <= input@.input.len(),
    ensures
        yields(&r, input@.input, number_outcome(input@.offset, scan_view(scan))),
{
    input.check();
    match scan {
        Ok((n, text)) => Ok((input.advance_to(input.location_offset() + n), text)),
        Err(failure) => {
            let e = ParseError::from_error_kind(input, ErrorKind::Float);
            if failure {
                Err(ParseFailure::Failure(e))
            } else {
                Err(ParseFailure::Error(e))
            }
        },
    }
}

/// A number read at `p` is the text of the bytes from `p` to where it ends.
pub proof fn lemma_double_text(s: Seq<u8>, p: int)
    requires
        0 <= p <= s.len(),
    ensures
        sp_double(s, p) matches Ok((e, v)) ==> 0 <= p <= e <= s.len() && v == ascii_text(s.subrange(p, e)),
{
    let r = run_end(s, p, CharClass::Number);
    let window = s.subrange(p, r);
    crate::text::lemma_run_end(s, p, CharClass::Number);
    lemma_float_scan_within(window);
    if let Ok(n) = float_scan(window) {
        assert(window.take(n as int) =~= s.subrange(p, p + n));
    }
}

/// A decimal number; its text is the value.
pub fn double<'a>(input: Span<'a>) -> (r: IResult<'a, String>)
    ensures
        yields(&r, input@.input, sp_double(input@.input, input@.offset)),
{
    input.check();
    let s = input.input();
    let p = input.location_offset();
    let e = scan(s, p, CharClass::Number);
    proof {
        crate::text::lemma_run_end(s@, p as int, CharClass::Number);
    }
    let window = vstd::slice::slice_subrange(s, p, e);
    let found = recognize_float(window);
    proof {
        lemma_float_scan_within(window@);
    }
    number_at(input, found)
}

} // verus!
