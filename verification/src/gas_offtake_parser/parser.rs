//! The grammar of seasonal composite weather variable files: one row per
//! line, each a quoted date and thirteen decimal numbers separated by commas,
//! as in
//!
//! ```text
//! "01/10/2022", 11.08, 10.65, 11.82, 11.90, 12.14, 12.09, 12.43, 12.82, 14.37, 14.32, 13.78, 14.21, 12.96
//! ```
use super::{SCWVFile, SeasonalCompositeWeatherVariableRow, SeasonalCompositeWeatherVariableRowView};
use crate::calendar::{Date, date_field, date_field_outcome, date_reading, naive_date_parse, parse_naive_date};
use crate::errors::{
    ErrorKind, Fault, IResult, Outcome, ParseError, ParseFailure, Problem, kind_problem, yields,
};
use crate::number::{double, sp_double};
use crate::span::Span;
use crate::text::{
    bind, decimal_text, line_ending, prepend, push_decimal, remaining, sp_line_ending,
    sp_space0_streaming, sp_tag, sp_take, space0_streaming, tag, take, lemma_prepend,
    lemma_chars_end, moves_forward,
};
use vstd::prelude::*;

verus! {

/// A date written `Day/Month/Year` in its ten characters.
pub open spec fn sp_raw_date(s: Seq<u8>, p: int) -> Outcome<Date> {
    bind(
        sp_take(s, p, 10),
        |q: int, u: ()|
            date_field_outcome(
                p,
                q,
                date_reading(naive_date_parse(s.subrange(p, q), "%d/%m/%Y"@)),
                "date should be in the format Day/Month/Year"@,
            ),
    )
}

/// A date in double quotes.
pub open spec fn sp_date(s: Seq<u8>, p: int) -> Outcome<Date> {
    bind(
        sp_tag(s, p, "\""@),
        |p1: int, u1: ()|
            bind(
                sp_raw_date(s, p1),
                |p2: int, d: Date| bind(sp_tag(s, p2, "\""@), |p3: int, u3: ()| Ok((p3, d))),
            ),
    )
}

/// The numbers that follow one at `p`, each after `, `. The list ends
/// before a separator that is missing or that no number follows.
pub open spec fn sp_values_after(s: Seq<u8>, p: int) -> Outcome<Seq<Seq<char>>>
    decreases remaining(s, p),
{
    match sp_tag(s, p, ", "@) {
        Ok((q, _)) => if q == p {
            Err(kind_problem(q, ErrorKind::SeparatedList))
        } else {
            match sp_double(s, q) {
                Ok((e, v)) => prepend(seq![v], sp_values_after(s, e)),
                Err(Fault::Error(_)) => Ok((p, Seq::empty())),
                Err(f) => Err(f),
            }
        },
        Err(Fault::Error(_)) => Ok((p, Seq::empty())),
        Err(f) => Err(f),
    }
}

/// One or more numbers separated by `, `.
pub open spec fn sp_values(s: Seq<u8>, p: int) -> Outcome<Seq<Seq<char>>> {
    match sp_double(s, p) {
        Ok((q, v)) => prepend(seq![v], sp_values_after(s, q)),
        Err(f) => Err(f),
    }
}

/// The message for a row with `n` numbers.
pub open spec fn value_count_message(n: nat) -> Seq<char> {
    "incorrect number of seasonal composite weather variables, expected 13 got "@ + decimal_text(n)
}

/// The help for a row without thirteen numbers.
pub open spec fn value_count_help() -> Seq<char> {
    "we should get 13 values, one for each region, possibly the file is formatted incorrectly"@
}

/// A row: the quoted date, a comma, blanks, and the numbers, which must be
/// thirteen, else the error points at the start of the row.
pub open spec fn sp_scwv_row(s: Seq<u8>, p: int) -> Outcome<SeasonalCompositeWeatherVariableRowView> {
    bind(
        sp_date(s, p),
        |p1: int, date: Date|
            bind(
                sp_tag(s, p1, ","@),
                |p2: int, u2: ()|
                    bind(
                        sp_space0_streaming(s, p2),
                        |p3: int, u3: ()|
                            bind(
                                sp_values(s, p3),
                                |p4: int, values: Seq<Seq<char>>|
                                    if values.len() != 13 {
                                        Err(
                                            Fault::Error(
                                                Problem {
                                                    at: p,
                                                    message: value_count_message(values.len()),
                                                    help: Some(value_count_help()),
                                                },
                                            ),
                                        )
                                    } else {
                                        Ok((p4, SeasonalCompositeWeatherVariableRowView { date, values }))
                                    },
                            ),
                    ),
            ),
    )
}

pub proof fn lemma_values_after_forward(s: Seq<u8>, p: int)
    ensures
        moves_forward(sp_values_after(s, p), p),
    decreases remaining(s, p),
{
    if let Ok((q, _)) = sp_tag(s, p, ", "@) {
        if q != p {
            if let Ok((e, v)) = sp_double(s, q) {
                lemma_values_after_forward(s, e);
            }
        }
    }
}

pub proof fn lemma_scwv_row_forward(s: Seq<u8>, p: int)
    ensures
        moves_forward(sp_scwv_row(s, p), p),
{
    if let Ok((p1, _)) = sp_tag(s, p, "\""@) {
        lemma_chars_end(s, p1, 10);
        if let Ok((p2, _)) = sp_raw_date(s, p1) {
            if let Ok((p3, _)) = sp_date(s, p) {
                if let Ok((p4, _)) = sp_tag(s, p3, ","@) {
                    crate::text::lemma_run_end(s, p4, crate::text::CharClass::Blank);
                    if let Ok((p5, _)) = sp_space0_streaming(s, p4) {
                        if let Ok((p6, _)) = sp_double(s, p5) {
                            lemma_values_after_forward(s, p6);
                        }
                    }
                }
            }
        }
    }
}

/// The rows that follow one at `p`, each on a new line. The list ends before
/// a line ending that is missing or that no row follows.
pub open spec fn sp_rows_after(s: Seq<u8>, p: int) -> Outcome<Seq<SeasonalCompositeWeatherVariableRowView>>
    decreases remaining(s, p),
{
    match sp_line_ending(s, p) {
        Ok((q, _)) => if q == p {
            Err(kind_problem(q, ErrorKind::SeparatedList))
        } else {
            match sp_scwv_row(s, q) {
                Ok((e, row)) => {
                    proof {
                        lemma_scwv_row_forward(s, q);
                    }
                    prepend(seq![row], sp_rows_after(s, e))
                },
                Err(Fault::Error(_)) => Ok((p, Seq::empty())),
                Err(f) => Err(f),
            }
        },
        Err(Fault::Error(_)) => Ok((p, Seq::empty())),
        Err(f) => Err(f),
    }
}

/// One or more rows, separated by line endings.
pub open spec fn sp_scwm_file(s: Seq<u8>, p: int) -> Outcome<Seq<SeasonalCompositeWeatherVariableRowView>> {
    match sp_scwv_row(s, p) {
        Ok((q, row)) => prepend(seq![row], sp_rows_after(s, q)),
        Err(f) => Err(f),
    }
}

/// A date written `Day/Month/Year` in its ten characters.
pub fn raw_date<'a>(input: Span<'a>) -> (r: IResult<'a, Date>)
    ensures
        yields(&r, input@.input, sp_raw_date(input@.input, input@.offset)),
{
    input.check();
    let (rest, _) = take(input, 10)?;
    proof {
        lemma_chars_end(input@.input, input@.offset, 10);
    }
    let text = vstd::slice::slice_subrange(input.input(), input.location_offset(), rest.location_offset());
    let parsed = parse_naive_date(text, "%d/%m/%Y");
    date_field(input, rest, parsed, "date should be in the format Day/Month/Year")
}

/// A date in double quotes.
pub fn date<'a>(input: Span<'a>) -> (r: IResult<'a, Date>)
    ensures
        yields(&r, input@.input, sp_date(input@.input, input@.offset)),
{
    let (rest, _) = tag(input, "\"")?;
    let (rest, d) = raw_date(rest)?;
    let (rest, _) = tag(rest, "\"")?;
    Ok((rest, d))
}

/// One or more numbers separated by `, `.
fn values<'a>(input: Span<'a>) -> (r: IResult<'a, Vec<String>>)
    ensures
        yields(&r, input@.input, sp_values(input@.input, input@.offset)),
{
    let ghost s = input@.input;
    let (mut cur, first) = double(input)?;
    let mut res: Vec<String> = Vec::new();
    res.push(first);
    assert(res.deep_view() =~= seq![first@]);
    loop
        invariant
            s == input@.input,
            cur@.input == s,
            sp_values(s, input@.offset) == prepend(res.deep_view(), sp_values_after(s, cur@.offset)),
        decreases remaining(s, cur@.offset),
    {
        cur.check();
        match tag(cur, ", ") {
            Ok((after, _)) => {
                after.check();
                if after.location_offset() == cur.location_offset() {
                    return Err(
                        ParseFailure::Error(ParseError::from_error_kind(after, ErrorKind::SeparatedList)),
                    );
                }
                match double(after) {
                    Ok((next, v)) => {
                        next.check();
                        proof {
                            lemma_prepend(res.deep_view(), seq![v@], sp_values_after(s, next@.offset), 0);
                        }
                        let ghost before = res.deep_view();
                        res.push(v);
                        assert(res.deep_view() =~= before + seq![v@]);
                        cur = next;
                    },
                    Err(ParseFailure::Error(_)) => {
                        proof {
                            lemma_prepend(res.deep_view(), Seq::empty(), Ok((0int, Seq::empty())), cur@.offset);
                        }
                        return Ok((cur, res));
                    },
                    Err(e) => return Err(e),
                }
            },
            Err(ParseFailure::Error(_)) => {
                proof {
                    lemma_prepend(res.deep_view(), Seq::empty(), Ok((0int, Seq::empty())), cur@.offset);
                }
                return Ok((cur, res));
            },
            Err(e) => return Err(e),
        }
    }
}

/// One row of seasonal composite weather variables.
pub fn scwv_row<'a>(input: Span<'a>) -> (r: IResult<'a, SeasonalCompositeWeatherVariableRow>)
    ensures
        yields(&r, input@.input, sp_scwv_row(input@.input, input@.offset)),
{
    let (rest, date) = date(input)?;
    let (rest, _) = tag(rest, ",")?;
    let (rest, _) = space0_streaming(rest)?;
    let (rest, mut values) = values(rest)?;
    let length = values.len();
    if length != 13 {
        let mut m = String::from_str(
            "incorrect number of seasonal composite weather variables, expected 13 got ",
        );
        push_decimal(&mut m, length);
        let help = String::from_str(
            "we should get 13 values, one for each region, possibly the file is formatted incorrectly",
        );
        return Err(ParseFailure::Error(ParseError::new(m, Some(help), input)));
    }
    let ghost texts = values.deep_view();
    let sw = values.pop().unwrap();
    let so = values.pop().unwrap();
    let se = values.pop().unwrap();
    let nt = values.pop().unwrap();
    let ea = values.pop().unwrap();
    let ws = values.pop().unwrap();
    let wn = values.pop().unwrap();
    let wm = values.pop().unwrap();
    let em = values.pop().unwrap();
    let ne = values.pop().unwrap();
    let nw = values.pop().unwrap();
    let no = values.pop().unwrap();
    let sc = values.pop().unwrap();
    let row = SeasonalCompositeWeatherVariableRow {
        date,
        sc,
        no,
        nw,
        ne,
        em,
        wm,
        wn,
        ws,
        ea,
        nt,
        se,
        so,
        sw,
    };
    assert(row.deep_view().values =~= texts);
    Ok((rest, row))
}

/// Rows of seasonal composite weather variables, one per line.
pub fn scwm_file<'a>(input: Span<'a>) -> (r: IResult<'a, SCWVFile>)
    ensures
        yields(&r, input@.input, sp_scwm_file(input@.input, input@.offset)),
{
    let ghost s = input@.input;
    let (mut cur, first) = scwv_row(input)?;
    let mut rows: Vec<SeasonalCompositeWeatherVariableRow> = Vec::new();
    rows.push(first);
    assert(rows.deep_view() =~= seq![first.deep_view()]);
    loop
        invariant
            s == input@.input,
            cur@.input == s,
            sp_scwm_file(s, input@.offset) == prepend(rows.deep_view(), sp_rows_after(s, cur@.offset)),
        decreases remaining(s, cur@.offset),
    {
        cur.check();
        match line_ending(cur) {
            Ok((after, _)) => {
                after.check();
                if after.location_offset() == cur.location_offset() {
                    return Err(
                        ParseFailure::Error(ParseError::from_error_kind(after, ErrorKind::SeparatedList)),
                    );
                }
                match scwv_row(after) {
                    Ok((next, row)) => {
                        next.check();
                        proof {
                            lemma_scwv_row_forward(s, after@.offset);
                            lemma_prepend(
                                rows.deep_view(),
                                seq![row.deep_view()],
                                sp_rows_after(s, next@.offset),
                                0,
                            );
                        }
                        let ghost before = rows.deep_view();
                        rows.push(row);
                        assert(rows.deep_view() =~= before + seq![row.deep_view()]);
                        cur = next;
                    },
                    Err(ParseFailure::Error(_)) => {
                        proof {
                            lemma_prepend(rows.deep_view(), Seq::empty(), Ok((0int, Seq::empty())), cur@.offset);
                        }
                        return Ok((cur, rows));
                    },
                    Err(e) => return Err(e),
                }
            },
            Err(ParseFailure::Error(_)) => {
                proof {
                    lemma_prepend(rows.deep_view(), Seq::empty(), Ok((0int, Seq::empty())), cur@.offset);
                }
                return Ok((cur, rows));
            },
            Err(e) => return Err(e),
        }
    }
}

} // verus!
