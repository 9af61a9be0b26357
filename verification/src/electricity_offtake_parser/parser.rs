//! The grammar of electricity flow files. A file is a header line, one or
//! more profile class groups and a trailer line:
//!
//! ```text
//! ZHV|HDR|ELX|AUC|EXP|ALL|20230401123000
//! PFC|1
//! DPP|1|20230401|.0000355
//! DPP|2|20230401|.0000354
//! PFC|2
//! DPP|1|20230401|.0000491
//! ZPT|140554|1564691006
//! ```
use super::{
    HeaderLine, Location, OfftakeFile, OfftakeRow, OfftakeRowView, ProfileClass, ProfileGroups,
    ProfileGroupsView, TrailerLine, WrappedFile, WrappedFileView, location_error,
    location_from_text, profile_class_error, profile_class_from_text,
};
use crate::calendar::{
    Date, DateTime, date_field, date_field_outcome, date_reading, date_time_reading,
    naive_date_parse, naive_date_time_parse, parse_naive_date, parse_naive_date_time,
};
use crate::errors::{
    ErrorKind, Fault, IResult, Outcome, ParseError, ParseFailure, Problem, kind_problem, yields,
};
use crate::number::{double, sp_double};
use crate::span::Span;
use crate::text::{
    ascii_text, bind, digit1, alpha1, line_ending, prepend, push_ascii, sp_alpha1, sp_digit1,
    sp_line_ending, sp_tag, tag, lemma_prepend, lemma_run_end, remaining, CharClass,
    moves_forward, lemma_run1_forward,
};
use vstd::prelude::*;

verus! {

/// A date and time written `YearMonthDayHourMinuteSecond`.
pub open spec fn sp_date_time(s: Seq<u8>, p: int) -> Outcome<DateTime> {
    bind(
        sp_digit1(s, p),
        |q: int, u: ()|
            date_field_outcome(
                p,
                q,
                date_time_reading(naive_date_time_parse(s.subrange(p, q), "%Y%m%d%H%M%S"@)),
                "date should be in the format YearMonthDayHourMinuteSecond"@,
            ),
    )
}

/// A date written `YearMonthDay`.
pub open spec fn sp_date(s: Seq<u8>, p: int) -> Outcome<Date> {
    bind(
        sp_digit1(s, p),
        |q: int, u: ()|
            date_field_outcome(
                p,
                q,
                date_reading(naive_date_parse(s.subrange(p, q), "%Y%m%d"@)),
                "date should be in the format YearMonthDay"@,
            ),
    )
}

/// A field of the header: letters and a pipe.
pub open spec fn sp_header_field(s: Seq<u8>, p: int) -> Outcome<()> {
    bind(sp_alpha1(s, p), |q: int, u: ()| sp_tag(s, q, "|"@))
}

/// `n` header fields.
pub open spec fn sp_header_fields(s: Seq<u8>, p: int, n: nat) -> Outcome<()>
    decreases n,
{
    if n == 0 {
        Ok((p, ()))
    } else {
        match sp_header_field(s, p) {
            Ok((q, _)) => sp_header_fields(s, q, (n - 1) as nat),
            Err(e) => Err(e),
        }
    }
}

/// The header line: six fields of letters, each followed by a pipe, then the
/// date and time and the end of the line.
pub open spec fn sp_header(s: Seq<u8>, p: int) -> Outcome<HeaderLine> {
    bind(
        sp_header_fields(s, p, 6),
        |q: int, u: ()|
            bind(
                sp_date_time(s, q),
                |r: int, d: DateTime|
                    bind(sp_line_ending(s, r), |e: int, v: ()| Ok((e, HeaderLine { date_time: d }))),
            ),
    )
}

/// The trailer line: `ZPT|digits|digits` and the end of the line.
pub open spec fn sp_trailer(s: Seq<u8>, p: int) -> Outcome<TrailerLine> {
    bind(
        sp_tag(s, p, "ZPT"@),
        |p1: int, u1: ()|
            bind(
                sp_tag(s, p1, "|"@),
                |p2: int, u2: ()|
                    bind(
                        sp_digit1(s, p2),
                        |p3: int, u3: ()|
                            bind(
                                sp_tag(s, p3, "|"@),
                                |p4: int, u4: ()|
                                    bind(
                                        sp_digit1(s, p4),
                                        |p5: int, u5: ()|
                                            bind(
                                                sp_line_ending(s, p5),
                                                |p6: int, u6: ()| Ok((p6, TrailerLine {  })),
                                            ),
                                    ),
                            ),
                    ),
            ),
    )
}

/// The message for a profile class line whose number `t` names no profile
/// class.
pub open spec fn profile_class_message(t: Seq<char>) -> Seq<char> {
    "failed to parse profile class: "@ + profile_class_error(t)
}

/// A profile class line `PFC|n`; the number must name a profile class, else
/// the error points at the start of the line.
pub open spec fn sp_profile_class(s: Seq<u8>, p: int) -> Outcome<ProfileClass> {
    bind(
        sp_tag(s, p, "PFC"@),
        |p1: int, u1: ()|
            bind(
                sp_tag(s, p1, "|"@),
                |p2: int, u2: ()|
                    bind(
                        sp_digit1(s, p2),
                        |p3: int, u3: ()|
                            bind(
                                sp_line_ending(s, p3),
                                |p4: int, u4: ()|
                                    match profile_class_from_text(ascii_text(s.subrange(p2, p3))) {
                                        Some(c) => Ok((p4, c)),
                                        None => Err(
                                            Fault::Error(
                                                Problem {
                                                    at: p,
                                                    message: profile_class_message(
                                                        ascii_text(s.subrange(p2, p3)),
                                                    ),
                                                    help: None,
                                                },
                                            ),
                                        ),
                                    },
                            ),
                    ),
            ),
    )
}

/// The message for an offtake line whose location number `t` names no
/// location.
pub open spec fn location_message(t: Seq<char>) -> Seq<char> {
    "failed to parse location: "@ + location_error(t)
}

/// The rest of an offtake line from its location digits `p2..p3`: the date,
/// the value and the end of the line; then the location must be one of the
/// known ones, else the error points at the start `p` of the line.
pub open spec fn sp_offtake_line_rest(s: Seq<u8>, p: int, p2: int, p3: int) -> Outcome<OfftakeRowView> {
    bind(
        sp_tag(s, p3, "|"@),
        |p4: int, u4: ()|
            bind(
                sp_date(s, p4),
                |p5: int, day: Date|
                    bind(
                        sp_tag(s, p5, "|"@),
                        |p6: int, u6: ()|
                            bind(
                                sp_double(s, p6),
                                |p7: int, value: Seq<char>|
                                    bind(
                                        sp_line_ending(s, p7),
                                        |p8: int, u8: ()|
                                            match location_from_text(ascii_text(s.subrange(p2, p3))) {
                                                Some(l) => Ok(
                                                    (p8, OfftakeRowView { location: l, day, value }),
                                                ),
                                                None => Err(
                                                    Fault::Error(
                                                        Problem {
                                                            at: p,
                                                            message: location_message(
                                                                ascii_text(s.subrange(p2, p3)),
                                                            ),
                                                            help: Some(
                                                                "location should be a number between 1 and 50"@,
                                                            ),
                                                        },
                                                    ),
                                                ),
                                            },
                                    ),
                            ),
                    ),
            ),
    )
}

/// An offtake line `DPP|location|date|value`.
pub open spec fn sp_offtake_line(s: Seq<u8>, p: int) -> Outcome<OfftakeRowView> {
    bind(
        sp_tag(s, p, "DPP"@),
        |p1: int, u1: ()|
            bind(
                sp_tag(s, p1, "|"@),
                |p2: int, u2: ()|
                    bind(sp_digit1(s, p2), |p3: int, u3: ()| sp_offtake_line_rest(s, p, p2, p3)),
            ),
    )
}

pub proof fn lemma_date_forward(s: Seq<u8>, p: int)
    ensures
        moves_forward(sp_date(s, p), p),
{
    lemma_run1_forward(s, p, CharClass::Digit, ErrorKind::Digit);
}

pub proof fn lemma_offtake_line_forward(s: Seq<u8>, p: int)
    ensures
        moves_forward(sp_offtake_line(s, p), p),
{
    if let Ok((p1, _)) = sp_tag(s, p, "DPP"@) {
        if let Ok((p2, _)) = sp_tag(s, p1, "|"@) {
            lemma_run1_forward(s, p2, CharClass::Digit, ErrorKind::Digit);
            if let Ok((p3, _)) = sp_digit1(s, p2) {
                if let Ok((p4, _)) = sp_tag(s, p3, "|"@) {
                    lemma_date_forward(s, p4);
                }
            }
        }
    }
}

pub proof fn lemma_offtake_lines_after_forward(s: Seq<u8>, p: int)
    ensures
        moves_forward(sp_offtake_lines_after(s, p), p),
    decreases remaining(s, p),
{
    if sp_offtake_group_terminator(s, p) is Err && sp_tag(s, p, "DPP"@) is Ok {
        if let Ok((q, _)) = sp_offtake_line(s, p) {
            if q != p {
                lemma_offtake_line_forward(s, p);
                lemma_offtake_lines_after_forward(s, q);
            }
        }
    }
}

pub proof fn lemma_profile_class_group_forward(s: Seq<u8>, p: int)
    ensures
        moves_forward(sp_profile_class_group(s, p), p),
{
    if let Ok((p1, _)) = sp_tag(s, p, "PFC"@) {
        if let Ok((p2, _)) = sp_tag(s, p1, "|"@) {
            lemma_run1_forward(s, p2, CharClass::Digit, ErrorKind::Digit);
            if let Ok((q, _)) = sp_profile_class(s, p) {
                lemma_offtake_line_forward(s, q);
                if let Ok((e, _)) = sp_offtake_line(s, q) {
                    lemma_offtake_lines_after_forward(s, e);
                }
            }
        }
    }
}

/// The end of a group of offtake lines, which it does not consume: the next
/// profile class line, or the trailer.
pub open spec fn sp_offtake_group_terminator(s: Seq<u8>, p: int) -> Outcome<Seq<char>> {
    match sp_tag(s, p, "PFC"@) {
        Ok(_) => Ok((p, "PFC"@)),
        Err(Fault::Error(_)) => match sp_tag(s, p, "ZPT"@) {
            Ok(_) => Ok((p, "ZPT"@)),
            Err(e) => Err(e),
        },
        Err(e) => Err(e),
    }
}

/// The offtake lines that follow one at `p`. The group ends where a
/// terminator stands; an offtake line must start with `DPP`. Where the next
/// line is neither, or is an offtake line that does not parse, the error is
/// the terminator's.
pub open spec fn sp_offtake_lines_after(s: Seq<u8>, p: int) -> Outcome<Seq<OfftakeRowView>>
    decreases remaining(s, p),
{
    match sp_offtake_group_terminator(s, p) {
        Ok(_) => Ok((p, Seq::empty())),
        Err(Fault::Error(terminator_error)) => match sp_tag(s, p, "DPP"@) {
            Ok(_) => match sp_offtake_line(s, p) {
                Ok((q, row)) => if q == p {
                    Err(kind_problem(p, ErrorKind::SeparatedNonEmptyList))
                } else {
                    proof {
                        lemma_offtake_line_forward(s, p);
                    }
                    prepend(seq![row], sp_offtake_lines_after(s, q))
                },
                Err(Fault::Error(_)) => Err(Fault::Error(terminator_error)),
                Err(e) => Err(e),
            },
            Err(Fault::Error(_)) => Err(Fault::Error(terminator_error)),
            Err(e) => Err(e),
        },
        Err(e) => Err(e),
    }
}

/// One or more offtake lines, up to the next profile class line or the
/// trailer.
pub open spec fn sp_offtake_group(s: Seq<u8>, p: int) -> Outcome<Seq<OfftakeRowView>> {
    match sp_offtake_line(s, p) {
        Ok((q, row)) => prepend(seq![row], sp_offtake_lines_after(s, q)),
        Err(e) => Err(e),
    }
}

/// A profile class line and its offtake lines.
pub open spec fn sp_profile_class_group(s: Seq<u8>, p: int) -> Outcome<ProfileGroupsView> {
    bind(
        sp_profile_class(s, p),
        |q: int, c: ProfileClass|
            bind(
                sp_offtake_group(s, q),
                |e: int, rows: Seq<OfftakeRowView>|
                    Ok((e, ProfileGroupsView { profile_class: c, values: rows })),
            ),
    )
}

/// The profile class groups that follow one at `p`, up to the trailer,
/// which is not consumed. A group must start with `PFC`; where the next line
/// is neither, or is a group that does not parse, the error is that the
/// trailer was expected.
pub open spec fn sp_groups_after(s: Seq<u8>, p: int) -> Outcome<Seq<ProfileGroupsView>>
    decreases remaining(s, p),
{
    match sp_tag(s, p, "ZPT"@) {
        Ok(_) => Ok((p, Seq::empty())),
        Err(Fault::Error(terminator_error)) => match sp_tag(s, p, "PFC"@) {
            Ok(_) => match sp_profile_class_group(s, p) {
                Ok((q, group)) => if q == p {
                    Err(kind_problem(p, ErrorKind::SeparatedNonEmptyList))
                } else {
                    proof {
                        lemma_profile_class_group_forward(s, p);
                    }
                    prepend(seq![group], sp_groups_after(s, q))
                },
                Err(Fault::Error(_)) => Err(Fault::Error(terminator_error)),
                Err(e) => Err(e),
            },
            Err(Fault::Error(_)) => Err(Fault::Error(terminator_error)),
            Err(e) => Err(e),
        },
        Err(e) => Err(e),
    }
}

/// One or more profile class groups, up to the trailer.
pub open spec fn sp_offtake_file(s: Seq<u8>, p: int) -> Outcome<Seq<ProfileGroupsView>> {
    match sp_profile_class_group(s, p) {
        Ok((q, group)) => prepend(seq![group], sp_groups_after(s, q)),
        Err(e) => Err(e),
    }
}

/// A whole flow file: the header, the groups and the trailer. The rest that
/// is returned starts at the trailer line.
pub open spec fn sp_parse_flow_file(s: Seq<u8>, p: int) -> Outcome<WrappedFileView> {
    bind(
        sp_header(s, p),
        |p1: int, header: HeaderLine|
            bind(
                sp_offtake_file(s, p1),
                |p2: int, groups: Seq<ProfileGroupsView>|
                    bind(
                        sp_trailer(s, p2),
                        |p3: int, trailer: TrailerLine|
                            Ok((p2, WrappedFileView { header, profile_groups: groups, trailer })),
                    ),
            ),
    )
}


/// Parse the date and time in the form `YearMonthDayHourMinuteSecond`.
pub fn date_time<'a>(input: Span<'a>) -> (r: IResult<'a, DateTime>)
    ensures
        yields(&r, input@.input, sp_date_time(input@.input, input@.offset)),
{
    let (rest, _) = digit1(input)?;
    let digits = digits_between(input, rest);
    let parsed = parse_naive_date_time(digits, "%Y%m%d%H%M%S");
    date_field(input, rest, parsed, "date should be in the format YearMonthDayHourMinuteSecond")
}

/// Parse the date in the form `YearMonthDay`.
pub fn date<'a>(input: Span<'a>) -> (r: IResult<'a, Date>)
    ensures
        yields(&r, input@.input, sp_date(input@.input, input@.offset)),
{
    let (rest, _) = digit1(input)?;
    let digits = digits_between(input, rest);
    let parsed = parse_naive_date(digits, "%Y%m%d");
    date_field(input, rest, parsed, "date should be in the format YearMonthDay")
}

fn header_field<'a>(input: Span<'a>) -> (r: IResult<'a, ()>)
    ensures
        yields(&r, input@.input, sp_header_field(input@.input, input@.offset)),
{
    let (rest, _) = alpha1(input)?;
    tag(rest, "|")
}

/// Gets the header of an electricity flow file. Only its date and time are
/// kept.
pub fn header<'a>(line: Span<'a>) -> (r: IResult<'a, HeaderLine>)
    ensures
        yields(&r, line@.input, sp_header(line@.input, line@.offset)),
{
    let ghost s = line@.input;
    let ghost p = line@.offset;
    let mut cur = line;
    let mut k: usize = 0;
    while k < 6
        invariant
            k <= 6,
            s == line@.input,
            p == line@.offset,
            cur@.input == s,
            sp_header_fields(s, p, 6) == sp_header_fields(s, cur@.offset, (6 - k) as nat),
        decreases 6 - k,
    {
        let (rest, _) = header_field(cur)?;
        cur = rest;
        k = k + 1;
    }
    let (rest, date_time) = date_time(cur)?;
    let (rest, _) = line_ending(rest)?;
    Ok((rest, HeaderLine { date_time }))
}

/// Parse the trailer line.
pub fn trailer<'a>(line: Span<'a>) -> (r: IResult<'a, TrailerLine>)
    ensures
        yields(&r, line@.input, sp_trailer(line@.input, line@.offset)),
{
    let (rest, _) = tag(line, "ZPT")?;
    let (rest, _) = tag(rest, "|")?;
    let (rest, _) = digit1(rest)?;
    let (rest, _) = tag(rest, "|")?;
    let (rest, _) = digit1(rest)?;
    let (rest, _) = line_ending(rest)?;
    Ok((rest, TrailerLine {  }))
}

/// The ASCII digits from `from` to `to`.
fn digits_between<'a>(from: Span<'a>, to: Span<'a>) -> (r: &'a [u8])
    requires
        from@.input == to@.input,
        to@.offset == crate::text::run_end(from@.input, from@.offset, CharClass::Digit),
    ensures
        r@ == from@.input.subrange(from@.offset, to@.offset),
{
    from.check();
    proof {
        lemma_run_end(from@.input, from@.offset, CharClass::Digit);
    }
    vstd::slice::slice_subrange(from.input(), from.location_offset(), to.location_offset())
}

/// From the profile class line take the profile class number, as in
/// `PFC|1`. This fails if the line is malformed or if the number is not a
/// known profile class.
pub fn profile_class<'a>(line: Span<'a>) -> (r: IResult<'a, ProfileClass>)
    ensures
        yields(&r, line@.input, sp_profile_class(line@.input, line@.offset)),
{
    let (rest, _) = tag(line, "PFC")?;
    let (start, _) = tag(rest, "|")?;
    let (end, _) = digit1(start)?;
    let (rest, _) = line_ending(end)?;
    let digits = digits_between(start, end);
    match ProfileClass::from_digits(digits) {
        Some(c) => Ok((rest, c)),
        None => {
            let mut m = String::from_str("failed to parse profile class: ");
            m.append("cannot parse ");
            push_ascii(&mut m, digits);
            m.append(" into a profile class");
            assert(m@ =~= profile_class_message(ascii_text(digits@)));
            Err(ParseFailure::Error(ParseError::new(m, None, line)))
        },
    }
}

fn offtake_line_rest<'a>(line: Span<'a>, start: Span<'a>, end: Span<'a>) -> (r: IResult<'a, OfftakeRow>)
    requires
        line@.input == start@.input,
        start@.input == end@.input,
        end@.offset == crate::text::run_end(start@.input, start@.offset, CharClass::Digit),
    ensures
        yields(
            &r,
            line@.input,
            sp_offtake_line_rest(line@.input, line@.offset, start@.offset, end@.offset),
        ),
{
    let (rest, _) = tag(end, "|")?;
    let (rest, day) = date(rest)?;
    let (rest, _) = tag(rest, "|")?;
    let (rest, value) = double(rest)?;
    let (rest, _) = line_ending(rest)?;
    let digits = digits_between(start, end);
    match Location::from_digits(digits) {
        Some(location) => Ok((rest, OfftakeRow { location, day, value })),
        None => {
            let mut m = String::from_str("failed to parse location: ");
            m.append("cannot parse ");
            push_ascii(&mut m, digits);
            m.append(" into a location");
            assert(m@ =~= location_message(ascii_text(digits@)));
            let help = String::from_str("location should be a number between 1 and 50");
            Err(ParseFailure::Error(ParseError::new(m, Some(help), line)))
        },
    }
}

/// Parse a single offtake line.
pub fn offtake_line<'a>(line: Span<'a>) -> (r: IResult<'a, OfftakeRow>)
    ensures
        yields(&r, line@.input, sp_offtake_line(line@.input, line@.offset)),
{
    let (rest, _) = tag(line, "DPP")?;
    let (start, _) = tag(rest, "|")?;
    let (end, _) = digit1(start)?;
    offtake_line_rest(line, start, end)
}

/// The end of a set of offtake lines, which is not consumed: a new profile
/// group or the trailer.
pub fn offtake_group_terminator<'a>(input: Span<'a>) -> (r: IResult<'a, &'static str>)
    ensures
        yields(&r, input@.input, sp_offtake_group_terminator(input@.input, input@.offset)),
{
    match tag(input, "PFC") {
        Ok(_) => Ok((input, "PFC")),
        Err(ParseFailure::Error(_)) => match tag(input, "ZPT") {
            Ok(_) => Ok((input, "ZPT")),
            Err(e) => Err(e),
        },
        Err(e) => Err(e),
    }
}

/// Offtake lines, each starting with `DPP`, up to a new profile group
/// starting with `PFC` or the trailer starting with `ZPT`.
pub fn offtake_group_parser<'a>(input: Span<'a>) -> (r: IResult<'a, Vec<OfftakeRow>>)
    ensures
        yields(&r, input@.input, sp_offtake_group(input@.input, input@.offset)),
{
    let ghost s = input@.input;
    let (mut cur, first) = offtake_line(input)?;
    let mut rows: Vec<OfftakeRow> = Vec::new();
    rows.push(first);
    assert(rows.deep_view() =~= seq![first.deep_view()]);
    loop
        invariant
            s == input@.input,
            cur@.input == s,
            sp_offtake_group(s, input@.offset) == prepend(
                rows.deep_view(),
                sp_offtake_lines_after(s, cur@.offset),
            ),
        decreases remaining(s, cur@.offset),
    {
        match offtake_group_terminator(cur) {
            Ok(_) => {
                proof {
                    lemma_prepend(rows.deep_view(), Seq::empty(), Ok((0int, Seq::empty())), cur@.offset);
                }
                return Ok((cur, rows));
            },
            Err(ParseFailure::Error(terminator_error)) => match tag(cur, "DPP") {
                Ok(_) => match offtake_line(cur) {
                    Ok((next, row)) => {
                        cur.check();
                        next.check();
                        if next.location_offset() == cur.location_offset() {
                            return Err(
                                ParseFailure::Error(
                                    ParseError::from_error_kind(cur, ErrorKind::SeparatedNonEmptyList),
                                ),
                            );
                        }
                        proof {
                            lemma_offtake_line_forward(s, cur@.offset);
                            lemma_prepend(
                                rows.deep_view(),
                                seq![row.deep_view()],
                                sp_offtake_lines_after(s, next@.offset),
                                0,
                            );
                        }
                        let ghost before = rows.deep_view();
                        rows.push(row);
                        assert(rows.deep_view() =~= before + seq![row.deep_view()]);
                        cur = next;
                    },
                    Err(ParseFailure::Error(_)) => return Err(ParseFailure::Error(terminator_error)),
                    Err(e) => return Err(e),
                },
                Err(ParseFailure::Error(_)) => return Err(ParseFailure::Error(terminator_error)),
                Err(e) => return Err(e),
            },
            Err(e) => return Err(e),
        }
    }
}

/// The profile class line with its offtake lines, as in
///
/// ```text
/// PFC|1
/// DPP|1|20230401|.0000355
/// DPP|2|20230401|.0000354
/// ```
pub fn profile_class_group<'a>(line: Span<'a>) -> (r: IResult<'a, ProfileGroups>)
    ensures
        yields(&r, line@.input, sp_profile_class_group(line@.input, line@.offset)),
{
    let (input, profile_class) = profile_class(line)?;
    let (rest, values) = offtake_group_parser(input)?;
    Ok((rest, ProfileGroups { profile_class, values }))
}

/// The profile class groups, each starting with `PFC`, up to the trailer
/// starting with `ZPT`.
pub fn offtake_file<'a>(input: Span<'a>) -> (r: IResult<'a, Vec<ProfileGroups>>)
    ensures
        yields(&r, input@.input, sp_offtake_file(input@.input, input@.offset)),
{
    let ghost s = input@.input;
    let (mut cur, first) = profile_class_group(input)?;
    let mut groups: Vec<ProfileGroups> = Vec::new();
    groups.push(first);
    assert(groups.deep_view() =~= seq![first.deep_view()]);
    loop
        invariant
            s == input@.input,
            cur@.input == s,
            sp_offtake_file(s, input@.offset) == prepend(
                groups.deep_view(),
                sp_groups_after(s, cur@.offset),
            ),
        decreases remaining(s, cur@.offset),
    {
        match tag(cur, "ZPT") {
            Ok(_) => {
                proof {
                    lemma_prepend(groups.deep_view(), Seq::empty(), Ok((0int, Seq::empty())), cur@.offset);
                }
                return Ok((cur, groups));
            },
            Err(ParseFailure::Error(terminator_error)) => match tag(cur, "PFC") {
                Ok(_) => match profile_class_group(cur) {
                    Ok((next, group)) => {
                        cur.check();
                        next.check();
                        if next.location_offset() == cur.location_offset() {
                            return Err(
                                ParseFailure::Error(
                                    ParseError::from_error_kind(cur, ErrorKind::SeparatedNonEmptyList),
                                ),
                            );
                        }
                        proof {
                            lemma_profile_class_group_forward(s, cur@.offset);
                            lemma_prepend(
                                groups.deep_view(),
                                seq![group.deep_view()],
                                sp_groups_after(s, next@.offset),
                                0,
                            );
                        }
                        let ghost before = groups.deep_view();
                        groups.push(group);
                        assert(groups.deep_view() =~= before + seq![group.deep_view()]);
                        cur = next;
                    },
                    Err(ParseFailure::Error(_)) => return Err(ParseFailure::Error(terminator_error)),
                    Err(e) => return Err(e),
                },
                Err(ParseFailure::Error(_)) => return Err(ParseFailure::Error(terminator_error)),
                Err(e) => return Err(e),
            },
            Err(e) => return Err(e),
        }
    }
}

/// The main parser: the header, then the offtake lines in their profile
/// groups, and finally the trailer. The rest that is returned starts at the
/// trailer line.
pub fn parse_flow_file<'a>(file: Span<'a>) -> (r: IResult<'a, WrappedFile>)
    ensures
        yields(&r, file@.input, sp_parse_flow_file(file@.input, file@.offset)),
{
    let (rest, header) = header(file)?;
    let (rest, offtakes) = offtake_file(rest)?;
    let (_, trailer) = trailer(rest)?;
    Ok((rest, WrappedFile { header, file: OfftakeFile { profile_groups: offtakes }, trailer }))
}

} // verus!
