//! What holds of every electricity flow file that the parsers accept.
use super::parser::{
    lemma_date_forward, lemma_offtake_line_forward, lemma_offtake_lines_after_forward,
    lemma_profile_class_group_forward, sp_date_time, sp_header, sp_header_field,
    sp_header_fields, sp_offtake_file, sp_offtake_group, sp_offtake_group_terminator,
    sp_offtake_line, sp_offtake_lines_after, sp_parse_flow_file, sp_profile_class_group,
    sp_groups_after, sp_trailer, sp_date,
};
use crate::calendar::{Date, DateTime, naive_date_time_parse};
use crate::number::sp_double;
use crate::text::{ascii_text, run_end, sp_line_ending};
use super::{
    Location, OfftakeRowView, ProfileClass, ProfileGroupsView, location_from_text,
    location_numbered, profile_class_from_text,
};
use crate::errors::ErrorKind;
use crate::text::{
    decimal_text, digit_char, lemma_run1_forward, moves_forward, remaining, sp_tag, CharClass,
};
use vstd::prelude::*;

verus! {

/// The group terminator only looks ahead: where it matches it consumes
/// nothing, and it matches exactly where a profile class line or the trailer
/// starts.
pub proof fn law_terminator_peeks(s: Seq<u8>, p: int)
    ensures
        sp_offtake_group_terminator(s, p) is Ok <==> (sp_tag(s, p, "PFC"@) is Ok || sp_tag(s, p, "ZPT"@) is Ok),
        sp_offtake_group_terminator(s, p) matches Ok((q, t)) ==> q == p && (t == "PFC"@ || t == "ZPT"@),
{
}

proof fn lemma_lines_after_end(s: Seq<u8>, p: int)
    ensures
        sp_offtake_lines_after(s, p) matches Ok((q, _)) ==> sp_offtake_group_terminator(s, q) is Ok,
    decreases remaining(s, p),
{
    if sp_offtake_group_terminator(s, p) is Err && sp_tag(s, p, "DPP"@) is Ok {
        if let Ok((q, _)) = sp_offtake_line(s, p) {
            if q != p {
                lemma_offtake_line_forward(s, p);
                lemma_lines_after_end(s, q);
            }
        }
    }
}

/// A group of offtake lines holds at least one line, and it ends where a
/// profile class line or the trailer starts.
pub proof fn law_offtake_group_shape(s: Seq<u8>, p: int)
    ensures
        sp_offtake_group(s, p) matches Ok((q, rows)) ==> {
            &&& rows.len() >= 1
            &&& sp_offtake_group_terminator(s, q) is Ok
            &&& p <= q
        },
{
    if let Ok((q, row)) = sp_offtake_line(s, p) {
        lemma_offtake_line_forward(s, p);
        lemma_lines_after_end(s, q);
        lemma_offtake_lines_after_forward(s, q);
    }
}

/// Every group that a parsed group list holds has at least one offtake line.
pub open spec fn groups_not_empty(groups: Seq<ProfileGroupsView>) -> bool {
    forall|i: int| 0 <= i < groups.len() ==> #[trigger] groups[i].values.len() >= 1
}

proof fn lemma_group_not_empty(s: Seq<u8>, p: int)
    ensures
        sp_profile_class_group(s, p) matches Ok((q, g)) ==> g.values.len() >= 1,
{
    if let Ok((q, g)) = sp_profile_class_group(s, p) {
        if let Ok((r, _)) = super::parser::sp_profile_class(s, p) {
            law_offtake_group_shape(s, r);
        }
    }
}

proof fn lemma_groups_after_shape(s: Seq<u8>, p: int)
    ensures
        sp_groups_after(s, p) matches Ok((q, gs)) ==> groups_not_empty(gs) && sp_tag(s, q, "ZPT"@) is Ok && p <= q,
    decreases remaining(s, p),
{
    if sp_tag(s, p, "ZPT"@) is Err && sp_tag(s, p, "PFC"@) is Ok {
        if let Ok((q, g)) = sp_profile_class_group(s, p) {
            if q != p {
                lemma_group_not_empty(s, p);
                lemma_profile_class_group_forward(s, p);
                lemma_groups_after_shape(s, q);
                if let Ok((e, gs)) = sp_groups_after(s, q) {
                    assert forall|i: int| 0 <= i < (seq![g] + gs).len() implies #[trigger] (seq![g] + gs)[i].values.len() >= 1 by {
                        if i > 0 {
                            assert((seq![g] + gs)[i] == gs[i - 1]);
                        }
                    }
                }
            }
        }
    }
}

/// The profile groups of a file are one or more, each with at least one
/// offtake line, and they end where the trailer starts.
pub proof fn law_offtake_file_shape(s: Seq<u8>, p: int)
    ensures
        sp_offtake_file(s, p) matches Ok((q, groups)) ==> {
            &&& groups.len() >= 1
            &&& groups_not_empty(groups)
            &&& sp_tag(s, q, "ZPT"@) is Ok
            &&& p <= q
        },
{
    if let Ok((q, g)) = sp_profile_class_group(s, p) {
        lemma_group_not_empty(s, p);
        lemma_profile_class_group_forward(s, p);
        lemma_groups_after_shape(s, q);
        if let Ok((e, gs)) = sp_groups_after(s, q) {
            assert forall|i: int| 0 <= i < (seq![g] + gs).len() implies #[trigger] (seq![g] + gs)[i].values.len() >= 1 by {
                if i > 0 {
                    assert((seq![g] + gs)[i] == gs[i - 1]);
                }
            }
        }
    }
}

proof fn lemma_header_fields_forward(s: Seq<u8>, p: int, n: nat)
    ensures
        moves_forward(sp_header_fields(s, p, n), p),
    decreases n,
{
    if n > 0 {
        lemma_run1_forward(s, p, CharClass::Alpha, ErrorKind::Alpha);
        if let Ok((q, _)) = sp_header_field(s, p) {
            lemma_header_fields_forward(s, q, (n - 1) as nat);
        }
    }
}

/// A flow file that parses has a header, one or more profile groups, each
/// with at least one offtake line, and a trailer; the rest that is returned
/// starts at the trailer line.
pub proof fn law_flow_file_shape(s: Seq<u8>, p: int)
    ensures
        sp_parse_flow_file(s, p) matches Ok((q, f)) ==> {
            &&& f.profile_groups.len() >= 1
            &&& groups_not_empty(f.profile_groups)
            &&& sp_trailer(s, q) is Ok
            &&& p <= q
        },
{
    lemma_header_fields_forward(s, p, 6);
    if let Ok((p1, _)) = sp_header_fields(s, p, 6) {
        lemma_run1_forward(s, p1, CharClass::Digit, ErrorKind::Digit);
    }
    if let Ok((p1, _)) = sp_header(s, p) {
        law_offtake_file_shape(s, p1);
    }
}

/// The number of a profile class, from 1 to 8.
pub open spec fn profile_class_number(c: ProfileClass) -> int {
    match c {
        ProfileClass::Class1 => 1,
        ProfileClass::Class2 => 2,
        ProfileClass::Class3 => 3,
        ProfileClass::Class4 => 4,
        ProfileClass::Class5 => 5,
        ProfileClass::Class6 => 6,
        ProfileClass::Class7 => 7,
        ProfileClass::Class8 => 8,
    }
}

/// Each profile class is named by its number, and by nothing else.
pub proof fn law_profile_class_names(c: ProfileClass, t: Seq<char>)
    ensures
        1 <= profile_class_number(c) <= 8,
        profile_class_from_text(decimal_text(profile_class_number(c) as nat)) == Some(c),
        profile_class_from_text(t) == Some(c) ==> t == decimal_text(profile_class_number(c) as nat),
{
    let n = profile_class_number(c) as nat;
    assert(decimal_text(n) == seq![digit_char(n)]);
    if profile_class_from_text(t) == Some(c) {
        assert(t =~= seq![digit_char(n)]);
    }
}

proof fn lemma_location_numbering(l: Location, n: int)
    ensures
        1 <= l.number() <= 50,
        location_numbered(l.number()) == l,
        1 <= n <= 50 ==> location_numbered(n).number() == n,
{
}

/// Each location is named by its number, written in decimal without
/// leading zeros, and by nothing else.
pub proof fn law_location_names(l: Location, t: Seq<char>)
    ensures
        1 <= l.number() <= 50,
        location_from_text(decimal_text(l.number() as nat)) == Some(l),
        location_from_text(t) == Some(l) ==> t == decimal_text(l.number() as nat),
{
    let n = l.number();
    lemma_location_numbering(l, n);
    if n >= 10 {
        assert(decimal_text((n / 10) as nat) == seq![digit_char((n / 10) as nat)]);
        assert(decimal_text(n as nat) =~= seq![digit_char((n / 10) as nat), digit_char((n % 10) as nat)]);
    } else {
        assert(decimal_text(n as nat) == seq![digit_char(n as nat)]);
    }
    if location_from_text(t) == Some(l) {
        if t.len() == 1 {
            let d = super::digit_value(t[0]);
            lemma_location_numbering(l, d);
            assert(t =~= seq![digit_char(n as nat)]);
        } else {
            let d = 10 * super::digit_value(t[0]) + super::digit_value(t[1]);
            lemma_location_numbering(l, d);
            assert(decimal_text((n / 10) as nat) == seq![digit_char((n / 10) as nat)]);
            assert(t =~= seq![digit_char((n / 10) as nat), digit_char((n % 10) as nat)]);
        }
    }
}

/// The rows `rows` are the offtake lines of `s` read one after another: the
/// `i`-th line starts at `o[i]` and the next one where it ends.
pub open spec fn lines_at(s: Seq<u8>, o: Seq<int>, rows: Seq<OfftakeRowView>) -> bool {
    &&& o.len() == rows.len() + 1
    &&& forall|i: int| 0 <= i < rows.len() ==> #[trigger] sp_offtake_line(s, o[i])
        == Ok::<(int, OfftakeRowView), crate::errors::Fault>((o[i + 1], rows[i]))
}

proof fn lemma_lines_after_chain(s: Seq<u8>, p: int) -> (o: Seq<int>)
    ensures
        sp_offtake_lines_after(s, p) matches Ok((e, rows)) ==> {
            &&& lines_at(s, o, rows)
            &&& o[0] == p
            &&& o[rows.len() as int] == e
        },
    decreases remaining(s, p),
{
    if sp_offtake_group_terminator(s, p) is Err && sp_tag(s, p, "DPP"@) is Ok {
        if let Ok((q, row)) = sp_offtake_line(s, p) {
            if q != p {
                lemma_offtake_line_forward(s, p);
                let o2 = lemma_lines_after_chain(s, q);
                if let Ok((e, rows2)) = sp_offtake_lines_after(s, q) {
                    let rows = seq![row] + rows2;
                    let o = seq![p] + o2;
                    assert forall|i: int| 0 <= i < rows.len() implies #[trigger] sp_offtake_line(s, o[i])
                        == Ok::<(int, OfftakeRowView), crate::errors::Fault>((o[i + 1], rows[i])) by {
                        if i > 0 {
                            assert(o[i] == o2[i - 1] && o[i + 1] == o2[i] && rows[i] == rows2[i - 1]);
                        }
                    }
                    return o;
                }
            }
        }
    }
    seq![p]
}

/// Every row of a group is what the offtake line at its own place reads,
/// its date included: the lines follow one another from the start of the
/// group to its end, where a profile class line or the trailer starts.
#[verifier::spinoff_prover]
proof fn lemma_group_chain(s: Seq<u8>, p: int) -> (o: Seq<int>)
    ensures
        sp_offtake_group(s, p) matches Ok((e, rows)) ==> lines_at(s, o, rows) && o[0] == p && o[rows.len() as int] == e,
{
    if let Ok((q, row)) = sp_offtake_line(s, p) {
        let o2 = lemma_lines_after_chain(s, q);
        if let Ok((e, rows2)) = sp_offtake_lines_after(s, q) {
            let rows = seq![row] + rows2;
            let o = seq![p] + o2;
            assert forall|i: int| 0 <= i < rows.len() implies #[trigger] sp_offtake_line(s, o[i])
                == Ok::<(int, OfftakeRowView), crate::errors::Fault>((o[i + 1], rows[i])) by {
                if i > 0 {
                    assert(o[i] == o2[i - 1] && o[i + 1] == o2[i] && rows[i] == rows2[i - 1]);
                }
            }
            return o;
        }
    }
    seq![p]
}

/// Every row of a group is what the offtake line at its own place reads,
/// its date included: the lines follow one another from the start of the
/// group to its end, where a profile class line or the trailer starts.
pub proof fn law_group_rows_are_lines(s: Seq<u8>, p: int)
    ensures
        sp_offtake_group(s, p) matches Ok((e, rows)) ==> exists|o: Seq<int>| #[trigger] lines_at(s, o, rows) && o[0] == p && o[rows.len() as int] == e,
        sp_offtake_group(s, p) matches Ok((e, rows)) ==> sp_offtake_group_terminator(s, e) is Ok,
{
    let o = lemma_group_chain(s, p);
    law_offtake_group_shape(s, p);
}

/// An offtake line `DPP|location|date|value` gives the location that its
/// digits name, the day that its date field reads as, and the text of its
/// value.
pub proof fn law_offtake_line_fields(s: Seq<u8>, p: int)
    ensures
        sp_offtake_line(s, p) matches Ok((q, row)) ==> {
            let d = run_end(s, p + 4, CharClass::Digit);
            &&& location_from_text(ascii_text(s.subrange(p + 4, d))) == Some(row.location)
            &&& sp_date(s, d + 1) matches Ok((p5, day)) && {
                &&& day == row.day
                &&& sp_double(s, p5 + 1) matches Ok((p7, value)) && value == row.value
                    && sp_line_ending(s, p7) == Ok::<(int, ()), crate::errors::Fault>((q, ()))
            }
        },
{
    lemma_dpp_bytes();
    lemma_pipe_bytes();
}

proof fn lemma_dpp_bytes()
    ensures
        vstd::utf8::encode_utf8("DPP"@).len() == 3,
{
    reveal_strlit("DPP");
    vstd::utf8::is_ascii_chars_encode_utf8("DPP"@);
}

proof fn lemma_pipe_bytes()
    ensures
        vstd::utf8::encode_utf8("|"@).len() == 1,
{
    reveal_strlit("|");
    vstd::utf8::is_ascii_chars_encode_utf8("|"@);
}

/// The header's date and time is the one that `sp_date_time` reads from the
/// digits after the six header fields: chrono's reading of exactly those
/// digits with the format `%Y%m%d%H%M%S`, each of its parts kept in place
/// (year, month, day, hour, minute, second, nanosecond), and the line ends
/// right after the digits.
pub proof fn law_header_date_time(s: Seq<u8>, p: int)
    ensures
        sp_header(s, p) matches Ok((e, h)) ==> sp_header_fields(s, p, 6) matches Ok((q, _)) && {
            let r = run_end(s, q, CharClass::Digit);
            &&& q < r
            &&& sp_date_time(s, q) == Ok::<(int, DateTime), crate::errors::Fault>((r, h.date_time))
            &&& naive_date_time_parse(s.subrange(q, r), "%Y%m%d%H%M%S"@) matches Ok(t) && h.date_time == (DateTime {
                date: Date { year: t.0, month: t.1, day: t.2 },
                hour: t.3,
                minute: t.4,
                second: t.5,
                nanosecond: t.6,
            })
            &&& sp_line_ending(s, r) == Ok::<(int, ()), crate::errors::Fault>((e, ()))
        },
{
    if let Ok((q, _)) = sp_header_fields(s, p, 6) {
        if let Ok((r, d)) = sp_date_time(s, q) {
            assert(r == run_end(s, q, CharClass::Digit));
            assert(0 <= q < s.len());
            crate::text::lemma_run_end(s, q, CharClass::Digit);
            if let Ok(t) = naive_date_time_parse(s.subrange(q, r), "%Y%m%d%H%M%S"@) {
                assert(d == crate::calendar::date_time_of(t));
            }
            if let Ok((e, _)) = sp_line_ending(s, r) {
                assert(sp_header(s, p) == Ok::<(int, super::HeaderLine), crate::errors::Fault>((e, super::HeaderLine { date_time: d })));
            }
        }
    }
}

} // verus!
