//! What holds of every seasonal composite weather variable file that the
//! parsers accept.
use super::{
    Band, ConsumerType, LocalDistributionZone, MeterType, SeasonalCompositeWeatherVariableRowView,
    UserGroup, band_from_text, user_group_from_text, zone_from_text,
};
use super::parser::{
    lemma_scwv_row_forward, sp_date, sp_rows_after, sp_scwm_file, sp_scwv_row, sp_values,
    sp_values_after,
};
use crate::number::{lemma_double_text, sp_double};
use crate::text::{
    ascii_text, chars_end, in_class, lemma_run_end, remaining, run_end, sp_line_ending, sp_space0_streaming,
    sp_tag, starts_with, CharClass,
};
use vstd::utf8::encode_utf8;
use vstd::prelude::*;

verus! {

/// A row that parses has exactly thirteen values.
pub proof fn law_row_has_thirteen_values(s: Seq<u8>, p: int)
    ensures
        sp_scwv_row(s, p) matches Ok((q, row)) ==> row.values.len() == 13 && p <= q,
{
    lemma_scwv_row_forward(s, p);
}

/// Every row of a list has thirteen values.
pub open spec fn rows_complete(rows: Seq<SeasonalCompositeWeatherVariableRowView>) -> bool {
    forall|i: int| 0 <= i < rows.len() ==> #[trigger] rows[i].values.len() == 13
}

proof fn lemma_rows_after_complete(s: Seq<u8>, p: int)
    ensures
        sp_rows_after(s, p) matches Ok((q, rows)) ==> rows_complete(rows) && p <= q,
    decreases remaining(s, p),
{
    if let Ok((q, _)) = sp_line_ending(s, p) {
        if q != p {
            if let Ok((e, row)) = sp_scwv_row(s, q) {
                lemma_scwv_row_forward(s, q);
                lemma_rows_after_complete(s, e);
                if let Ok((f, rows)) = sp_rows_after(s, e) {
                    assert forall|i: int| 0 <= i < (seq![row] + rows).len() implies #[trigger] (seq![row] + rows)[i].values.len() == 13 by {
                        if i > 0 {
                            assert((seq![row] + rows)[i] == rows[i - 1]);
                        }
                    }
                }
            }
        }
    }
}

/// A file that parses has one or more rows, each with thirteen values.
pub proof fn law_file_rows(s: Seq<u8>, p: int)
    ensures
        sp_scwm_file(s, p) matches Ok((q, rows)) ==> rows.len() >= 1 && rows_complete(rows) && p <= q,
{
    if let Ok((q, row)) = sp_scwv_row(s, p) {
        lemma_scwv_row_forward(s, p);
        lemma_rows_after_complete(s, q);
        if let Ok((f, rows)) = sp_rows_after(s, q) {
            assert forall|i: int| 0 <= i < (seq![row] + rows).len() implies #[trigger] (seq![row] + rows)[i].values.len() == 13 by {
                if i > 0 {
                    assert((seq![row] + rows)[i] == rows[i - 1]);
                }
            }
        }
    }
}

/// The two-letter code of a zone.
pub open spec fn zone_code(z: LocalDistributionZone) -> Seq<char> {
    match z {
        LocalDistributionZone::SC => seq!['S', 'C'],
        LocalDistributionZone::NO => seq!['N', 'O'],
        LocalDistributionZone::NE => seq!['N', 'E'],
        LocalDistributionZone::NW => seq!['N', 'W'],
        LocalDistributionZone::WN => seq!['W', 'N'],
        LocalDistributionZone::WM => seq!['W', 'M'],
        LocalDistributionZone::EM => seq!['E', 'M'],
        LocalDistributionZone::EA => seq!['E', 'A'],
        LocalDistributionZone::WS => seq!['W', 'S'],
        LocalDistributionZone::SW => seq!['S', 'W'],
        LocalDistributionZone::SO => seq!['S', 'O'],
        LocalDistributionZone::SE => seq!['S', 'E'],
        LocalDistributionZone::NT => seq!['N', 'T'],
        LocalDistributionZone::LC => seq!['L', 'C'],
        LocalDistributionZone::LO => seq!['L', 'O'],
        LocalDistributionZone::LS => seq!['L', 'S'],
        LocalDistributionZone::LT => seq!['L', 'T'],
        LocalDistributionZone::LW => seq!['L', 'W'],
    }
}

/// Each zone is named by its code, and by nothing else.
pub proof fn law_zone_codes(z: LocalDistributionZone, t: Seq<char>)
    ensures
        zone_from_text(zone_code(z)) == Some(z),
        zone_from_text(t) == Some(z) ==> t == zone_code(z),
{
    if zone_from_text(t) == Some(z) {
        assert(t =~= zone_code(z));
    }
}

/// The number of a band, from 1 to 9.
pub open spec fn band_number(b: Band) -> int {
    match b {
        Band::One => 1,
        Band::Two => 2,
        Band::Three => 3,
        Band::Four => 4,
        Band::Five => 5,
        Band::Six => 6,
        Band::Seven => 7,
        Band::Eight => 8,
        Band::Nine => 9,
    }
}

/// Each band is named by its number as two digits, and by nothing else.
pub proof fn law_band_names(b: Band, t: Seq<char>)
    ensures
        1 <= band_number(b) <= 9,
        band_from_text(seq!['0', (band_number(b) + 48) as char]) == Some(b),
        band_from_text(t) == Some(b) ==> t == seq!['0', (band_number(b) + 48) as char],
{
    if band_from_text(t) == Some(b) {
        assert(t =~= seq!['0', (band_number(b) + 48) as char]);
    }
}

/// `x` stands at `o` of `t`, and is followed by the end of `t` or by a line
/// ending.
pub open spec fn stands_at(t: Seq<u8>, o: int, x: Seq<u8>) -> bool {
    &&& 0 <= o
    &&& o + x.len() <= t.len()
    &&& t.subrange(o, o + x.len()) == x
    &&& (o + x.len() == t.len() || t[o + x.len()] == 10u8 || t[o + x.len()] == 13u8)
}

proof fn lemma_byte_at(t: Seq<u8>, o: int, x: Seq<u8>, i: int)
    requires
        stands_at(t, o, x),
        0 <= i < x.len(),
    ensures
        t[o + i] == x[i],
{
    assert(t.subrange(o, o + x.len())[i] == x[i]);
}

/// Runs of number bytes, blanks and continuation bytes stop at a line
/// ending, so they end at the same place in `x` and in `t`.
proof fn lemma_run_end_in(t: Seq<u8>, o: int, x: Seq<u8>, a: int, c: CharClass)
    requires
        stands_at(t, o, x),
        0 <= a <= x.len(),
        !in_class(c, 10u8),
        !in_class(c, 13u8),
    ensures
        run_end(t, o + a, c) == o + run_end(x, a, c),
    decreases x.len() - a,
{
    if a < x.len() {
        lemma_byte_at(t, o, x, a);
        if in_class(c, x[a]) {
            lemma_run_end_in(t, o, x, a + 1, c);
        }
    }
}

proof fn lemma_chars_end_in(t: Seq<u8>, o: int, x: Seq<u8>, a: int, n: nat)
    requires
        stands_at(t, o, x),
        0 <= a <= x.len(),
        chars_end(x, a, n) is Some,
    ensures
        chars_end(t, o + a, n) == Some(o + chars_end(x, a, n).unwrap()),
    decreases n,
{
    if n > 0 {
        let next = run_end(x, a + 1, CharClass::Continuation);
        lemma_run_end_in(t, o, x, a + 1, CharClass::Continuation);
        lemma_run_end(x, a + 1, CharClass::Continuation);
        lemma_chars_end_in(t, o, x, next, (n - 1) as nat);
    }
}

proof fn lemma_tag_in(t: Seq<u8>, o: int, x: Seq<u8>, a: int, tg: Seq<char>)
    requires
        stands_at(t, o, x),
        0 <= a,
    ensures
        sp_tag(x, a, tg) matches Ok((q, _)) ==> sp_tag(t, o + a, tg) == Ok::<(int, ()), crate::errors::Fault>((o + q, ())),
{
    let b = encode_utf8(tg);
    if starts_with(x, a, b) {
        assert(t.subrange(o + a, o + a + b.len()) =~= x.subrange(a, a + b.len())) by {
            assert forall|i: int| 0 <= i < b.len() implies #[trigger] t.subrange(o + a, o + a + b.len())[i] == x.subrange(a, a + b.len())[i] by {
                lemma_byte_at(t, o, x, a + i);
            }
        }
    }
}

proof fn lemma_double_in(t: Seq<u8>, o: int, x: Seq<u8>, a: int)
    requires
        stands_at(t, o, x),
        0 <= a <= x.len(),
    ensures
        sp_double(x, a) matches Ok((q, v)) ==> sp_double(t, o + a) == Ok::<(int, Seq<char>), crate::errors::Fault>((o + q, v)),
{
    let e = run_end(x, a, CharClass::Number);
    lemma_run_end_in(t, o, x, a, CharClass::Number);
    lemma_run_end(x, a, CharClass::Number);
    assert(t.subrange(o + a, o + e) =~= x.subrange(a, e)) by {
        assert forall|i: int| 0 <= i < e - a implies #[trigger] t.subrange(o + a, o + e)[i] == x.subrange(a, e)[i] by {
            lemma_byte_at(t, o, x, a + i);
        }
    }
}

proof fn lemma_date_in(t: Seq<u8>, o: int, x: Seq<u8>, a: int)
    requires
        stands_at(t, o, x),
        0 <= a <= x.len(),
    ensures
        sp_date(x, a) matches Ok((q, d)) ==> sp_date(t, o + a) == Ok::<(int, crate::calendar::Date), crate::errors::Fault>((o + q, d)),
{
    lemma_tag_in(t, o, x, a, "\""@);
    if let Ok((p1, _)) = sp_tag(x, a, "\""@) {
        if let Some(p2) = chars_end(x, p1, 10) {
            crate::text::lemma_chars_end(x, p1, 10);
            lemma_chars_end_in(t, o, x, p1, 10);
            assert(t.subrange(o + p1, o + p2) =~= x.subrange(p1, p2)) by {
                assert forall|i: int| 0 <= i < p2 - p1 implies #[trigger] t.subrange(o + p1, o + p2)[i] == x.subrange(p1, p2)[i] by {
                    lemma_byte_at(t, o, x, p1 + i);
                }
            }
            lemma_tag_in(t, o, x, p2, "\""@);
        }
    }
}

proof fn lemma_comma_space_bytes()
    ensures
        encode_utf8(", "@) == seq![44u8, 32u8],
{
    reveal_strlit(", ");
    assert(vstd::utf8::is_ascii_chars(", "@));
    vstd::utf8::is_ascii_chars_encode_utf8(", "@);
    assert(encode_utf8(", "@) =~= seq![44u8, 32u8]);
}

proof fn lemma_quote_bytes()
    ensures
        encode_utf8("\""@) == seq![34u8],
{
    reveal_strlit("\"");
    assert(vstd::utf8::is_ascii_chars("\""@));
    vstd::utf8::is_ascii_chars_encode_utf8("\""@);
    assert(encode_utf8("\""@) =~= seq![34u8]);
}

proof fn lemma_values_after_in(t: Seq<u8>, o: int, x: Seq<u8>, a: int)
    requires
        stands_at(t, o, x),
        0 <= a,
    ensures
        sp_values_after(x, a) matches Ok((e, vs)) ==> (e == x.len()
            ==> sp_values_after(t, o + a) == Ok::<(int, Seq<Seq<char>>), crate::errors::Fault>((o + x.len(), vs))),
    decreases remaining(x, a),
{
    lemma_tag_in(t, o, x, a, ", "@);
    lemma_comma_space_bytes();
    match sp_tag(x, a, ", "@) {
        Ok((q, _)) => {
            if q != a {
                lemma_double_in(t, o, x, q);
                if let Ok((e, v)) = sp_double(x, q) {
                    lemma_values_after_in(t, o, x, e);
                }
            }
        },
        Err(_) => {
            if a == x.len() && o + a < t.len() {
                assert(t[o + a] == 10u8 || t[o + a] == 13u8);
                if o + a + 2 <= t.len() {
                    assert(t.subrange(o + a, o + a + 2)[0] == t[o + a]);
                }
            }
        },
    }
}

proof fn lemma_row_in(t: Seq<u8>, o: int, x: Seq<u8>)
    requires
        stands_at(t, o, x),
    ensures
        sp_scwv_row(x, 0) matches Ok((q, r)) ==> (q == x.len()
            ==> sp_scwv_row(t, o) == Ok::<(int, SeasonalCompositeWeatherVariableRowView), crate::errors::Fault>((o + x.len(), r))),
{
    lemma_date_in(t, o, x, 0);
    if let Ok((p1, _)) = sp_date(x, 0) {
        lemma_tag_in(t, o, x, p1, ","@);
        if let Ok((p2, _)) = sp_tag(x, p1, ","@) {
            lemma_run_end(x, p2, CharClass::Blank);
            lemma_run_end_in(t, o, x, p2, CharClass::Blank);
            if let Ok((p3, _)) = sp_space0_streaming(x, p2) {
                lemma_double_in(t, o, x, p3);
                if let Ok((p4, _)) = sp_double(x, p3) {
                    lemma_values_after_in(t, o, x, p4);
                }
            }
        }
    }
}

/// The texts `xs` joined by the line endings `eols`, one between each two.
pub open spec fn joined(xs: Seq<Seq<u8>>, eols: Seq<Seq<u8>>) -> Seq<u8>
    decreases xs.len(),
{
    if xs.len() == 0 {
        Seq::empty()
    } else if xs.len() == 1 {
        xs[0]
    } else {
        xs[0] + eols[0] + joined(xs.drop_first(), eols.drop_first())
    }
}

/// `\n` or `\r\n`.
pub open spec fn is_line_ending(e: Seq<u8>) -> bool {
    e == seq![10u8] || e == seq![13u8, 10u8]
}

/// Each text of `xs` parses on its own as the row of `rs` at the same place,
/// to its end, and each of `eols` is a line ending.
pub open spec fn rows_apart(xs: Seq<Seq<u8>>, eols: Seq<Seq<u8>>, rs: Seq<SeasonalCompositeWeatherVariableRowView>) -> bool {
    &&& xs.len() >= 1
    &&& eols.len() == xs.len() - 1
    &&& rs.len() == xs.len()
    &&& forall|i: int| 0 <= i < eols.len() ==> is_line_ending(#[trigger] eols[i])
    &&& forall|i: int| 0 <= i < xs.len() ==> #[trigger] sp_scwv_row(xs[i], 0) == Ok::<(int, SeasonalCompositeWeatherVariableRowView), crate::errors::Fault>((xs[i].len() as int, rs[i]))
}

/// Where the rows stop at `e` of `t`: `e` is the end of `t` or a line ending
/// starts there, and the list of rows that `sp_rows_after` reads from `e`
/// is empty.
pub open spec fn ends_rows(t: Seq<u8>, e: int) -> bool {
    &&& (e == t.len() || t[e] == 10u8 || t[e] == 13u8)
    &&& sp_rows_after(t, e) == Ok::<(int, Seq<SeasonalCompositeWeatherVariableRowView>), crate::errors::Fault>((e, Seq::empty()))
}

#[verifier::spinoff_prover]
#[verifier::rlimit(40)]
proof fn lemma_rows_in(t: Seq<u8>, o: int, xs: Seq<Seq<u8>>, eols: Seq<Seq<u8>>, rs: Seq<SeasonalCompositeWeatherVariableRowView>)
    requires
        rows_apart(xs, eols, rs),
        0 <= o,
        o + joined(xs, eols).len() <= t.len(),
        t.subrange(o, o + joined(xs, eols).len()) == joined(xs, eols),
        ends_rows(t, o + joined(xs, eols).len()),
    ensures
        sp_scwv_row(t, o) == Ok::<(int, SeasonalCompositeWeatherVariableRowView), crate::errors::Fault>((o + xs[0].len(), rs[0])),
        sp_rows_after(t, o + xs[0].len()) == Ok::<(int, Seq<SeasonalCompositeWeatherVariableRowView>), crate::errors::Fault>((o + joined(xs, eols).len(), rs.drop_first())),
    decreases xs.len(),
{
    let x = xs[0];
    let j = joined(xs, eols);
    assert(sp_scwv_row(xs[0], 0) == Ok::<(int, SeasonalCompositeWeatherVariableRowView), crate::errors::Fault>((xs[0].len() as int, rs[0])));
    if xs.len() == 1 {
        lemma_row_in(t, o, x);
        assert(rs.drop_first() =~= Seq::<SeasonalCompositeWeatherVariableRowView>::empty());
    } else {
        let e = eols[0];
        assert(is_line_ending(eols[0]));
        let rest = joined(xs.drop_first(), eols.drop_first());
        assert(j == x + e + rest);
        assert(t.subrange(o, o + x.len()) =~= x) by {
            assert forall|i: int| 0 <= i < x.len() implies #[trigger] t.subrange(o, o + x.len())[i] == x[i] by {
                assert(t.subrange(o, o + j.len())[i] == j[i]);
            }
        }
        assert forall|i: int| 0 <= i < e.len() implies #[trigger] t[o + x.len() + i] == e[i] by {
            assert(t.subrange(o, o + j.len())[x.len() + i] == j[x.len() + i]);
        }
        assert(t[o + x.len() + 0] == e[0]);
        lemma_row_in(t, o, x);
        let o2 = o + x.len() + e.len();
        assert(t.subrange(o2, o2 + rest.len()) =~= rest) by {
            assert forall|i: int| 0 <= i < rest.len() implies #[trigger] t.subrange(o2, o2 + rest.len())[i] == rest[i] by {
                assert(t.subrange(o, o + j.len())[x.len() + e.len() + i] == j[x.len() + e.len() + i]);
            }
        }
        let xs2 = xs.drop_first();
        let eols2 = eols.drop_first();
        let rs2 = rs.drop_first();
        assert forall|i: int| 0 <= i < eols2.len() implies is_line_ending(#[trigger] eols2[i]) by {
            assert(eols2[i] == eols[i + 1]);
        }
        assert forall|i: int| 0 <= i < xs2.len() implies #[trigger] sp_scwv_row(xs2[i], 0) == Ok::<(int, SeasonalCompositeWeatherVariableRowView), crate::errors::Fault>((xs2[i].len() as int, rs2[i])) by {
            assert(xs2[i] == xs[i + 1] && rs2[i] == rs[i + 1]);
        }
        lemma_rows_in(t, o2, xs2, eols2, rs2);
        assert(sp_line_ending(t, o + x.len()) == Ok::<(int, ()), crate::errors::Fault>((o2, ())));
        assert(seq![rs2[0]] + rs2.drop_first() =~= rs2);
    }
}

/// Rows that each parse on their own, to their end, parse the same when
/// they are joined by line endings: the file is exactly those rows, and
/// nothing of it is left.
pub proof fn law_joined_rows(xs: Seq<Seq<u8>>, eols: Seq<Seq<u8>>, rs: Seq<SeasonalCompositeWeatherVariableRowView>)
    requires
        rows_apart(xs, eols, rs),
    ensures
        sp_scwm_file(joined(xs, eols), 0) == Ok::<(int, Seq<SeasonalCompositeWeatherVariableRowView>), crate::errors::Fault>((joined(xs, eols).len() as int, rs)),
{
    let t = joined(xs, eols);
    assert(t.subrange(0, t.len() as int) =~= t);
    lemma_rows_in(t, 0, xs, eols, rs);
    assert(seq![rs[0]] + rs.drop_first() =~= rs);
}

/// Rows that each parse on their own, joined by line endings and followed
/// by a line ending and a text that does not start with a row, parse as
/// those rows: the list ends before that last line ending, which is where
/// the rest of the file starts.
pub proof fn law_rows_then_other_line(
    xs: Seq<Seq<u8>>,
    eols: Seq<Seq<u8>>,
    rs: Seq<SeasonalCompositeWeatherVariableRowView>,
    e: Seq<u8>,
    tail: Seq<u8>,
)
    requires
        rows_apart(xs, eols, rs),
        is_line_ending(e),
        sp_scwv_row(joined(xs, eols) + e + tail, (joined(xs, eols).len() + e.len()) as int) matches Err(crate::errors::Fault::Error(_)),
    ensures
        sp_scwm_file(joined(xs, eols) + e + tail, 0) == Ok::<(int, Seq<SeasonalCompositeWeatherVariableRowView>), crate::errors::Fault>((joined(xs, eols).len() as int, rs)),
{
    let j = joined(xs, eols);
    let t = j + e + tail;
    let n = j.len() as int;
    assert(t.subrange(0, n) =~= j);
    assert(t[n] == e[0]);
    if e.len() == 2 {
        assert(t[n + 1] == e[1]);
    }
    assert(sp_line_ending(t, n) == Ok::<(int, ()), crate::errors::Fault>((n + e.len(), ())));
    lemma_rows_in(t, 0, xs, eols, rs);
    assert(seq![rs[0]] + rs.drop_first() =~= rs);
}

/// A file of rows that ends with a line ending, as text files usually do,
/// parses as the same rows; the last line ending is left over.
pub proof fn law_trailing_line_ending(
    xs: Seq<Seq<u8>>,
    eols: Seq<Seq<u8>>,
    rs: Seq<SeasonalCompositeWeatherVariableRowView>,
    e: Seq<u8>,
)
    requires
        rows_apart(xs, eols, rs),
        is_line_ending(e),
    ensures
        sp_scwm_file(joined(xs, eols) + e, 0) == Ok::<(int, Seq<SeasonalCompositeWeatherVariableRowView>), crate::errors::Fault>((joined(xs, eols).len() as int, rs)),
{
    let j = joined(xs, eols);
    let t = j + e;
    assert(j + e + Seq::<u8>::empty() =~= t);
    lemma_quote_bytes();
    assert(!starts_with(t, t.len() as int, encode_utf8("\""@)));
    law_rows_then_other_line(xs, eols, rs, e, Seq::empty());
}

/// The texts `vs` written one after another with `, ` between each two.
pub open spec fn comma_joined(vs: Seq<Seq<char>>) -> Seq<char>
    decreases vs.len(),
{
    if vs.len() == 0 {
        Seq::empty()
    } else if vs.len() == 1 {
        vs[0]
    } else {
        vs[0] + seq![',', ' '] + comma_joined(vs.drop_first())
    }
}

/// The values `vs` stand in `s` from `a` to `e`, the `i`-th at `o[i]`: each
/// is the number that `sp_double` reads where it starts, and the next one
/// starts two bytes after it ends.
pub open spec fn values_at(s: Seq<u8>, a: int, e: int, o: Seq<int>, vs: Seq<Seq<char>>) -> bool {
    &&& vs.len() >= 1
    &&& o.len() == vs.len()
    &&& o[0] == a
    &&& forall|i: int| 0 <= i < vs.len() ==> #[trigger] sp_double(s, o[i])
        == Ok::<(int, Seq<char>), crate::errors::Fault>((o[i] + vs[i].len(), vs[i]))
    &&& forall|i: int| 1 <= i < vs.len() ==> #[trigger] o[i] == o[i - 1] + vs[i - 1].len() + 2
    &&& e == o[vs.len() - 1] + vs[vs.len() - 1].len()
}

proof fn lemma_ascii_concat(x: Seq<u8>, y: Seq<u8>)
    ensures
        ascii_text(x + y) == ascii_text(x) + ascii_text(y),
{
    assert(ascii_text(x + y) =~= ascii_text(x) + ascii_text(y));
}

proof fn lemma_comma_joined_cons(v: Seq<char>, vs: Seq<Seq<char>>)
    requires
        vs.len() >= 1,
    ensures
        comma_joined(seq![v] + vs) == v + seq![',', ' '] + comma_joined(vs),
{
    assert((seq![v] + vs).drop_first() =~= vs);
}

#[verifier::spinoff_prover]
#[verifier::rlimit(40)]
proof fn lemma_values_after_text(s: Seq<u8>, a: int) -> (o: Seq<int>)
    requires
        0 <= a <= s.len(),
    ensures
        sp_values_after(s, a) matches Ok((e, vs)) ==> {
            &&& vs.len() == 0 ==> e == a
            &&& vs.len() > 0 ==> {
                &&& a + 2 <= e <= s.len()
                &&& values_at(s, a + 2, e, o, vs)
                &&& ascii_text(s.subrange(a, e)) == seq![',', ' '] + comma_joined(vs)
            }
        },
    decreases remaining(s, a),
{
    lemma_comma_space_bytes();
    match sp_tag(s, a, ", "@) {
        Ok((q, _)) => {
            if q != a {
                assert(q == a + 2);
                assert(s.subrange(a, q) == seq![44u8, 32u8]);
                lemma_double_text(s, q);
                if let Ok((e1, v)) = sp_double(s, q) {
                    let o2 = lemma_values_after_text(s, e1);
                    if let Ok((e, vs2)) = sp_values_after(s, e1) {
                        let vs = seq![v] + vs2;
                        assert(ascii_text(s.subrange(a, q)) =~= seq![',', ' ']);
                        assert(s.subrange(a, e1) =~= s.subrange(a, q) + s.subrange(q, e1));
                        lemma_ascii_concat(s.subrange(a, q), s.subrange(q, e1));
                        if vs2.len() == 0 {
                            assert(vs =~= seq![v]);
                            let o = seq![q];
                            assert(values_at(s, a + 2, e, o, vs));
                            return o;
                        } else {
                            let o = seq![q] + o2;
                            assert(s.subrange(a, e) =~= s.subrange(a, e1) + s.subrange(e1, e));
                            lemma_ascii_concat(s.subrange(a, e1), s.subrange(e1, e));
                            lemma_comma_joined_cons(v, vs2);
                            assert(ascii_text(s.subrange(a, e)) =~= seq![',', ' '] + comma_joined(vs));
                            assert forall|i: int| 0 <= i < vs.len() implies #[trigger] sp_double(s, o[i])
                                == Ok::<(int, Seq<char>), crate::errors::Fault>((o[i] + vs[i].len(), vs[i])) by {
                                if i > 0 {
                                    assert(o[i] == o2[i - 1] && vs[i] == vs2[i - 1]);
                                }
                            }
                            assert forall|i: int| 1 <= i < vs.len() implies #[trigger] o[i] == o[i - 1] + vs[i - 1].len() + 2 by {
                                if i > 1 {
                                    assert(o[i] == o2[i - 1] && vs[i - 1] == vs2[i - 2] && o[i - 1] == o2[i - 2]);
                                } else {
                                    assert(o[1] == o2[0] && vs[0] == v && v.len() == e1 - q);
                                }
                            }
                            assert(values_at(s, a + 2, e, o, vs));
                            return o;
                        }
                    }
                }
            }
        },
        Err(_) => {},
    }
    Seq::empty()
}

/// The values of a list of numbers are the numbers that `sp_double` reads
/// one after another, each where the one before and its `, ` end; written
/// with `, ` between them they are exactly the text that the list spans.
#[verifier::spinoff_prover]
#[verifier::rlimit(40)]
pub proof fn law_values_text(s: Seq<u8>, p: int)
    requires
        0 <= p <= s.len(),
    ensures
        sp_values(s, p) matches Ok((e, vs)) ==> {
            &&& p <= e <= s.len()
            &&& exists|o: Seq<int>| values_at(s, p, e, o, vs)
            &&& ascii_text(s.subrange(p, e)) == comma_joined(vs)
        },
{
    lemma_double_text(s, p);
    if let Ok((q, v)) = sp_double(s, p) {
        let o2 = lemma_values_after_text(s, q);
        if let Ok((e, vs2)) = sp_values_after(s, q) {
            let vs = seq![v] + vs2;
            if vs2.len() == 0 {
                assert(vs =~= seq![v]);
                let o = seq![p];
                assert(values_at(s, p, e, o, vs));
            } else {
                let o = seq![p] + o2;
                assert(s.subrange(p, e) =~= s.subrange(p, q) + s.subrange(q, e));
                lemma_ascii_concat(s.subrange(p, q), s.subrange(q, e));
                lemma_comma_joined_cons(v, vs2);
                assert(ascii_text(s.subrange(p, e)) =~= comma_joined(vs));
                assert forall|i: int| 0 <= i < vs.len() implies #[trigger] sp_double(s, o[i])
                    == Ok::<(int, Seq<char>), crate::errors::Fault>((o[i] + vs[i].len(), vs[i])) by {
                    if i > 0 {
                        assert(o[i] == o2[i - 1] && vs[i] == vs2[i - 1]);
                    }
                }
                assert forall|i: int| 1 <= i < vs.len() implies #[trigger] o[i] == o[i - 1] + vs[i - 1].len() + 2 by {
                    if i > 1 {
                        assert(o[i] == o2[i - 1] && vs[i - 1] == vs2[i - 2] && o[i - 1] == o2[i - 2]);
                    } else {
                        assert(o[1] == o2[0] && vs[0] == v && v.len() == q - p);
                    }
                }
                assert(values_at(s, p, e, o, vs));
            }
        }
    }
}

proof fn lemma_comma_bytes()
    ensures
        encode_utf8(","@) == seq![44u8],
{
    reveal_strlit(",");
    assert(vstd::utf8::is_ascii_chars(","@));
    vstd::utf8::is_ascii_chars_encode_utf8(","@);
    assert(encode_utf8(","@) =~= seq![44u8]);
}

/// A row's date is the quoted date it starts with, a comma follows it, and
/// after the comma and any blanks the rest of the row is exactly its
/// thirteen values written with `, ` between them, each the number that
/// `sp_double` reads where it starts.
#[verifier::spinoff_prover]
pub proof fn law_row_text(s: Seq<u8>, p: int)
    requires
        0 <= p <= s.len(),
    ensures
        sp_scwv_row(s, p) matches Ok((q, row)) ==> {
            &&& sp_date(s, p) matches Ok((p1, d)) && {
                &&& d == row.date
                &&& 0 <= p1 < s.len() && s[p1] == 44u8
                &&& p1 + 1 <= run_end(s, p1 + 1, CharClass::Blank) <= q <= s.len()
                &&& ascii_text(s.subrange(run_end(s, p1 + 1, CharClass::Blank), q)) == comma_joined(row.values)
                &&& exists|o: Seq<int>| #[trigger] values_at(s, run_end(s, p1 + 1, CharClass::Blank), q, o, row.values)
            }
            &&& row.values.len() == 13
        },
{
    lemma_comma_bytes();
    if let Ok((p1, d)) = sp_date(s, p) {
        if let Ok((p2, _)) = sp_tag(s, p1, ","@) {
            assert(p2 == p1 + 1);
            assert(s.subrange(p1, p1 + 1)[0] == s[p1]);
            lemma_run_end(s, p2, CharClass::Blank);
            if let Ok((p3, _)) = sp_space0_streaming(s, p2) {
                law_values_text(s, p3);
            }
        }
    }
}

/// The letter of a user group code that names the meter type.
pub open spec fn meter_letter(m: MeterType) -> char {
    match m {
        MeterType::Credit => 'N',
        MeterType::Prepayment => 'P',
    }
}

/// The letter of a user group code that names the consumer type.
pub open spec fn consumer_letter(c: ConsumerType) -> char {
    match c {
        ConsumerType::Domestic => 'D',
        ConsumerType::Industry => 'I',
    }
}

/// The three-letter code of a user group: `B`, then `N` for credit or `P`
/// for prepayment, then `D` for domestic or `I` for industry.
pub open spec fn user_group_code(g: UserGroup) -> Seq<char> {
    seq!['B', meter_letter(g.meter_type), consumer_letter(g.consumer_type)]
}

/// The industrial credit group, which `B` and `W01` to `W04` also name.
pub open spec fn industry_credit() -> UserGroup {
    UserGroup { consumer_type: ConsumerType::Industry, meter_type: MeterType::Credit }
}

/// Each user group is named by its code, whose second letter gives the
/// meter type and whose third gives the consumer type; besides, `B` and
/// `W01` to `W04` name industrial credit; no other text names a group.
pub proof fn law_user_group_codes(g: UserGroup, t: Seq<char>)
    ensures
        user_group_from_text(user_group_code(g)) == Some(g),
        user_group_from_text(t) == Some(g) <==> {
            ||| t == user_group_code(g)
            ||| g == industry_credit() && (t == seq!['B'] || t == seq!['W', '0', '1'] || t == seq!['W', '0', '2']
                || t == seq!['W', '0', '3'] || t == seq!['W', '0', '4'])
        },
{
    if user_group_from_text(t) == Some(g) {
        if t.len() == 3 && t[0] == 'B' {
            assert(t =~= user_group_code(g));
        } else if t.len() == 1 {
            assert(t =~= seq!['B']);
        } else {
            assert(t =~= seq!['W', '0', t[2]]);
        }
    }
}

} // verus!
