use offtake_parser::calendar::Date;
use offtake_parser::gas_offtake_parser::parser::{date, raw_date, scwm_file, scwv_row};
use offtake_parser::gas_offtake_parser::{
    Band, ConsumerType, EndUserCategory, LocalDistributionZone, MeterType,
    SeasonalCompositeWeatherVariableRow, UserGroup,
};
use offtake_parser::errors::{ErrorKind, ParseError, ParseFailure};
use offtake_parser::span::Span;

const ROW: &str = r#""01/10/2022", 11.08, 10.65, 11.82, 11.90, 12.14, 12.09, 12.43, 12.82, 14.37, 14.32, 13.78, 14.21, 12.96"#;

fn error<'a, T>(r: Result<(Span<'a>, T), ParseFailure<'a>>) -> ParseError<'a> {
    match r {
        Err(ParseFailure::Error(e)) => e,
        _ => panic!("expected an error"),
    }
}

#[test]
fn row_with_twelve_values_is_refused() {
    let input = r#""01/10/2022", 11.08, 10.65, 11.82, 11.90, 12.14, 12.09, 12.43, 12.82, 14.37, 14.32, 13.78, 14.21"#;
    let e = error(scwv_row(Span::new(input)));
    assert_eq!(
        e.message,
        "incorrect number of seasonal composite weather variables, expected 13 got 12"
    );
    assert_eq!(
        e.help.as_deref(),
        Some("we should get 13 values, one for each region, possibly the file is formatted incorrectly")
    );
    assert_eq!(e.offset(), 0);
}

#[test]
fn row_ending_after_its_comma_needs_more_input() {
    assert!(matches!(
        scwv_row(Span::new("\"01/10/2022\",   ")),
        Err(ParseFailure::Incomplete)
    ));
    assert!(matches!(scwv_row(Span::new("\"01/10/2022\",")), Err(ParseFailure::Incomplete)));
}

#[test]
fn values_need_a_comma_and_a_space() {
    let input = ROW.replacen(", 10.65", ",10.65", 1);
    let e = error(scwv_row(Span::new(&input)));
    assert!(e.message.ends_with("expected 13 got 1"));
}

#[test]
fn short_date_is_end_of_input() {
    let e = error(raw_date(Span::new("01/10")));
    assert_eq!(e.message, "parse error Eof");
    let e = error(date(Span::new("01/10/2022\"")));
    assert_eq!(e.message, "got the incorrect symbol, expected: \"\\\"\"");
}

#[test]
fn date_counts_characters_and_names_the_format() {
    let (rest, d) = raw_date(Span::new("31/12/1999,")).ok().unwrap();
    assert_eq!(d, Date::new(1999, 12, 31));
    assert_eq!(rest.location_offset(), 10);
    let e = error(raw_date(Span::new("01/10/202é\"")));
    assert!(e.message.starts_with("failed to parse date: "));
    assert_eq!(e.help.as_deref(), Some("date should be in the format Day/Month/Year"));
    let e = error(raw_date(Span::new("32/10/2022")));
    assert_eq!(e.message, "failed to parse date: input is out of range");
}

#[test]
fn file_stops_before_a_bad_row() {
    let input = format!("{}\n{}\n\"bad\"", ROW, ROW.replace("01/10", "02/10"));
    let (rest, rows) = scwm_file(Span::new(&input)).ok().unwrap();
    assert_eq!(rows.len(), 2);
    assert_eq!(rows[1].date, Date::new(2022, 10, 2));
    assert_eq!(rest.location_offset(), 2 * ROW.len() + 1);
    assert_eq!(rest.location_line(), 2);
}

#[test]
fn rows_joined_by_line_endings_parse_as_they_do_alone() {
    let second = ROW.replace("01/10", "02/10").replace("12.96", "7.5");
    let (_, alone_first) = scwv_row(Span::new(ROW)).ok().unwrap();
    let (_, alone_second) = scwv_row(Span::new(&second)).ok().unwrap();
    for eol in ["\n", "\r\n"] {
        let input = format!("{}{}{}{}{}", ROW, eol, second, eol, ROW);
        let (rest, rows) = scwm_file(Span::new(&input)).ok().unwrap();
        assert!(rest.fragment().is_empty());
        assert_eq!(rest.location_offset(), input.len());
        assert_eq!(rows.len(), 3);
        assert!(rows[0] == alone_first);
        assert!(rows[1] == alone_second);
        assert!(rows[2] == alone_first);
    }
}

#[test]
fn first_bad_row_fails_the_file() {
    let e = error(scwm_file(Span::new("01/10/2022, 1")));
    assert_eq!(e.message, "got the incorrect symbol, expected: \"\\\"\"");
}

#[test]
fn row_from_array() {
    let values = [
        "1", "2", "3", "4", "5", "6", "7", "8", "9", "10", "11", "12", "13",
    ];
    let r = SeasonalCompositeWeatherVariableRow::new_from_array(Date::new(2022, 10, 1), values);
    assert_eq!(r.sc, "1");
    assert_eq!(r.ws, "8");
    assert_eq!(r.sw, "13");
}

#[test]
fn zone_codes() {
    assert_eq!(LocalDistributionZone::from_str("SC").ok(), Some(LocalDistributionZone::SC));
    assert_eq!(LocalDistributionZone::from_str("LW").ok(), Some(LocalDistributionZone::LW));
    assert_eq!(
        LocalDistributionZone::from_str("XX").err().unwrap(),
        "cannot parse XX into a local distribution zone, should be one of [\"SC\", \"NO\", \"NE\", \"NW\", \"WN\", \"WM\", \"EM\", \"EA\", \"WS\", \"SW\", \"SO\", \"SE\", \"NT\", \"LC\", \"LO\", \"LS\", \"LT\", \"LW\"]"
    );
    assert!(LocalDistributionZone::from_str("sc").is_err());
}

#[test]
fn bands_and_user_groups() {
    assert_eq!(Band::from_str("01").ok(), Some(Band::One));
    assert_eq!(Band::from_str("09").ok(), Some(Band::Nine));
    assert_eq!(Band::from_str("10").err().unwrap(), "unknown end user group band 10");
    assert_eq!(Band::from_str("1").err().unwrap(), "unknown end user group band 1");
    let bpd = UserGroup::from_str("BPD").ok().unwrap();
    assert_eq!(bpd.consumer_type, ConsumerType::Domestic);
    assert_eq!(bpd.meter_type, MeterType::Prepayment);
    let w03 = UserGroup::from_str("W03").ok().unwrap();
    assert_eq!((w03.consumer_type, w03.meter_type), (ConsumerType::Industry, MeterType::Credit));
    assert_eq!(UserGroup::from_str("W05").err().unwrap(), "unknown consumer meter group W05 ");
    let category = EndUserCategory::new(Band::Two, w03);
    assert_eq!(category.band, Band::Two);
    assert_eq!(category.user_group, w03);
}

#[test]
fn error_constructors() {
    let input = "ab\ncd";
    let at = Span::new(input).advance_to(4);
    assert_eq!(at.location_line(), 2);
    let e = ParseError::from_char(at, 'x');
    assert_eq!(e.message, "unexpected character 'x'");
    assert_eq!((e.offset(), e.line()), (4, 2));
    let e = ParseError::from_error_kind(at, ErrorKind::Tag);
    assert_eq!(e.message, "got the incorrect symbol");
    let e = ParseError::from_error_kind(at, ErrorKind::SeparatedList);
    assert_eq!(e.message, "parse error SeparatedList");
    let e = ParseError::from_error_kind(at, ErrorKind::SeparatedNonEmptyList);
    assert_eq!(e.message, "parse error SeparatedNonEmptyList");
    let e = ParseError::from_tag(at, "\"");
    assert_eq!(e.message, "got the incorrect symbol, expected: \"\\\"\"");
    let kept = ParseError::append(at, ErrorKind::Eof, e);
    assert_eq!(kept.offset(), 4);
    let e = ParseError::new("m".to_string(), Some("h".to_string()), at);
    assert_eq!(e.span().location_offset(), 4);
    assert_eq!(e.help.as_deref(), Some("h"));
    assert_eq!(at.fragment(), b"d");
}
