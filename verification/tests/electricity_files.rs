use offtake_parser::electricity_offtake_parser::parser::{
    date, header, offtake_group_parser, offtake_group_terminator, offtake_line, parse_flow_file,
    profile_class, trailer,
};
use offtake_parser::electricity_offtake_parser::{Location, ProfileClass};
use offtake_parser::errors::{ParseError, ParseFailure};
use offtake_parser::span::Span;

const FILE: &str = "ZHV|HDR|ELX|AUC|EXP|ALL|20230401123000
PFC|1
DPP|1|20230401|.0000355
DPP|2|20230401|.0000354
PFC|8
DPP|50|20230402|1.5
ZPT|140554|1564691006
";

fn error<'a, T>(r: Result<(Span<'a>, T), ParseFailure<'a>>) -> ParseError<'a> {
    match r {
        Err(ParseFailure::Error(e)) => e,
        Err(ParseFailure::Failure(_)) => panic!("unexpected failure"),
        Err(ParseFailure::Incomplete) => panic!("unexpected incomplete"),
        Ok(_) => panic!("unexpected success"),
    }
}

#[test]
fn flow_file_parses_header_groups_and_trailer() {
    let (rest, file) = parse_flow_file(Span::new(FILE)).ok().unwrap();
    let t = file.header.date_time;
    assert_eq!((t.date.year, t.date.month, t.date.day), (2023, 4, 1));
    assert_eq!((t.hour, t.minute, t.second, t.nanosecond), (12, 30, 0, 0));
    let groups = &file.file.profile_groups;
    assert_eq!(groups.len(), 2);
    assert_eq!(groups[0].profile_class, ProfileClass::Class1);
    assert_eq!(groups[0].values.len(), 2);
    assert_eq!(groups[0].values[1].location, Location::Location2);
    assert_eq!(groups[0].values[1].value, ".0000354");
    assert_eq!(groups[1].profile_class, ProfileClass::Class8);
    assert_eq!(groups[1].values[0].location, Location::Location50);
    assert_eq!(groups[1].values[0].value.parse::<f64>().unwrap(), 1.5);
    assert_eq!(groups[1].values[0].day.day, 2);
    // the rest starts at the trailer line, which is on line 7
    assert_eq!(rest.location_offset(), FILE.find("ZPT").unwrap());
    assert_eq!(rest.location_line(), 7);
    assert!(trailer(rest).is_ok());
}

#[test]
fn flow_file_accepts_crlf_line_endings() {
    let file = FILE.replace('\n', "\r\n");
    let (_, parsed) = parse_flow_file(Span::new(&file)).ok().unwrap();
    assert_eq!(parsed.file.profile_groups.len(), 2);
}

#[test]
fn flow_file_without_trailer_fails_at_its_last_group() {
    // the last group fails where the trailer should stand; the group list
    // then reports that the trailer was expected where that group starts
    let file = FILE.replace("ZPT|140554|1564691006\n", "");
    let e = error(parse_flow_file(Span::new(&file)));
    assert_eq!(e.offset(), file.find("PFC|8").unwrap());
    assert_eq!(e.line(), 5);
    assert_eq!(e.message, "got the incorrect symbol, expected: \"ZPT\"");
}

#[test]
fn unknown_profile_class_is_reported_at_its_line() {
    let e = error(profile_class(Span::new("PFC|9\n")));
    assert_eq!(e.message, "failed to parse profile class: cannot parse 9 into a profile class");
    assert_eq!(e.help, None);
    assert_eq!(e.offset(), 0);
    assert_eq!(e.line(), 1);
}

#[test]
fn unknown_location_is_reported_with_help() {
    let e = error(offtake_line(Span::new("DPP|51|20230401|.1\n")));
    assert_eq!(e.message, "failed to parse location: cannot parse 51 into a location");
    assert_eq!(e.help.as_deref(), Some("location should be a number between 1 and 50"));
    let e = error(offtake_line(Span::new("DPP|05|20230401|.1\n")));
    assert_eq!(e.message, "failed to parse location: cannot parse 05 into a location");
}

#[test]
fn missing_tag_names_the_tag() {
    let e = error(offtake_line(Span::new("DPX|1|20230401|.1\n")));
    assert_eq!(e.message, "got the incorrect symbol, expected: \"DPP\"");
    let e = error(offtake_line(Span::new("DPP|1/20230401|.0000491\n")));
    assert_eq!(e.message, "got the incorrect symbol, expected: \"|\"");
    assert_eq!(e.offset(), 5);
}

#[test]
fn kinds_of_failure_have_their_messages() {
    let e = error(offtake_line(Span::new("DPP|x|20230401|.1\n")));
    assert_eq!(e.message, "parse error Digit");
    assert_eq!(e.offset(), 4);
    let e = error(offtake_line(Span::new("DPP|1|20230401|.1x\n")));
    assert_eq!(e.message, "parse error CrLf");
    let e = error(offtake_line(Span::new("DPP|1|20230401|x\n")));
    assert_eq!(e.message, "expected a decimal number here");
    assert_eq!(e.offset(), 15);
}

#[test]
fn exponent_without_digits_is_a_failure() {
    match offtake_line(Span::new("DPP|1|20230401|1e\n")) {
        Err(ParseFailure::Failure(e)) => {
            assert_eq!(e.message, "expected a decimal number here");
            assert_eq!(e.offset(), 15);
        }
        _ => panic!("expected an unrecoverable failure"),
    }
}

#[test]
fn numbers_in_other_forms() {
    let (_, row) = offtake_line(Span::new("DPP|1|20230401|-1.5e3\n")).ok().unwrap();
    assert_eq!(row.value, "-1.5e3");
    assert_eq!(row.value.parse::<f64>().unwrap(), -1500.0);
    let (_, row) = offtake_line(Span::new("DPP|1|20230401|NaN\n")).ok().unwrap();
    assert_eq!(row.value, "NaN");
    // nom reads `inf` out of `infinity`, and the line does not end there
    let e = error(offtake_line(Span::new("DPP|1|20230401|infinity\n")));
    assert_eq!(e.message, "parse error CrLf");
}

#[test]
fn bad_date_carries_chronos_message() {
    let e = error(date(Span::new("20230552")));
    assert_eq!(e.message, "failed to parse date: input is out of range");
    assert_eq!(e.help.as_deref(), Some("date should be in the format YearMonthDay"));
    let (_, d) = date(Span::new("20240229")).ok().unwrap();
    assert_eq!((d.year, d.month, d.day), (2024, 2, 29));
    assert!(date(Span::new("20230229")).is_err());
}

#[test]
fn terminator_does_not_consume() {
    let (rest, t) = offtake_group_terminator(Span::new("PFC|2\n")).ok().unwrap();
    assert_eq!((rest.location_offset(), t), (0, "PFC"));
    let (rest, t) = offtake_group_terminator(Span::new("ZPT|1|2\n")).ok().unwrap();
    assert_eq!((rest.location_offset(), t), (0, "ZPT"));
    let e = error(offtake_group_terminator(Span::new("DPP|1\n")));
    assert_eq!(e.message, "got the incorrect symbol, expected: \"ZPT\"");
}

#[test]
fn bad_line_inside_a_group_reports_the_terminator() {
    let input = "DPP|1|20230401|.1\nDPP|x|20230401|.1\nPFC|1\n";
    let e = error(offtake_group_parser(Span::new(input)));
    assert_eq!(e.message, "got the incorrect symbol, expected: \"ZPT\"");
    assert_eq!(e.offset(), 18);
    assert_eq!(e.line(), 2);
    // the first line of a group reports its own error
    let e = error(offtake_group_parser(Span::new("DPP|x|20230401|.1\nPFC|1\n")));
    assert_eq!(e.message, "parse error Digit");
}

#[test]
fn group_ends_at_next_profile_class() {
    let input = "DPP|1|20230401|.1\nPFC|2\n";
    let (rest, rows) = offtake_group_parser(Span::new(input)).ok().unwrap();
    assert_eq!(rows.len(), 1);
    assert_eq!(rest.location_offset(), 18);
    assert_eq!(rest.location_line(), 2);
}

#[test]
fn profile_class_names() {
    for (i, c) in [
        ProfileClass::Class1,
        ProfileClass::Class2,
        ProfileClass::Class3,
        ProfileClass::Class4,
        ProfileClass::Class5,
        ProfileClass::Class6,
        ProfileClass::Class7,
        ProfileClass::Class8,
    ]
    .iter()
    .enumerate()
    {
        assert_eq!(ProfileClass::from_str(&(i + 1).to_string()).ok(), Some(*c));
    }
    assert_eq!(
        ProfileClass::from_str("9").err().unwrap(),
        "cannot parse 9 into a profile class"
    );
    assert!(ProfileClass::from_str("01").is_err());
    assert!(ProfileClass::from_str("").is_err());
    assert!(ProfileClass::from_str("é").is_err());
}

#[test]
fn location_names() {
    let mut seen = Vec::new();
    for n in 1..=50 {
        let l = Location::from_str(&n.to_string()).ok().unwrap();
        assert!(!seen.contains(&l));
        seen.push(l);
    }
    assert_eq!(seen[0], Location::Location1);
    assert_eq!(seen[49], Location::Location50);
    assert_eq!(Location::from_str("0").err().unwrap(), "cannot parse 0 into a location");
    assert!(Location::from_str("51").is_err());
    assert!(Location::from_str("007").is_err());
    assert!(Location::from_str("1 ").is_err());
}

#[test]
fn header_fields_are_letters() {
    let e = error(header(Span::new("ZHV|HDR|1LX|AUC|EXP|ALL|20230401123000\n")));
    assert_eq!(e.message, "parse error Alpha");
    assert_eq!(e.offset(), 8);
    let e = error(header(Span::new("ZHV|HDR|ELX|AUC|EXP|ALL|20230401126000\n")));
    assert_eq!(e.message, "failed to parse date: input is out of range");
    assert_eq!(
        e.help.as_deref(),
        Some("date should be in the format YearMonthDayHourMinuteSecond")
    );
    assert_eq!(e.offset(), 24);
    let (rest, h) = header(Span::new("A|B|C|D|E|F|20230401235960\nPFC")).unwrap();
    assert_eq!((h.date_time.second, h.date_time.nanosecond), (59, 1_000_000_000));
    assert_eq!((rest.location_offset(), rest.location_line()), (27, 2));
}

#[test]
fn trailer_needs_two_numbers() {
    assert!(trailer(Span::new("ZPT|1|2\n")).is_ok());
    let e = error(trailer(Span::new("ZPT|1\n")));
    assert_eq!(e.message, "got the incorrect symbol, expected: \"|\"");
    assert_eq!(e.to_string(), "Could not parse flow file");
}
