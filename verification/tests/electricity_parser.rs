use offtake_parser::calendar::{Date, DateTime};
use offtake_parser::electricity_offtake_parser::parser::{
    date, date_time, offtake_file, offtake_group_parser, offtake_line, profile_class,
};
use offtake_parser::electricity_offtake_parser::{Location, OfftakeRow, ProfileClass};
use offtake_parser::span::Span;

fn naive_date(d: &Date) -> chrono::NaiveDate {
    chrono::NaiveDate::from_ymd_opt(d.year, d.month, d.day).unwrap()
}

fn naive_date_time(t: &DateTime) -> chrono::NaiveDateTime {
    naive_date(&t.date)
        .and_hms_nano_opt(t.hour, t.minute, t.second, t.nanosecond)
        .unwrap()
}

/// A row as the location, the day and the value read as a float.
fn row(r: &OfftakeRow) -> (Location, chrono::NaiveDate, f64) {
    (r.location, naive_date(&r.day), r.value.parse::<f64>().unwrap())
}

fn rows(rs: &[OfftakeRow]) -> Vec<(Location, chrono::NaiveDate, f64)> {
    rs.iter().map(row).collect()
}

#[test]
fn test_date_time_valid() {
    // valid input
    let input = "20230102121520";
    let (_, got) = date_time(Span::new(input)).unwrap();
    let d = chrono::NaiveDate::from_ymd_opt(2023, 1, 2).unwrap();
    let t = chrono::NaiveTime::from_hms_opt(12, 15, 20).unwrap();
    let want = chrono::NaiveDateTime::new(d, t);
    assert_eq!(want, naive_date_time(&got));
}

#[test]
fn test_date_time_invalid() {
    let input = "20230552121520";
    assert!(date_time(Span::new(input)).is_err())
}

#[test]
fn test_day_valid() {
    // valid input
    let input = "20230102";
    let (_, got) = date(Span::new(input)).unwrap();
    let want = chrono::NaiveDate::from_ymd_opt(2023, 1, 2).unwrap();
    assert_eq!(want, naive_date(&got));
}

#[test]
fn test_day_invalid() {
    let input = "20230552";
    assert!(date_time(Span::new(input)).is_err())
}

#[test]
fn test_offtake_line_valid() {
    let input = "DPP|1|20230401|.0000491\n";
    let (_, got) = offtake_line(Span::new(input)).unwrap();
    let day = chrono::NaiveDate::from_ymd_opt(2023, 4, 1).unwrap();
    let want = (Location::Location1, day, 0.0000491);
    assert_eq!(want, row(&got))
}

#[test]
fn test_offtake_line_invalid() {
    let input = "DPP|1/20230401|.0000491\n";
    assert!(offtake_line(Span::new(input)).is_err());
}

#[test]
fn test_offtake_group_middle() {
    let input = "DPP|1|20230401|.0000491
DPP|2|20230401|.0000472
DPP|3|20230401|.000039
PFC|2
";
    let (_, got) = offtake_group_parser(Span::new(input)).unwrap();
    let day = chrono::NaiveDate::from_ymd_opt(2023, 4, 1).unwrap();
    let want = vec![
        (Location::Location1, day, 0.0000491),
        (Location::Location2, day, 0.0000472),
        (Location::Location3, day, 0.000039),
    ];
    assert_eq!(want, rows(&got))
}

#[test]
fn test_offtake_group_final() {
    let input = "DPP|1|20230401|.0000491
DPP|2|20230401|0
DPP|3|20230401|.000039
ZPT|
";
    let (_, got) = offtake_group_parser(Span::new(input)).unwrap();
    let day = chrono::NaiveDate::from_ymd_opt(2023, 4, 1).unwrap();
    let want = vec![
        (Location::Location1, day, 0.0000491),
        (Location::Location2, day, 0.0),
        (Location::Location3, day, 0.000039),
    ];
    assert_eq!(want, rows(&got))
}

#[test]
fn test_profile_line() {
    let input = "PFC|2\n";
    let (_, got) = profile_class(Span::new(input)).unwrap();
    let want = ProfileClass::Class2;

    assert_eq!(want, got);
}

#[test]
fn test_profile_groups() {
    let input = "PFC|1
DPP|1|20230401|.1
DPP|2|20230401|.2
PFC|2
DPP|1|20230401|.1
DPP|2|20230401|.2
PFC|3
DPP|1|20230401|.1
DPP|2|20230401|.2
ZPT|140554|1564691006
";

    let (_, got) = offtake_file(Span::new(input)).unwrap();

    let day = chrono::NaiveDate::from_ymd_opt(2023, 4, 1).unwrap();
    let offtake_values = [(Location::Location1, day, 0.1), (Location::Location2, day, 0.2)];
    let want = vec![
        (ProfileClass::Class1, offtake_values.to_vec()),
        (ProfileClass::Class2, offtake_values.to_vec()),
        (ProfileClass::Class3, offtake_values.to_vec()),
    ];
    let got: Vec<_> = got.iter().map(|g| (g.profile_class, rows(&g.values))).collect();

    assert_eq!(want, got)
}
