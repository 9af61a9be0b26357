use offtake_parser::calendar::Date;
use offtake_parser::gas_offtake_parser::parser::{scwm_file, scwv_row};
use offtake_parser::gas_offtake_parser::SeasonalCompositeWeatherVariableRow;
use offtake_parser::span::Span;

/// A row as its date and its values read as floats.
fn row(r: &SeasonalCompositeWeatherVariableRow) -> (chrono::NaiveDate, [f64; 13]) {
    let values = [
        &r.sc, &r.no, &r.nw, &r.ne, &r.em, &r.wm, &r.wn, &r.ws, &r.ea, &r.nt, &r.se, &r.so, &r.sw,
    ];
    (
        naive_date(&r.date),
        values.map(|v| v.parse::<f64>().unwrap()),
    )
}

fn naive_date(d: &Date) -> chrono::NaiveDate {
    chrono::NaiveDate::from_ymd_opt(d.year, d.month, d.day).unwrap()
}

#[test]
fn test_scwv_row() {
    let input = r#""01/10/2022", 11.08, 10.65, 11.82, 11.90, 12.14, 12.09, 12.43, 12.82, 14.37, 14.32, 13.78, 14.21, 12.96"#;

    let (_, got) = scwv_row(Span::new(input)).unwrap();

    let want = (
        chrono::NaiveDate::from_ymd_opt(2022, 10, 1).unwrap(),
        [
            11.08, 10.65, 11.82, 11.90, 12.14, 12.09, 12.43, 12.82, 14.37, 14.32, 13.78, 14.21,
            12.96,
        ],
    );

    assert_eq!(want, row(&got));
}

#[test]
fn test_scwv_file() {
    let input = r#""01/10/2022", 11.08, 10.65, 11.82, 11.90, 12.14, 12.09, 12.43, 12.82, 14.37, 14.32, 13.78, 14.21, 12.96
"02/10/2022", 10.95, 10.52, 11.72, 11.78, 12.03, 11.97, 12.33, 12.74, 14.26, 14.20, 13.68, 14.13, 12.89
"03/10/2022", 10.87, 10.41, 11.62, 11.68, 11.93, 11.88, 12.24, 12.66, 14.15, 14.09, 13.60, 14.06, 12.81
"04/10/2022", 10.79, 10.31, 11.52, 11.59, 11.85, 11.80, 12.15, 12.58, 14.06, 13.99, 13.51, 13.98, 12.74"#;

    let (_, got) = scwm_file(Span::new(input)).unwrap();

    let want = vec![
        (
            chrono::NaiveDate::from_ymd_opt(2022, 10, 1).unwrap(),
            [
                11.08, 10.65, 11.82, 11.90, 12.14, 12.09, 12.43, 12.82, 14.37, 14.32, 13.78,
                14.21, 12.96,
            ],
        ),
        (
            chrono::NaiveDate::from_ymd_opt(2022, 10, 2).unwrap(),
            [
                10.95, 10.52, 11.72, 11.78, 12.03, 11.97, 12.33, 12.74, 14.26, 14.20, 13.68,
                14.13, 12.89,
            ],
        ),
        (
            chrono::NaiveDate::from_ymd_opt(2022, 10, 3).unwrap(),
            [
                10.87, 10.41, 11.62, 11.68, 11.93, 11.88, 12.24, 12.66, 14.15, 14.09, 13.60,
                14.06, 12.81,
            ],
        ),
        (
            chrono::NaiveDate::from_ymd_opt(2022, 10, 4).unwrap(),
            [
                10.79, 10.31, 11.52, 11.59, 11.85, 11.80, 12.15, 12.58, 14.06, 13.99, 13.51,
                13.98, 12.74,
            ],
        ),
    ];

    let got: Vec<_> = got.iter().map(row).collect();
    assert_eq!(want, got);
}
