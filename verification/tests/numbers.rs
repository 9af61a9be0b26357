use offtake_parser::errors::ParseFailure;
use offtake_parser::number::double;
use offtake_parser::span::Span;

fn number(text: &str) -> (String, usize) {
    match double(Span::new(text)) {
        Ok((rest, n)) => (n, rest.location_offset()),
        _ => panic!("expected a number in {:?}", text),
    }
}

#[test]
fn number_forms() {
    assert_eq!(number("12.96, 1"), ("12.96".to_string(), 5));
    assert_eq!(number("-.5e+3x"), ("-.5e+3".to_string(), 6));
    assert_eq!(number("+7."), ("+7.".to_string(), 3));
    assert_eq!(number("1.e5,"), ("1.e5".to_string(), 4));
    assert_eq!(number("123K-01"), ("123".to_string(), 3));
}

#[test]
fn number_words() {
    assert_eq!(number("NaN, 1"), ("NaN".to_string(), 3));
    assert_eq!(number("Infinity"), ("Inf".to_string(), 3));
    assert_eq!(number("inf"), ("inf".to_string(), 3));
}

#[test]
fn exponent_without_digits_fails_unrecoverably() {
    assert!(matches!(double(Span::new("3e")), Err(ParseFailure::Failure(_))));
    assert!(matches!(double(Span::new("3E-x")), Err(ParseFailure::Failure(_))));
}

#[test]
fn no_number_is_a_recoverable_error() {
    for text in ["", ".e1", "+nan", "-", "abc", "na"] {
        match double(Span::new(text)) {
            Err(ParseFailure::Error(e)) => assert_eq!(e.offset(), 0),
            _ => panic!("expected an error for {:?}", text),
        }
    }
}
