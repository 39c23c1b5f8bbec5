use kafi_kaesseli::currency_handling::currency_parser::{CurrencyParser, CurrencyParserImpl};
use kafi_kaesseli::models::Rappen;

fn test_parser(input: &str, expected: Result<Rappen, ()>) {
    let parser = CurrencyParserImpl::new();
    let actual = parser.parse_text(input);

    assert_eq!(expected, actual);
}

#[test]
fn currency_parser_franken_only() {
    test_parser("2", Ok(200))
}

#[test]
fn currency_parser_dash_for_rappen() {
    test_parser("2.-", Ok(200))
}

#[test]
fn currency_parser_franken_with_zero_rappen() {
    test_parser("2.0", Ok(200))
}

#[test]
fn currency_parser_dash_for_franken() {
    test_parser("-.05", Ok(5))
}

#[test]
fn currency_parser_with_comma() {
    test_parser("1,20", Ok(120))
}

#[test]
fn currency_parser_negative() {
    test_parser("-2.5", Ok(-250))
}

#[test]
fn currency_parser_invalid_rappen_amount() {
    test_parser("2.005", Err(()))
}

#[test]
fn space_after_minus_sign() {
    test_parser("- 1.-", Ok(-100))
}
