use kafi_kaesseli::currency_handling::currency_formatter::{
    CurrencyFormatter, CurrencyFormatterImpl,
};
use kafi_kaesseli::currency_handling::currency_parser::{CurrencyParser, CurrencyParserImpl};
use kafi_kaesseli::models::Rappen;

fn format_and_parse(amount: Rappen) {
    let formatted_amount = CurrencyFormatterImpl::default().format_amount(amount);

    let parser = CurrencyParserImpl::default();
    let parsed_amount = parser.parse_text(&formatted_amount).unwrap();

    assert_eq!(amount, parsed_amount);
}

#[test]
fn lib_parses_and_formats_zero() {
    format_and_parse(0)
}

#[test]
fn lib_parses_and_formats_negative_rappen_amount() {
    format_and_parse(-50)
}

#[test]
fn main_parses_and_formats_zero() {
    format_and_parse(0)
}

#[test]
fn main_parses_and_formats_negative_rappen_amount() {
    format_and_parse(-50)
}

#[test]
fn parses_and_formats_extremes_and_mixed_amounts() {
    for amount in [
        i32::MIN,
        i32::MIN + 1,
        -2_000_000_000,
        -101,
        -100,
        -99,
        -50,
        -1,
        1,
        99,
        100,
        101,
        12345,
        2_000_000_000,
        i32::MAX - 1,
        i32::MAX,
    ] {
        format_and_parse(amount);
    }
}
