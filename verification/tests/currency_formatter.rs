use kafi_kaesseli::currency_handling::currency_formatter::{
    CurrencyFormatter, CurrencyFormatterImpl,
};

#[test]
fn currency_formatter_formats_zero_correctly() {
    let expected = String::from("0.-");

    let formatter = CurrencyFormatterImpl::default();
    let actual = formatter.format_amount(0);

    assert_eq!(expected, actual);
}

#[test]
fn currency_formatter_formats_negative_one_hundred_correctly() {
    let expected = String::from("- 1.-");

    let formatter = CurrencyFormatterImpl::default();
    let actual = formatter.format_amount(-100);

    assert_eq!(expected, actual);
}

#[test]
fn currency_formatter_formats_negative_one_hundred_and_one_correctly() {
    let expected = String::from("- 1.01");

    let formatter = CurrencyFormatterImpl::default();
    let actual = formatter.format_amount(-101);

    assert_eq!(expected, actual);
}

#[test]
fn currency_formatter_formats_negative_ninety_nine_correctly() {
    let expected = String::from("- -.99");

    let formatter = CurrencyFormatterImpl::default();
    let actual = formatter.format_amount(-99);

    assert_eq!(expected, actual);
}

#[test]
fn currency_formatter_formats_one_hundred_correctly() {
    let expected = String::from("1.-");

    let formatter = CurrencyFormatterImpl::default();
    let actual = formatter.format_amount(100);

    assert_eq!(expected, actual);
}

#[test]
fn currency_formatter_formats_one_hundred_and_one_correctly() {
    let expected = String::from("1.01");

    let formatter = CurrencyFormatterImpl::default();
    let actual = formatter.format_amount(101);

    assert_eq!(expected, actual);
}

#[test]
fn currency_formatter_formats_ninety_nine_correctly() {
    let expected = String::from("-.99");

    let formatter = CurrencyFormatterImpl::default();
    let actual = formatter.format_amount(99);

    assert_eq!(expected, actual);
}
