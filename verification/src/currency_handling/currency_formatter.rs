//! Writing an amount of minor units in the currency notation.

use crate::currency_handling::notation::{
    abs_of, dec_digits, digit_char, format_amount_spec, franken_part, rappen_part,
};
use crate::models::Rappen;
use vstd::prelude::*;
use vstd::string::*;

verus! {

pub trait CurrencyFormatter {
    /// Writes `amount` in the dash-marker notation.
    fn format_amount(&self, amount: Rappen) -> (r: String)
        ensures
            r@ == format_amount_spec(amount as int),
    ;
}

pub struct CurrencyFormatterImpl;

impl Default for CurrencyFormatterImpl {
    fn default() -> (r: Self)
        ensures
            r == CurrencyFormatterImpl,
    {
        CurrencyFormatterImpl
    }
}

/// The one-character text of a single decimal digit.
fn digit_str(d: u32) -> (r: &'static str)
    requires
        d < 10,
    ensures
        r@ == seq![digit_char(d as int)],
{
    proof {
        reveal_strlit("0");
        reveal_strlit("1");
        reveal_strlit("2");
        reveal_strlit("3");
        reveal_strlit("4");
        reveal_strlit("5");
        reveal_strlit("6");
        reveal_strlit("7");
        reveal_strlit("8");
        reveal_strlit("9");
    }
    let r: &'static str = if d == 0 {
        "0"
    } else if d == 1 {
        "1"
    } else if d == 2 {
        "2"
    } else if d == 3 {
        "3"
    } else if d == 4 {
        "4"
    } else if d == 5 {
        "5"
    } else if d == 6 {
        "6"
    } else if d == 7 {
        "7"
    } else if d == 8 {
        "8"
    } else {
        "9"
    };
    proof {
        assert(r@ =~= seq![digit_char(d as int)]);
    }
    r
}

/// The decimal numeral of `n`.
fn digits_string(n: u32) -> (r: String)
    ensures
        r@ == dec_digits(n as nat),
    decreases n,
{
    if n < 10 {
        let r = String::from_str(digit_str(n));
        proof {
            assert(r@ =~= dec_digits(n as nat));
        }
        r
    } else {
        let mut r = digits_string(n / 10);
        r.append(digit_str(n % 10));
        proof {
            assert(r@ =~= dec_digits(n as nat));
        }
        r
    }
}

/// The absolute value of an amount, total also at `i32::MIN`.
fn abs_rappen(amount: Rappen) -> (r: u32)
    ensures
        r as int == abs_of(amount as int),
{
    if amount >= 0 {
        amount as u32
    } else {
        (-(amount as i64)) as u32
    }
}

/// The major part: the numeral of the whole major units, or the dash
/// marker when a nonzero amount has none.
pub fn format_whole_franken_amount(amount: Rappen) -> (r: String)
    ensures
        r@ == franken_part(amount as int),
{
    let franken_amount = abs_rappen(amount) / 100;
    if amount != 0 && franken_amount == 0 {
        let r = String::from_str("-");
        proof {
            reveal_strlit("-");
            assert(r@ =~= franken_part(amount as int));
        }
        r
    } else {
        digits_string(franken_amount)
    }
}

/// The minor part: always two digits, or the dash marker for zero.
pub fn format_rappen_amount(amount: Rappen) -> (r: String)
    ensures
        r@ == rappen_part(amount as int),
{
    let rappen_amount = abs_rappen(amount) % 100;
    if rappen_amount == 0 {
        let r = String::from_str("-");
        proof {
            reveal_strlit("-");
            assert(r@ =~= rappen_part(amount as int));
        }
        r
    } else {
        let mut r = String::from_str(digit_str(rappen_amount / 10));
        r.append(digit_str(rappen_amount % 10));
        proof {
            assert(r@ =~= rappen_part(amount as int));
        }
        r
    }
}

impl CurrencyFormatter for CurrencyFormatterImpl {
    fn format_amount(&self, amount: Rappen) -> (r: String) {
        let mut r = if amount < 0 {
            String::from_str("- ")
        } else {
            String::new()
        };
        let franken = format_whole_franken_amount(amount);
        r.append(franken.as_str());
        r.append(".");
        let rappen = format_rappen_amount(amount);
        r.append(rappen.as_str());
        proof {
            reveal_strlit("- ");
            reveal_strlit(".");
            assert(r@ =~= format_amount_spec(amount as int));
        }
        r
    }
}

} // verus!
