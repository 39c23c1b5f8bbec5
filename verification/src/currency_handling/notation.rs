//! The mathematical definition of the currency notation.
//!
//! An amount of `Rappen` (the minor unit) is written `[- ]MAJOR.MINOR`:
//! the sign prefix `"- "` appears exactly on negative amounts, the major
//! part is a decimal numeral or the dash marker `-` (no major units), and
//! the minor part is two digits or the dash marker `-` (no minor units).
//! Reading accepts `.` or `,` as separator, a one-digit minor part meaning
//! tenths, and a bare major part; a leading `-` is a sign only when it is
//! not immediately followed by a separator, and may be followed by spaces.
//!
//! [`format_amount_spec`] and [`parse_amount_spec`] below are the
//! reference meaning of the two directions; the executable formatter and
//! parser are proved against them, and [`lemma_format_parse_round_trip`]
//! shows that every formatted amount reads back as itself.

use vstd::arithmetic::div_mod::{lemma_fundamental_div_mod, lemma_mod_bound};
use vstd::prelude::*;

verus! {

/// Characters accepted between the major and the minor part.
pub open spec fn is_sep(c: char) -> bool {
    c == '.' || c == ','
}

pub open spec fn is_digit_char(c: char) -> bool {
    c == '0' || c == '1' || c == '2' || c == '3' || c == '4' || c == '5' || c == '6' || c == '7'
        || c == '8' || c == '9'
}

pub open spec fn digit_val(c: char) -> int {
    if c == '0' {
        0
    } else if c == '1' {
        1
    } else if c == '2' {
        2
    } else if c == '3' {
        3
    } else if c == '4' {
        4
    } else if c == '5' {
        5
    } else if c == '6' {
        6
    } else if c == '7' {
        7
    } else if c == '8' {
        8
    } else {
        9
    }
}

pub open spec fn digit_char(d: int) -> char {
    if d == 0 {
        '0'
    } else if d == 1 {
        '1'
    } else if d == 2 {
        '2'
    } else if d == 3 {
        '3'
    } else if d == 4 {
        '4'
    } else if d == 5 {
        '5'
    } else if d == 6 {
        '6'
    } else if d == 7 {
        '7'
    } else if d == 8 {
        '8'
    } else {
        '9'
    }
}

/// The decimal numeral of `n`, most significant digit first.
pub open spec fn dec_digits(n: nat) -> Seq<char>
    decreases n,
{
    if n < 10 {
        seq![digit_char(n as int)]
    } else {
        dec_digits(n / 10).push(digit_char((n % 10) as int))
    }
}

/// The number denoted by a sequence of digit characters.
pub open spec fn digits_val(s: Seq<char>) -> int
    decreases s.len(),
{
    if s.len() == 0 {
        0
    } else {
        digits_val(s.drop_last()) * 10 + digit_val(s.last())
    }
}

pub open spec fn all_digits(s: Seq<char>) -> bool {
    forall|i: int| 0 <= i < s.len() ==> is_digit_char(s[i])
}

/// Length of the longest digit prefix of `s`.
pub open spec fn digit_run(s: Seq<char>) -> nat
    decreases s.len(),
{
    if s.len() > 0 && is_digit_char(s[0]) {
        (1 + digit_run(s.drop_first())) as nat
    } else {
        0
    }
}

pub open spec fn skip_spaces(s: Seq<char>) -> Seq<char>
    decreases s.len(),
{
    if s.len() > 0 && s[0] == ' ' {
        skip_spaces(s.drop_first())
    } else {
        s
    }
}

/// A leading `-` counts as a sign exactly when some character follows it
/// and the very next character is not a separator.
pub open spec fn sign_stripped(s: Seq<char>) -> bool {
    s.len() >= 1 && s[0] == '-' && !(s.len() >= 2 && is_sep(s[1]))
}

/// What remains to be read after the optional sign and the spaces after it.
pub open spec fn body_of(s: Seq<char>) -> Seq<char> {
    if sign_stripped(s) {
        skip_spaces(s.drop_first())
    } else {
        s
    }
}

/// Whether a minor part starts here (the ordered choice commits to it).
pub open spec fn minor_matches(t: Seq<char>) -> bool {
    t.len() >= 1 && is_digit_char(t[0])
}

/// The minor-unit value when the minor part consumes all of `t`:
/// two digits read as themselves, a single digit as tenths.
pub open spec fn minor_exact(t: Seq<char>) -> Option<int> {
    if t.len() == 2 && is_digit_char(t[0]) && is_digit_char(t[1]) {
        Some(10 * digit_val(t[0]) + digit_val(t[1]))
    } else if t.len() == 1 && is_digit_char(t[0]) {
        Some(10 * digit_val(t[0]))
    } else {
        None
    }
}

/// The unsigned value of a sign-free body, by the ordered choice
/// (major sep minor | major sep dash | dash sep minor | major), where the
/// first alternative that matches must consume the whole body.
pub open spec fn parse_body(s: Seq<char>) -> Option<int> {
    let k = digit_run(s) as int;
    if k >= 1 {
        let m = digits_val(s.take(k));
        if k < s.len() && is_sep(s[k]) {
            let t = s.skip(k + 1);
            if minor_matches(t) {
                match minor_exact(t) {
                    Some(r) => Some(m * 100 + r),
                    None => None,
                }
            } else if t.len() >= 1 && t[0] == '-' {
                if t.len() == 1 {
                    Some(m * 100)
                } else {
                    None
                }
            } else {
                None
            }
        } else if k == s.len() {
            Some(m * 100)
        } else {
            None
        }
    } else if s.len() >= 2 && s[0] == '-' && is_sep(s[1]) {
        let t = s.skip(2);
        if minor_matches(t) {
            match minor_exact(t) {
                Some(r) => Some(r),
                None => None,
            }
        } else {
            None
        }
    } else {
        None
    }
}

/// The amount denoted by `s`, or `None` when `s` is not in the notation.
pub open spec fn parse_amount_spec(s: Seq<char>) -> Option<int> {
    match parse_body(body_of(s)) {
        Some(v) => Some(if sign_stripped(s) { -v } else { v }),
        None => None,
    }
}

pub open spec fn abs_of(amount: int) -> int {
    if amount < 0 {
        -amount
    } else {
        amount
    }
}

/// The major part of the written amount: the dash marker when a nonzero
/// amount has no whole major units, else the decimal numeral.
pub open spec fn franken_part(amount: int) -> Seq<char> {
    let fr = abs_of(amount) / 100;
    if amount != 0 && fr == 0 {
        seq!['-']
    } else {
        dec_digits(fr as nat)
    }
}

/// The minor part of the written amount: the dash marker for zero minor
/// units, else always exactly two digits.
pub open spec fn rappen_part(amount: int) -> Seq<char> {
    let rp = abs_of(amount) % 100;
    if rp == 0 {
        seq!['-']
    } else {
        seq![digit_char(rp / 10), digit_char(rp % 10)]
    }
}

/// The written form of an amount: sign prefix iff strictly negative, then
/// the major part, a dot, and the minor part.
pub open spec fn format_amount_spec(amount: int) -> Seq<char> {
    (if amount < 0 {
        seq!['-', ' ']
    } else {
        Seq::<char>::empty()
    }) + franken_part(amount) + seq!['.'] + rappen_part(amount)
}

pub proof fn lemma_dec_digits(n: nat)
    ensures
        dec_digits(n).len() >= 1,
        all_digits(dec_digits(n)),
        digits_val(dec_digits(n)) == n,
    decreases n,
{
    if n < 10 {
        assert(digits_val(dec_digits(n)) == n) by {
            let s = seq![digit_char(n as int)];
            assert(dec_digits(n) == s);
            assert(s.last() == digit_char(n as int));
            assert(s.drop_last() =~= Seq::<char>::empty());
            assert(digits_val(Seq::<char>::empty()) == 0);
            assert(digit_val(digit_char(n as int)) == n);
        };
    } else {
        lemma_dec_digits(n / 10);
        let s = dec_digits(n / 10);
        let d = digit_char((n % 10) as int);
        assert(dec_digits(n) == s.push(d));
        assert(s.push(d).drop_last() =~= s);
        assert(s.push(d).last() == d);
        lemma_fundamental_div_mod(n as int, 10);
        assert(digit_val(d) == n % 10);
        assert(forall|i: int|
            0 <= i < s.push(d).len() ==> is_digit_char(#[trigger] s.push(d)[i])) by {
            assert(forall|i: int| 0 <= i < s.len() ==> is_digit_char(#[trigger] s.push(d)[i]));
        };
    }
}

pub proof fn lemma_digits_val_nonneg(s: Seq<char>)
    requires
        all_digits(s),
    ensures
        digits_val(s) >= 0,
    decreases s.len(),
{
    if s.len() > 0 {
        assert(all_digits(s.drop_last()));
        lemma_digits_val_nonneg(s.drop_last());
        assert(digit_val(s.last()) >= 0);
    }
}

/// Skipping spaces from position `j` lands exactly on `k`, the first
/// position at or after `j` that does not hold a space.
pub proof fn lemma_skip_spaces_exact(s: Seq<char>, j: int, k: int)
    requires
        0 <= j <= k <= s.len(),
        forall|i: int| j <= i < k ==> s[i] == ' ',
        k == s.len() || s[k] != ' ',
    ensures
        skip_spaces(s.subrange(j, s.len() as int)) == s.subrange(k, s.len() as int),
    decreases k - j,
{
    let u = s.subrange(j, s.len() as int);
    if j == k {
        assert(u.len() == 0 || u[0] != ' ');
    } else {
        assert(u[0] == ' ');
        assert(u.drop_first() =~= s.subrange(j + 1, s.len() as int));
        lemma_skip_spaces_exact(s, j + 1, k);
    }
}

/// A digit run is exactly as long as the all-digit prefix that a
/// non-digit (or the end of the text) terminates.
pub proof fn lemma_digit_run_exact(s: Seq<char>, k: int)
    requires
        0 <= k <= s.len(),
        forall|i: int| 0 <= i < k ==> is_digit_char(s[i]),
        k == s.len() || !is_digit_char(s[k]),
    ensures
        digit_run(s) == k,
    decreases s.len(),
{
    if k == 0 {
        assert(s.len() == 0 || !is_digit_char(s[0]));
    } else {
        assert(is_digit_char(s[0]));
        let t = s.drop_first();
        assert(forall|i: int| 0 <= i < k - 1 ==> is_digit_char(#[trigger] t[i]));
        lemma_digit_run_exact(t, k - 1);
    }
}

} // verus!

verus! {

/// Round trip: every representable amount, written out, reads back as
/// itself — the written form is always in the language the reader
/// accepts, and denotes the same number of minor units.
pub proof fn lemma_format_parse_round_trip(amount: int)
    requires
        i32::MIN <= amount <= i32::MAX,
    ensures
        parse_amount_spec(format_amount_spec(amount)) == Some(amount),
{
    let a = abs_of(amount);
    let fr = a / 100;
    let rp = a % 100;
    lemma_fundamental_div_mod(a, 100);
    lemma_mod_bound(a, 100);
    lemma_fundamental_div_mod(rp, 10);
    lemma_mod_bound(rp, 10);
    let fr_part = franken_part(amount);
    let rp_part = rappen_part(amount);
    let s = format_amount_spec(amount);
    let body0 = fr_part + seq!['.'] + rp_part;

    if !(amount != 0 && fr == 0) {
        lemma_dec_digits(fr as nat);
    }
    assert(fr_part.len() >= 1);
    assert(rp_part.len() >= 1);

    // The sign is read exactly on negative amounts, and the remaining
    // body is the major part, the dot, and the minor part.
    if amount < 0 {
        assert(s == seq!['-', ' '] + fr_part + seq!['.'] + rp_part);
        assert(s[0] == '-');
        assert(s[1] == ' ');
        assert(!is_sep(' '));
        assert(sign_stripped(s));
        assert(s.drop_first() =~= s.subrange(1, s.len() as int));
        assert(s[2] == fr_part[0]);
        assert(s[2] != ' ') by {
            if amount != 0 && fr == 0 {
                assert(fr_part[0] == '-');
            } else {
                assert(is_digit_char(fr_part[0]));
            }
        };
        lemma_skip_spaces_exact(s, 1, 2);
        assert(s.subrange(2, s.len() as int) =~= body0);
        assert(body_of(s) == body0);
    } else {
        assert(s == Seq::<char>::empty() + fr_part + seq!['.'] + rp_part);
        assert(s =~= body0);
        if amount != 0 && fr == 0 {
            assert(s[0] == '-');
            assert(s[1] == '.');
            assert(!sign_stripped(s));
        } else {
            assert(s[0] == fr_part[0]);
            assert(is_digit_char(s[0]));
            assert(s[0] != '-');
            assert(!sign_stripped(s));
        }
        assert(body_of(s) == body0);
    }

    // The body parses back to the unsigned value.
    if amount != 0 && fr == 0 {
        // Dash marker for the major part: only `- sep minor` applies.
        assert(fr_part == seq!['-']);
        assert(rp == a);
        assert(rp != 0);
        assert(body0[0] == '-');
        assert(!is_digit_char('-'));
        assert(digit_run(body0) == 0);
        assert(body0[1] == '.');
        let t = body0.skip(2);
        assert(t =~= rp_part);
        assert(t.len() == 2);
        assert(t[0] == digit_char(rp / 10));
        assert(t[1] == digit_char(rp % 10));
        assert(rp / 10 < 10);
        assert(is_digit_char(digit_char(rp / 10)));
        assert(is_digit_char(digit_char(rp % 10)));
        assert(digit_val(digit_char(rp / 10)) == rp / 10);
        assert(digit_val(digit_char(rp % 10)) == rp % 10);
        assert(minor_exact(t) == Some(10 * (rp / 10) + rp % 10));
        assert(10 * (rp / 10) + rp % 10 == rp);
        assert(parse_body(body0) == Some(rp));
        assert(parse_body(body0) == Some(a));
    } else {
        // The major part is a numeral.
        assert(fr_part == dec_digits(fr as nat));
        let ell = fr_part.len() as int;
        assert(forall|i: int| 0 <= i < ell ==> is_digit_char(#[trigger] body0[i])) by {
            assert(forall|i: int| 0 <= i < ell ==> body0[i] == fr_part[i]);
        };
        assert(body0[ell] == '.');
        assert(!is_digit_char('.'));
        lemma_digit_run_exact(body0, ell);
        assert(body0.take(ell) =~= fr_part);
        assert(digits_val(body0.take(ell)) == fr);
        assert(is_sep(body0[ell]));
        let t = body0.skip(ell + 1);
        assert(t =~= rp_part);
        if rp == 0 {
            assert(t == seq!['-']);
            assert(t.len() == 1);
            assert(t[0] == '-');
            assert(!minor_matches(t));
            assert(parse_body(body0) == Some(fr * 100));
            assert(parse_body(body0) == Some(a));
        } else {
            assert(t.len() == 2);
            assert(t[0] == digit_char(rp / 10));
            assert(t[1] == digit_char(rp % 10));
            assert(rp / 10 < 10);
            assert(is_digit_char(digit_char(rp / 10)));
            assert(is_digit_char(digit_char(rp % 10)));
            assert(digit_val(digit_char(rp / 10)) == rp / 10);
            assert(digit_val(digit_char(rp % 10)) == rp % 10);
            assert(minor_matches(t));
            assert(minor_exact(t) == Some(10 * (rp / 10) + rp % 10));
            assert(10 * (rp / 10) + rp % 10 == rp);
            assert(parse_body(body0) == Some(fr * 100 + rp));
            assert(parse_body(body0) == Some(a));
        }
    }

    if amount < 0 {
        assert(parse_amount_spec(s) == Some(-a));
        assert(-a == amount);
    } else {
        assert(parse_amount_spec(s) == Some(a));
    }
}

} // verus!
