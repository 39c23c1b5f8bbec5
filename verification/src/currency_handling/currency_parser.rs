//! Reading an amount of minor units from text.

use crate::currency_handling::notation::{
    all_digits, body_of, digit_run, digit_val, digits_val, is_digit_char, is_sep,
    lemma_digit_run_exact, lemma_digits_val_nonneg, lemma_skip_spaces_exact, minor_exact,
    minor_matches, parse_amount_spec, parse_body, sign_stripped,
};
use crate::models::Rappen;
use vstd::prelude::*;
use vstd::string::*;

verus! {

/// The exact outcome owed for input `s`: the denoted value when `s` is in
/// the notation and the value fits the amount type, a uniform error
/// otherwise.
pub open spec fn parse_outcome(s: Seq<char>, r: Result<Rappen, ()>) -> bool {
    match parse_amount_spec(s) {
        Some(v) => if i32::MIN <= v && v <= i32::MAX {
            r == Ok::<Rappen, ()>(v as i32)
        } else {
            r == Err::<Rappen, ()>(())
        },
        None => r == Err::<Rappen, ()>(()),
    }
}

pub trait CurrencyParser {
    /// Reads an amount written in the dash-marker notation.
    fn parse_text(&self, text: &str) -> (r: Result<Rappen, ()>)
        ensures
            parse_outcome(text@, r),
    ;
}

pub struct CurrencyParserImpl;

impl CurrencyParserImpl {
    pub fn new() -> (r: Self)
        ensures
            r == CurrencyParserImpl,
    {
        CurrencyParserImpl
    }
}

impl Default for CurrencyParserImpl {
    fn default() -> (r: Self)
        ensures
            r == CurrencyParserImpl,
    {
        CurrencyParserImpl
    }
}

fn is_sep_char(c: char) -> (b: bool)
    ensures
        b == is_sep(c),
{
    c == '.' || c == ','
}

fn digit_of(c: char) -> (r: Option<u32>)
    ensures
        r is Some <==> is_digit_char(c),
        r matches Some(d) ==> d as int == digit_val(c) && d < 10,
{
    match c {
        '0' => Some(0),
        '1' => Some(1),
        '2' => Some(2),
        '3' => Some(3),
        '4' => Some(4),
        '5' => Some(5),
        '6' => Some(6),
        '7' => Some(7),
        '8' => Some(8),
        '9' => Some(9),
        _ => None,
    }
}

/// Applies the sign and the amount-type bound to the unsigned value.
fn signed_result(negative: bool, total: u64) -> (r: Result<Rappen, ()>)
    ensures
        ({
            let v: int = if negative {
                -(total as int)
            } else {
                total as int
            };
            if i32::MIN <= v && v <= i32::MAX {
                r == Ok::<Rappen, ()>(v as i32)
            } else {
                r == Err::<Rappen, ()>(())
            }
        }),
{
    if negative {
        if total <= 2147483648u64 {
            Ok((-(total as i64)) as i32)
        } else {
            Err(())
        }
    } else {
        if total <= 2147483647u64 {
            Ok(total as i32)
        } else {
            Err(())
        }
    }
}

/// The ordered-choice read of the whole input, one cursor pass.
fn parse_chars(text: &str) -> (r: Result<Rappen, ()>)
    ensures
        parse_outcome(text@, r),
{
    let ghost s = text@;
    let n = text.unicode_len();

    // Optional sign: a leading `-` not immediately followed by a
    // separator, with any spaces after it consumed.
    let mut start: usize = 0;
    let mut negative = false;
    if n >= 1 && text.get_char(0) == '-' && !(n >= 2 && is_sep_char(text.get_char(1))) {
        negative = true;
        start = 1;
        while start < n && text.get_char(start) == ' '
            invariant
                1 <= start <= n,
                n == s.len(),
                text@ == s,
                forall|i: int| 1 <= i < start ==> s[i] == ' ',
            decreases n - start,
        {
            start += 1;
        }
    }
    proof {
        assert(negative == sign_stripped(s));
        if negative {
            assert(s.drop_first() =~= s.subrange(1, s.len() as int));
            lemma_skip_spaces_exact(s, 1, start as int);
        } else {
            assert(s.subrange(0, s.len() as int) =~= s);
        }
    }
    let ghost body = s.subrange(start as int, s.len() as int);
    proof {
        assert(body_of(s) == body);
    }

    // Longest digit run: the major part, its value tracked exactly while
    // it can still denote a representable amount.
    let mut j = start;
    let mut acc: u64 = 0;
    let mut big = false;
    while j < n && digit_of(text.get_char(j)).is_some()
        invariant
            start <= j <= n,
            n == s.len(),
            text@ == s,
            forall|i: int| start <= i < j ==> is_digit_char(s[i]),
            !big ==> acc as int == digits_val(s.subrange(start as int, j as int)) && acc
                < 10_000_000_000,
            big ==> digits_val(s.subrange(start as int, j as int)) >= 10_000_000_000,
        decreases n - j,
    {
        let c = text.get_char(j);
        let d = digit_of(c).unwrap();
        proof {
            let pre = s.subrange(start as int, j as int);
            let post = s.subrange(start as int, j as int + 1);
            assert(post.drop_last() =~= pre);
            assert(post.last() == s[j as int]);
            assert(digits_val(post) == digits_val(pre) * 10 + digit_val(s[j as int]));
            assert(all_digits(pre));
            lemma_digits_val_nonneg(pre);
        }
        if !big {
            if acc < 1_000_000_000 {
                acc = acc * 10 + d as u64;
            } else {
                big = true;
            }
        }
        j += 1;
    }
    let ghost k = j - start;
    let ghost m = digits_val(body.take(k));
    proof {
        assert(forall|i: int| 0 <= i < k ==> is_digit_char(#[trigger] body[i]));
        assert(k == body.len() || !is_digit_char(body[k]));
        lemma_digit_run_exact(body, k);
        assert(body.take(k) =~= s.subrange(start as int, j as int));
        assert(all_digits(body.take(k)));
        lemma_digits_val_nonneg(body.take(k));
        assert(!big ==> acc as int == m);
        assert(big ==> m >= 10_000_000_000);
    }

    if j > start {
        // A major part was read.
        if j < n && is_sep_char(text.get_char(j)) {
            let t0 = j + 1;
            let ghost t = s.subrange(t0 as int, n as int);
            proof {
                assert(body.skip(k + 1) =~= t);
            }
            if t0 < n && digit_of(text.get_char(t0)).is_some() {
                // The minor alternative matches and is committed to.
                let d0 = digit_of(text.get_char(t0)).unwrap();
                if t0 + 1 < n && digit_of(text.get_char(t0 + 1)).is_some() {
                    let d1 = digit_of(text.get_char(t0 + 1)).unwrap();
                    if n - t0 == 2 {
                        let minor = 10 * d0 + d1;
                        proof {
                            assert(t.len() == 2);
                            assert(minor_exact(t) == Some(minor as int));
                            assert(parse_body(body) == Some(m * 100 + minor));
                        }
                        finish_value(negative, big, acc, minor, Ghost(s), Ghost(m))
                    } else {
                        proof {
                            assert(minor_exact(t) is None);
                            assert(parse_body(body) is None);
                        }
                        Err(())
                    }
                } else {
                    if n - t0 == 1 {
                        let minor = 10 * d0;
                        proof {
                            assert(t.len() == 1);
                            assert(minor_exact(t) == Some(minor as int));
                            assert(parse_body(body) == Some(m * 100 + minor));
                        }
                        finish_value(negative, big, acc, minor, Ghost(s), Ghost(m))
                    } else {
                        proof {
                            assert(t.len() >= 2 && !is_digit_char(t[1]));
                            assert(minor_exact(t) is None);
                            assert(parse_body(body) is None);
                        }
                        Err(())
                    }
                }
            } else if t0 < n && text.get_char(t0) == '-' {
                // The dash marker: zero minor units.
                if n - t0 == 1 {
                    proof {
                        assert(!minor_matches(t));
                        assert(parse_body(body) == Some(m * 100));
                    }
                    finish_value(negative, big, acc, 0, Ghost(s), Ghost(m))
                } else {
                    proof {
                        assert(!minor_matches(t));
                        assert(parse_body(body) is None);
                    }
                    Err(())
                }
            } else {
                proof {
                    assert(parse_body(body) is None);
                }
                Err(())
            }
        } else if j == n {
            // A bare major part: zero minor units.
            proof {
                assert(k == body.len());
                assert(parse_body(body) == Some(m * 100));
            }
            finish_value(negative, big, acc, 0, Ghost(s), Ghost(m))
        } else {
            proof {
                assert(parse_body(body) is None);
            }
            Err(())
        }
    } else {
        // No major digits: only `- sep minor` can match.
        if start < n && text.get_char(start) == '-' && start + 1 < n && is_sep_char(
            text.get_char(start + 1),
        ) {
            let t0 = start + 2;
            let ghost t = s.subrange(t0 as int, n as int);
            proof {
                assert(digit_run(body) == 0);
                assert(body.skip(2) =~= t);
            }
            if t0 < n && digit_of(text.get_char(t0)).is_some() {
                let d0 = digit_of(text.get_char(t0)).unwrap();
                if t0 + 1 < n && digit_of(text.get_char(t0 + 1)).is_some() {
                    let d1 = digit_of(text.get_char(t0 + 1)).unwrap();
                    if n - t0 == 2 {
                        let minor = 10 * d0 + d1;
                        proof {
                            assert(t.len() == 2);
                            assert(minor_exact(t) == Some(minor as int));
                            assert(parse_body(body) == Some(minor as int));
                        }
                        finish_value(negative, false, 0, minor, Ghost(s), Ghost(0))
                    } else {
                        proof {
                            assert(minor_exact(t) is None);
                            assert(parse_body(body) is None);
                        }
                        Err(())
                    }
                } else {
                    if n - t0 == 1 {
                        let minor = 10 * d0;
                        proof {
                            assert(t.len() == 1);
                            assert(minor_exact(t) == Some(minor as int));
                            assert(parse_body(body) == Some(minor as int));
                        }
                        finish_value(negative, false, 0, minor, Ghost(s), Ghost(0))
                    } else {
                        proof {
                            assert(t.len() >= 2 && !is_digit_char(t[1]));
                            assert(minor_exact(t) is None);
                            assert(parse_body(body) is None);
                        }
                        Err(())
                    }
                }
            } else {
                proof {
                    assert(!minor_matches(t));
                    assert(parse_body(body) is None);
                }
                Err(())
            }
        } else {
            proof {
                assert(parse_body(body) is None);
            }
            Err(())
        }
    }
}

/// Combines major value, minor value and sign once the body has matched,
/// with the representability check.
fn finish_value(
    negative: bool,
    big: bool,
    acc: u64,
    minor: u32,
    Ghost(s): Ghost<Seq<char>>,
    Ghost(m): Ghost<int>,
) -> (r: Result<Rappen, ()>)
    requires
        minor <= 99,
        !big ==> acc as int == m && acc < 10_000_000_000,
        big ==> m >= 10_000_000_000,
        m >= 0,
        negative == sign_stripped(s),
        parse_body(body_of(s)) == Some(m * 100 + minor),
    ensures
        parse_outcome(s, r),
{
    if big {
        proof {
            let v = m * 100 + minor;
            assert(v > i32::MAX);
            assert(-v < i32::MIN);
        }
        Err(())
    } else {
        let total = acc * 100 + minor as u64;
        let r = signed_result(negative, total);
        proof {
            assert(parse_amount_spec(s) == Some(
                if negative {
                    -(m * 100 + minor)
                } else {
                    m * 100 + minor
                },
            ));
        }
        r
    }
}

impl CurrencyParser for CurrencyParserImpl {
    fn parse_text(&self, text: &str) -> (r: Result<Rappen, ()>) {
        parse_chars(text)
    }
}

} // verus!
