//! Decimal rendering and parsing on plain integers: id-to-digits for the
//! commitment memo, and the dollars-and-cents parser for the configured
//! commitment fee.

use vstd::prelude::*;

verus! {

/// The decimal digit character for `d` (0 ≤ d ≤ 9).
pub open spec fn digit_char(d: int) -> char {
    if d == 0 {
        '0'
    } else if d == 1 {
        '1'
    } else if d == 2 {
        '2'
    } else if d == 3 {
        '3'
    } else if d == 4 {
        '4'
    } else if d == 5 {
        '5'
    } else if d == 6 {
        '6'
    } else if d == 7 {
        '7'
    } else if d == 8 {
        '8'
    } else {
        '9'
    }
}

/// The usual decimal rendering of a non-negative integer, most significant
/// digit first, no leading zeros (except for 0 itself).
pub open spec fn spec_dec(n: int) -> Seq<char>
    decreases n,
{
    if n < 10 {
        seq![digit_char(n)]
    } else {
        spec_dec(n / 10) + seq![digit_char(n % 10)]
    }
}

/// The decimal rendering of any integer: a minus sign, then the digits of
/// the magnitude.
pub open spec fn spec_dec_signed(n: int) -> Seq<char> {
    if n < 0 {
        seq!['-'] + spec_dec(-n)
    } else {
        spec_dec(n)
    }
}

/// One decimal digit as a string slice.
fn digit_str(d: u64) -> (r: &'static str)
    requires
        d < 10,
    ensures
        r@ == seq![digit_char(d as int)],
{
    if d == 0 {
        proof {
            reveal_strlit("0");
            assert("0"@ =~= seq![digit_char(0)]);
        }
        "0"
    } else if d == 1 {
        proof {
            reveal_strlit("1");
            assert("1"@ =~= seq![digit_char(1)]);
        }
        "1"
    } else if d == 2 {
        proof {
            reveal_strlit("2");
            assert("2"@ =~= seq![digit_char(2)]);
        }
        "2"
    } else if d == 3 {
        proof {
            reveal_strlit("3");
            assert("3"@ =~= seq![digit_char(3)]);
        }
        "3"
    } else if d == 4 {
        proof {
            reveal_strlit("4");
            assert("4"@ =~= seq![digit_char(4)]);
        }
        "4"
    } else if d == 5 {
        proof {
            reveal_strlit("5");
            assert("5"@ =~= seq![digit_char(5)]);
        }
        "5"
    } else if d == 6 {
        proof {
            reveal_strlit("6");
            assert("6"@ =~= seq![digit_char(6)]);
        }
        "6"
    } else if d == 7 {
        proof {
            reveal_strlit("7");
            assert("7"@ =~= seq![digit_char(7)]);
        }
        "7"
    } else if d == 8 {
        proof {
            reveal_strlit("8");
            assert("8"@ =~= seq![digit_char(8)]);
        }
        "8"
    } else {
        proof {
            reveal_strlit("9");
            assert("9"@ =~= seq![digit_char(9)]);
        }
        "9"
    }
}

/// Render `n` in decimal.
pub fn u64_to_string(n: u64) -> (r: String)
    ensures
        r@ == spec_dec(n as int),
    decreases n,
{
    if n < 10 {
        String::from_str(digit_str(n))
    } else {
        let prefix = u64_to_string(n / 10);
        prefix.concat(digit_str(n % 10))
    }
}

/// Render `n` in decimal, with a sign when negative.
pub fn i64_to_string(n: i64) -> (r: String)
    ensures
        r@ == spec_dec_signed(n as int),
{
    if n >= 0 {
        u64_to_string(n as u64)
    } else {
        let magnitude: u64 = ((-(n + 1)) as u64) + 1;
        proof {
            reveal_strlit("-");
            assert("-"@ =~= seq!['-']);
        }
        String::from_str("-").concat(u64_to_string(magnitude).as_str())
    }
}

/// Whether `c` is a decimal digit.
pub open spec fn is_digit(c: char) -> bool {
    '0' <= c && c <= '9'
}

/// Whether every character of `s` is a decimal digit.
pub open spec fn all_digits(s: Seq<char>) -> bool {
    forall|i: int| 0 <= i < s.len() ==> is_digit(#[trigger] s[i])
}

/// The numeric value of a digit character.
pub open spec fn digit_val(c: char) -> int {
    c as int - '0' as int
}

/// The value of a sequence of decimal digits, most significant first.
pub open spec fn dec_val(s: Seq<char>) -> int
    decreases s.len(),
{
    if s.len() == 0 {
        0
    } else {
        dec_val(s.drop_last()) * 10 + digit_val(s.last())
    }
}

/// The amount in cents denoted by a decimal dollars string: one or more
/// integer digits, optionally followed by a point and one or two fraction
/// digits. Anything else denotes nothing.
pub open spec fn spec_parse_cents(s: Seq<char>) -> Option<int> {
    if s.len() >= 1 && all_digits(s) {
        Some(100 * dec_val(s))
    } else {
        if exists|i: int| 0 <= i < s.len() && s[i] == '.' {
            let i = choose|i: int| 0 <= i < s.len() && #[trigger] s[i] == '.';
            let whole = s.subrange(0, i);
            let frac = s.subrange(i + 1, s.len() as int);
            if whole.len() >= 1 && all_digits(whole) && 1 <= frac.len() <= 2 && all_digits(frac) {
                if frac.len() == 1 {
                    Some(100 * dec_val(whole) + 10 * dec_val(frac))
                } else {
                    Some(100 * dec_val(whole) + dec_val(frac))
                }
            } else {
                None
            }
        } else {
            None
        }
    }
}

/// A sequence of digits denotes a non-negative value.
pub proof fn lemma_dec_val_nonneg(s: Seq<char>)
    requires
        all_digits(s),
    ensures
        dec_val(s) >= 0,
    decreases s.len(),
{
    if s.len() > 0 {
        assert(all_digits(s.drop_last())) by {
            assert(forall|i: int|
                0 <= i < s.len() - 1 ==> #[trigger] s.drop_last()[i] == s[i]);
        }
        lemma_dec_val_nonneg(s.drop_last());
    }
}

/// A digit character's value lies between 0 and 9.
proof fn lemma_digit_val_bounds(c: char)
    requires
        is_digit(c),
    ensures
        0 <= digit_val(c) <= 9,
{
    assert('0' as int == 48);
    assert('9' as int == 57);
}

/// `dec_val` of an all-digit string of at most two characters is below 100.
proof fn lemma_dec_val_small(s: Seq<char>)
    requires
        all_digits(s),
        s.len() <= 2,
    ensures
        0 <= dec_val(s),
        s.len() == 1 ==> dec_val(s) < 10,
        dec_val(s) < 100,
{
    lemma_dec_val_nonneg(s);
    if s.len() == 1 {
        assert(dec_val(s.drop_last()) == 0);
        assert(is_digit(s[0]));
        lemma_digit_val_bounds(s.last());
    } else if s.len() == 2 {
        assert(all_digits(s.drop_last())) by {
            assert(forall|i: int|
                0 <= i < s.len() - 1 ==> #[trigger] s.drop_last()[i] == s[i]);
        }
        assert(dec_val(s.drop_last().drop_last()) == 0);
        assert(is_digit(s[0]) && is_digit(s[1]));
        assert(s.drop_last().last() == s[0]);
        lemma_digit_val_bounds(s[0]);
        lemma_digit_val_bounds(s[1]);
        assert(s.last() == s[1]);
        assert(dec_val(s.drop_last()) == digit_val(s[0]));
        assert(dec_val(s) == 10 * digit_val(s[0]) + digit_val(s[1]));
    }
}

/// With the first point of `s` at `d`, the dotted case of
/// `spec_parse_cents` is determined: digits are demanded on both sides of
/// the specification's chosen point, so only `d` can qualify.
proof fn lemma_parse_cents_dotted(s: Seq<char>, d: int)
    requires
        0 <= d < s.len(),
        s[d] == '.',
        forall|k: int| 0 <= k < d ==> s[k] != '.',
    ensures
        ({
            let whole = s.subrange(0, d);
            let frac = s.subrange(d + 1, s.len() as int);
            let valid = whole.len() >= 1 && all_digits(whole) && 1 <= frac.len() <= 2
                && all_digits(frac);
            spec_parse_cents(s) == (if valid {
                if frac.len() == 1 {
                    Some(100 * dec_val(whole) + 10 * dec_val(frac))
                } else {
                    Some(100 * dec_val(whole) + dec_val(frac))
                }
            } else {
                None::<int>
            })
        }),
{
    let whole = s.subrange(0, d);
    let frac = s.subrange(d + 1, s.len() as int);
    assert(!all_digits(s)) by {
        assert(s[d] == '.' && !is_digit('.'));
    }
    assert(exists|i: int| 0 <= i < s.len() && s[i] == '.') by {
        assert(s[d] == '.');
    }
    let i = choose|i: int| 0 <= i < s.len() && #[trigger] s[i] == '.';
    let iwhole = s.subrange(0, i);
    let ifrac = s.subrange(i + 1, s.len() as int);
    if i > d {
        // The chosen point lies right of the first one: the chosen whole
        // part then contains a point, so the chosen split never qualifies;
        // and the fraction right of the first point contains the chosen
        // point, so the first split never qualifies either.
        assert(iwhole[d] == '.');
        assert(!is_digit('.'));
        assert(!all_digits(iwhole));
        if all_digits(frac) {
            assert(frac[i - d - 1] == s[i]);
            assert(is_digit(frac[i - d - 1]));
        }
    } else {
        assert(i == d);
    }
}

/// Parse a decimal dollars string ("1", "2.5", "0.75") into cents.
/// Returns `None` when the string does not denote an amount or the amount
/// does not fit in a `u64`.
pub fn parse_cents(s: &str) -> (r: Option<u64>)
    ensures
        match r {
            Some(v) => spec_parse_cents(s@) == Some(v as int),
            None => match spec_parse_cents(s@) {
                Some(v) => v > u64::MAX,
                None => true,
            },
        },
{
    let n = s.unicode_len();
    // Find the first point, if any.
    let mut dot: Option<usize> = None;
    let mut i: usize = 0;
    while i < n
        invariant
            n == s@.len(),
            i <= n,
            match dot {
                Some(d) => d < i && s@[d as int] == '.' && (forall|k: int|
                    0 <= k < d ==> s@[k] != '.'),
                None => forall|k: int| 0 <= k < i ==> s@[k] != '.',
            },
        decreases n - i,
    {
        if dot.is_none() {
            let c = s.get_char(i);
            if c == '.' {
                dot = Some(i);
            }
        }
        i = i + 1;
    }
    match dot {
        None => {
            // A plain digit string; all of it is whole dollars.
            proof {
                assert(s@.subrange(0, n as int) =~= s@);
            }
            if n == 0 {
                return None;
            }
            match parse_digits(s, 0, n) {
                DigitsOutcome::Value(v) => {
                    proof {
                        assert(all_digits(s@));
                        assert(v == dec_val(s@));
                        assert(spec_parse_cents(s@) == Some(100 * dec_val(s@)));
                    }
                    let total: u128 = (v as u128) * 100;
                    if total <= u64::MAX as u128 {
                        Some(total as u64)
                    } else {
                        None
                    }
                },
                DigitsOutcome::Overflow => None,
                DigitsOutcome::NotDigits => None,
            }
        },
        Some(d) => {
            // Dollars before the point, one or two cent digits after it.
            proof {
                lemma_parse_cents_dotted(s@, d as int);
            }
            let frac_len = n - d - 1;
            if d < 1 || frac_len < 1 || frac_len > 2 {
                return None;
            }
            let whole = parse_digits(s, 0, d);
            let frac = parse_digits(s, d + 1, n);
            let ghost wseq = s@.subrange(0, d as int);
            let ghost fseq = s@.subrange(d + 1, s@.len() as int);
            match (whole, frac) {
                (DigitsOutcome::Value(w), DigitsOutcome::Value(f)) => {
                    proof {
                        lemma_dec_val_small(fseq);
                    }
                    let f_cents = if frac_len == 1 {
                        f * 10
                    } else {
                        f
                    };
                    let total: u128 = (w as u128) * 100 + (f_cents as u128);
                    if total <= u64::MAX as u128 {
                        Some(total as u64)
                    } else {
                        None
                    }
                },
                (DigitsOutcome::Overflow, DigitsOutcome::Value(_)) => {
                    proof {
                        lemma_dec_val_small(fseq);
                    }
                    None
                },
                _ => None,
            }
        },
    }
}

/// What scanning a digit run yields: its value, a value past `u64`, or a
/// non-digit character.
enum DigitsOutcome {
    Value(u64),
    Overflow,
    NotDigits,
}

/// Scan `s[from..to]` as decimal digits. `Overflow` reports a run whose
/// digits so far already outgrow `u64`, so if the rest are digits too the
/// run's value is out of range.
fn parse_digits(s: &str, from: usize, to: usize) -> (r: DigitsOutcome)
    requires
        from <= to <= s@.len(),
    ensures
        match r {
            DigitsOutcome::Value(v) => all_digits(s@.subrange(from as int, to as int)) && v
                == dec_val(s@.subrange(from as int, to as int)),
            DigitsOutcome::Overflow => all_digits(s@.subrange(from as int, to as int)) ==> dec_val(
                s@.subrange(from as int, to as int),
            ) > u64::MAX,
            DigitsOutcome::NotDigits => !all_digits(s@.subrange(from as int, to as int)),
        },
{
    let mut acc: u64 = 0;
    let mut i: usize = from;
    while i < to
        invariant
            from <= i <= to <= s@.len(),
            all_digits(s@.subrange(from as int, i as int)),
            acc == dec_val(s@.subrange(from as int, i as int)),
        decreases to - i,
    {
        let c = s.get_char(i);
        let cv = c as u32;
        if cv < 48 || cv > 57 {
            proof {
                assert(!is_digit(s@[i as int]));
                assert(s@.subrange(from as int, to as int)[i - from] == s@[i as int]);
            }
            return DigitsOutcome::NotDigits;
        }
        let d = (cv - 48) as u64;
        proof {
            assert(is_digit(s@[i as int]));
            assert(d == digit_val(s@[i as int]));
        }
        let wide: u128 = (acc as u128) * 10 + (d as u128);
        if wide > u64::MAX as u128 {
            proof {
                lemma_dec_val_step_window(s@, from as int, i as int);
                if all_digits(s@.subrange(from as int, to as int)) {
                    lemma_digit_run_overflow(s@, from as int, i as int, to as int);
                }
            }
            return DigitsOutcome::Overflow;
        }
        acc = wide as u64;
        i = i + 1;
        proof {
            lemma_dec_val_step_window(s@, from as int, i - 1);
            assert(forall|k: int|
                0 <= k < i - from ==> s@.subrange(from as int, i as int)[k] == s@[from + k]);
        }
    }
    DigitsOutcome::Value(acc)
}

/// `dec_val` over a window grows by one digit at a time.
proof fn lemma_dec_val_step_window(s: Seq<char>, from: int, i: int)
    requires
        0 <= from <= i < s.len(),
    ensures
        dec_val(s.subrange(from, i + 1)) == 10 * dec_val(s.subrange(from, i)) + digit_val(s[i]),
{
    let ext = s.subrange(from, i + 1);
    assert(ext.drop_last() =~= s.subrange(from, i));
    assert(ext.last() == s[i]);
}

/// Once the digits up to `i` outgrow `u64`, the whole digit run does.
proof fn lemma_digit_run_overflow(s: Seq<char>, from: int, i: int, to: int)
    requires
        0 <= from <= i < to <= s.len(),
        all_digits(s.subrange(from, to)),
        10 * dec_val(s.subrange(from, i)) + digit_val(s[i]) > u64::MAX,
    ensures
        dec_val(s.subrange(from, to)) > u64::MAX,
{
    lemma_dec_val_step_window(s, from, i);
    assert(dec_val(s.subrange(from, i + 1)) > u64::MAX);
    lemma_dec_val_window_prefix_le(s, from, i + 1, to);
}

/// Within an all-digit window, a prefix's value never exceeds the window's.
proof fn lemma_dec_val_window_prefix_le(s: Seq<char>, from: int, i: int, to: int)
    requires
        0 <= from <= i <= to <= s.len(),
        all_digits(s.subrange(from, to)),
    ensures
        dec_val(s.subrange(from, i)) <= dec_val(s.subrange(from, to)),
    decreases to - i,
{
    if i < to {
        lemma_dec_val_step_window(s, from, i);
        assert(is_digit(s.subrange(from, to)[i - from]));
        assert(all_digits(s.subrange(from, i))) by {
            assert(forall|k: int|
                0 <= k < i - from ==> s.subrange(from, i)[k] == #[trigger] s.subrange(
                    from,
                    to,
                )[k]);
        }
        lemma_dec_val_nonneg(s.subrange(from, i));
        lemma_dec_val_window_prefix_le(s, from, i + 1, to);
    }
}

} // verus!
