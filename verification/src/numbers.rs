//! Decimal rendering and reading of 32-bit signed integers.
//!
//! [`spec_nat_string`] and [`spec_i32_string`] define the canonical decimal
//! text of a number; [`u64_string`] and [`i32_string`] produce it. In the
//! other direction, [`spec_parse_positive`] and [`spec_parse_signed`] define
//! which tokens denote an `i32` and which value they denote, exactly as the
//! parser accepts them; [`parse_positive_token`] and [`parse_signed_token`]
//! decide that at runtime. Reading is the left inverse of rendering
//! ([`lemma_parse_signed_i32_string`]).

use vstd::prelude::*;

use crate::text::is_ascii_digit;

verus! {

/// The digit character for a value below ten.
pub open spec fn digit_char(d: int) -> char {
    if d == 0 {
        '0'
    } else if d == 1 {
        '1'
    } else if d == 2 {
        '2'
    } else if d == 3 {
        '3'
    } else if d == 4 {
        '4'
    } else if d == 5 {
        '5'
    } else if d == 6 {
        '6'
    } else if d == 7 {
        '7'
    } else if d == 8 {
        '8'
    } else {
        '9'
    }
}

/// The numeric value of a digit character.
pub open spec fn digit_val(c: char) -> int {
    c as u32 - '0' as u32
}

/// The canonical decimal text of a natural number, without sign or leading
/// zeros (a single `0` for zero).
pub open spec fn spec_nat_string(n: nat) -> Seq<char>
    decreases n,
{
    if n < 10 {
        seq![digit_char(n as int)]
    } else {
        spec_nat_string(n / 10).push(digit_char((n % 10) as int))
    }
}

/// The canonical decimal text of an integer in `i32` range.
pub open spec fn spec_i32_string(n: int) -> Seq<char> {
    if n < 0 {
        seq!['-'] + spec_nat_string((-n) as nat)
    } else {
        spec_nat_string(n as nat)
    }
}

/// Whether every character of `s` is an ASCII digit.
pub open spec fn all_ascii_digits(s: Seq<char>) -> bool {
    forall|i: int| 0 <= i < s.len() ==> is_ascii_digit(#[trigger] s[i])
}

/// The value of a run of digit characters, most significant first.
pub open spec fn digits_val(s: Seq<char>) -> int
    decreases s.len(),
{
    if s.len() == 0 {
        0
    } else {
        digits_val(s.drop_last()) * 10 + digit_val(s.last())
    }
}

/// The `i32` denoted by a token of digit characters, if any: the token must
/// be non-empty, all digits, and in range.
pub open spec fn spec_parse_positive(tok: Seq<char>) -> Option<i32> {
    if tok.len() > 0 && all_ascii_digits(tok) && digits_val(tok) <= i32::MAX {
        Some(digits_val(tok) as i32)
    } else {
        None
    }
}

/// The `i32` denoted by a token with an optional leading minus sign, if any.
pub open spec fn spec_parse_signed(tok: Seq<char>) -> Option<i32> {
    if tok.len() > 0 && tok[0] == '-' {
        let digits = tok.drop_first();
        if digits.len() > 0 && all_ascii_digits(digits) && -digits_val(digits) >= i32::MIN {
            Some((-digits_val(digits)) as i32)
        } else {
            None
        }
    } else {
        spec_parse_positive(tok)
    }
}

pub proof fn lemma_digits_val_nonneg(s: Seq<char>)
    requires
        all_ascii_digits(s),
    ensures
        digits_val(s) >= 0,
    decreases s.len(),
{
    if s.len() > 0 {
        assert(all_ascii_digits(s.drop_last())) by {
            assert(forall|i: int|
                0 <= i < s.len() - 1 ==> s.drop_last()[i] == #[trigger] s[i]);
        }
        lemma_digits_val_nonneg(s.drop_last());
    }
}

/// Appending one digit multiplies the value by ten and adds the digit.
pub proof fn lemma_digits_val_push(s: Seq<char>, c: char)
    ensures
        digits_val(s.push(c)) == digits_val(s) * 10 + digit_val(c),
{
    assert(s.push(c).drop_last() =~= s);
    assert(s.push(c).last() == c);
}

/// The canonical text of a natural number is a non-empty digit run denoting
/// that number.
pub proof fn lemma_nat_string_val(n: nat)
    ensures
        spec_nat_string(n).len() >= 1,
        all_ascii_digits(spec_nat_string(n)),
        digits_val(spec_nat_string(n)) == n,
    decreases n,
{
    if n < 10 {
        assert(digits_val(seq![digit_char(n as int)].drop_last()) == 0);
    } else {
        lemma_nat_string_val(n / 10);
        lemma_digits_val_push(spec_nat_string(n / 10), digit_char((n % 10) as int));
        assert(all_ascii_digits(spec_nat_string(n))) by {
            let prev = spec_nat_string(n / 10);
            let whole = prev.push(digit_char((n % 10) as int));
            assert(forall|i: int| 0 <= i < prev.len() ==> whole[i] == #[trigger] prev[i]);
        }
    }
}

/// Reading the canonical text of an `i32` yields that `i32` back.
pub proof fn lemma_parse_signed_i32_string(n: i32)
    ensures
        spec_parse_signed(spec_i32_string(n as int)) == Some(n),
{
    if n < 0 {
        let digits = spec_nat_string((-(n as int)) as nat);
        lemma_nat_string_val((-(n as int)) as nat);
        assert((seq!['-'] + digits)[0] == '-');
        assert((seq!['-'] + digits).drop_first() =~= digits);
    } else {
        lemma_nat_string_val(n as nat);
        assert(spec_i32_string(n as int)[0] != '-');
    }
}

/// The digit character of a value below ten, as a string slice.
fn digit_str(d: u64) -> (r: &'static str)
    requires
        d < 10,
    ensures
        r@ =~= seq![digit_char(d as int)],
{
    proof {
        reveal_strlit("0");
        reveal_strlit("1");
        reveal_strlit("2");
        reveal_strlit("3");
        reveal_strlit("4");
        reveal_strlit("5");
        reveal_strlit("6");
        reveal_strlit("7");
        reveal_strlit("8");
        reveal_strlit("9");
    }
    if d == 0 {
        "0"
    } else if d == 1 {
        "1"
    } else if d == 2 {
        "2"
    } else if d == 3 {
        "3"
    } else if d == 4 {
        "4"
    } else if d == 5 {
        "5"
    } else if d == 6 {
        "6"
    } else if d == 7 {
        "7"
    } else if d == 8 {
        "8"
    } else {
        "9"
    }
}

/// The canonical decimal text of a `u64`.
pub fn u64_string(n: u64) -> (r: String)
    ensures
        r@ == spec_nat_string(n as nat),
    decreases n,
{
    if n < 10 {
        String::from_str(digit_str(n))
    } else {
        let mut s = u64_string(n / 10);
        s.append(digit_str(n % 10));
        proof {
            assert(spec_nat_string((n / 10) as nat) + seq![digit_char((n % 10) as int)]
                =~= spec_nat_string((n / 10) as nat).push(digit_char((n % 10) as int)));
        }
        s
    }
}

/// The canonical decimal text of an `i32`.
pub fn i32_string(n: i32) -> (r: String)
    ensures
        r@ == spec_i32_string(n as int),
{
    if n >= 0 {
        u64_string(n as u64)
    } else {
        let magnitude: u64 = (-(n as i64)) as u64;
        let mut s = String::from_str("-");
        let rest = u64_string(magnitude);
        s.append(rest.as_str());
        proof {
            reveal_strlit("-");
            assert("-"@ =~= seq!['-']);
        }
        s
    }
}

/// Reads the value of `tok` from position `from` on as a digit run, as long
/// as the value stays at most `0x8000_0000`; `None` when the run is empty,
/// holds a non-digit, or exceeds that bound.
fn scan_magnitude(tok: &Vec<char>, from: usize) -> (r: Option<u64>)
    requires
        from <= tok@.len(),
    ensures
        match r {
            Some(v) => {
                let s = tok@.skip(from as int);
                &&& s.len() > 0
                &&& all_ascii_digits(s)
                &&& v == digits_val(s)
                &&& v <= 0x8000_0000u64
            },
            None => {
                let s = tok@.skip(from as int);
                ||| s.len() == 0
                ||| !all_ascii_digits(s)
                ||| digits_val(s) > 0x8000_0000u64
            },
        },
{
    let ghost s = tok@.skip(from as int);
    if from == tok.len() {
        return None;
    }
    let mut val: u64 = 0;
    let mut big = false;
    let mut i: usize = from;
    while i < tok.len()
        invariant
            from <= i <= tok@.len(),
            s == tok@.skip(from as int),
            all_ascii_digits(tok@.subrange(from as int, i as int)),
            !big ==> val == digits_val(tok@.subrange(from as int, i as int)) && val
                <= 0x8000_0000u64,
            big ==> digits_val(tok@.subrange(from as int, i as int)) > 0x8000_0000u64,
        decreases tok@.len() - i,
    {
        let c = tok[i];
        if !crate::text::ascii_digit(c) {
            proof {
                assert(s[i - from] == tok@[i as int]);
            }
            return None;
        }
        let d: u64 = (c as u32 - '0' as u32) as u64;
        let ghost prefix = tok@.subrange(from as int, i as int);
        proof {
            assert(tok@.subrange(from as int, i + 1) =~= prefix.push(tok@[i as int]));
            lemma_digits_val_push(prefix, tok@[i as int]);
            lemma_digits_val_nonneg(prefix);
        }
        if big {
            proof {
                assert(digits_val(prefix.push(tok@[i as int])) > 0x8000_0000u64) by {
                    assert(digits_val(prefix) > 0x8000_0000u64);
                    assert(digits_val(prefix) * 10 >= digits_val(prefix)) by (nonlinear_arith)
                        requires digits_val(prefix) >= 0;
                }
            }
        } else {
            val = val * 10 + d;
            if val > 0x8000_0000u64 {
                big = true;
            }
        }
        i += 1;
    }
    proof {
        assert(tok@.subrange(from as int, tok@.len() as int) =~= s);
    }
    if big {
        None
    } else {
        Some(val)
    }
}

/// Reads a token of digit characters as a non-negative `i32`, as
/// [`spec_parse_positive`] describes.
pub fn parse_positive_token(tok: &Vec<char>) -> (r: Option<i32>)
    ensures
        r == spec_parse_positive(tok@),
{
    proof {
        assert(tok@.skip(0) =~= tok@);
    }
    match scan_magnitude(tok, 0) {
        Some(v) => {
            if v <= i32::MAX as u64 {
                Some(v as i32)
            } else {
                None
            }
        },
        None => {
            proof {
                if tok@.len() > 0 && all_ascii_digits(tok@) {
                    lemma_digits_val_nonneg(tok@);
                }
            }
            None
        },
    }
}

/// Reads a token with an optional leading minus sign as an `i32`, as
/// [`spec_parse_signed`] describes.
pub fn parse_signed_token(tok: &Vec<char>) -> (r: Option<i32>)
    ensures
        r == spec_parse_signed(tok@),
{
    if tok.len() > 0 && tok[0] == '-' {
        proof {
            assert(tok@.skip(1) =~= tok@.drop_first());
        }
        match scan_magnitude(tok, 1) {
            Some(v) => Some((-(v as i64)) as i32),
            None => {
                proof {
                    let digits = tok@.drop_first();
                    if digits.len() > 0 && all_ascii_digits(digits) {
                        lemma_digits_val_nonneg(digits);
                    }
                }
                None
            },
        }
    } else {
        parse_positive_token(tok)
    }
}

} // verus!
