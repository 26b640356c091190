//! Decimal integers on the wire.
//!
//! Microsecond counts and the small signed values of the notification
//! protocol travel as plain decimal text. The parsers and printers here
//! are proved against one arithmetic model, so the printer is exactly
//! inverse to the parser.

use vstd::prelude::*;

verus! {

/// Whether `s` is a non-empty run of decimal digits.
pub open spec fn is_digits(s: Seq<u8>) -> bool {
    s.len() > 0 && (forall|i: int| 0 <= i < s.len() ==> '0' as u8 <= #[trigger] s[i] <= '9' as u8)
}

/// The number a run of digits denotes.
pub open spec fn digits_value(s: Seq<u8>) -> int
    decreases s.len(),
{
    if s.len() == 0 {
        0
    } else {
        digits_value(s.drop_last()) * 10 + s.last() - ('0' as u8)
    }
}

/// A digit run denotes a non-negative number.
pub proof fn lemma_digits_value_non_negative(s: Seq<u8>)
    requires
        forall|i: int| 0 <= i < s.len() ==> '0' as u8 <= #[trigger] s[i] <= '9' as u8,
    ensures
        digits_value(s) >= 0,
    decreases s.len(),
{
    if s.len() != 0 {
        lemma_digits_value_non_negative(s.drop_last());
    }
}

/// Extending a digit run by one digit multiplies its value by ten and
/// adds the digit.
proof fn lemma_digits_value_step(s: Seq<u8>, i: int)
    requires
        0 <= i < s.len(),
    ensures
        digits_value(s.take(i + 1)) == digits_value(s.take(i)) * 10 + s[i] - ('0' as u8),
{
    assert(s.take(i + 1).drop_last() =~= s.take(i));
    assert(s.take(i + 1).last() == s[i]);
}

/// The value of a digit run never shrinks as the run grows.
proof fn lemma_digits_value_monotonic(s: Seq<u8>, i: int, j: int)
    requires
        forall|k: int| 0 <= k < s.len() ==> '0' as u8 <= #[trigger] s[k] <= '9' as u8,
        0 <= i <= j <= s.len(),
    ensures
        digits_value(s.take(i)) <= digits_value(s.take(j)),
    decreases j - i,
{
    if i < j {
        lemma_digits_value_monotonic(s, i, j - 1);
        lemma_digits_value_step(s, j - 1);
        assert(forall|k: int| 0 <= k < s.take(j - 1).len() ==> '0' as u8 <= #[trigger] s.take(j - 1)[k] <= '9' as u8);
        lemma_digits_value_non_negative(s.take(j - 1));
    }
}

/// Parses a non-empty all-digit value that fits in 64 bits; everything
/// else — an empty value, a non-digit anywhere, or overflow — is `None`.
pub fn parse_u64(s: &[u8]) -> (r: Option<u64>)
    ensures
        match r {
            Some(v) => is_digits(s@) && v == digits_value(s@),
            None => !is_digits(s@) || digits_value(s@) > u64::MAX,
        },
{
    if s.len() == 0 {
        return None;
    }
    let n: usize = s.len();
    let mut acc: u64 = 0;
    let mut i: usize = 0;
    while i < n
        invariant
            n == s@.len(),
            0 < n,
            0 <= i <= n,
            forall|k: int| 0 <= k < i ==> '0' as u8 <= #[trigger] s@[k] <= '9' as u8,
            acc == digits_value(s@.take(i as int)),
        decreases n - i,
    {
        let b = s[i];
        if b < '0' as u8 || b > '9' as u8 {
            return None;
        }
        let d: u64 = (b - '0' as u8) as u64;
        let shifted = match acc.checked_mul(10) {
            Some(x) => x,
            None => {
                proof {
                    lemma_overflow_final(s@, i as int, acc as int, d as int);
                }
                return None;
            },
        };
        let next = match shifted.checked_add(d) {
            Some(x) => x,
            None => {
                proof {
                    lemma_overflow_final(s@, i as int, acc as int, d as int);
                }
                return None;
            },
        };
        proof {
            lemma_digits_value_step(s@, i as int);
        }
        acc = next;
        i = i + 1;
    }
    proof {
        assert(s@.take(n as int) =~= s@);
    }
    Some(acc)
}

/// If the value overflows at some digit, the whole run's value
/// overflows too.
proof fn lemma_overflow_final(s: Seq<u8>, i: int, acc: int, d: int)
    requires
        0 <= i < s.len(),
        forall|k: int| 0 <= k <= i ==> '0' as u8 <= #[trigger] s[k] <= '9' as u8,
        acc == digits_value(s.take(i)),
        d == s[i] - ('0' as u8),
        acc * 10 + d > u64::MAX,
    ensures
        !is_digits(s) || digits_value(s) > u64::MAX,
{
    if is_digits(s) {
        lemma_digits_value_step(s, i);
        lemma_digits_value_monotonic(s, i + 1, s.len() as int);
        assert(s.take(s.len() as int) =~= s);
    }
}

/// Whether `s` is a decimal integer literal: an optional sign followed
/// by at least one digit.
pub open spec fn is_int_literal(s: Seq<u8>) -> bool {
    if s.len() == 0 {
        false
    } else if s[0] == '+' as u8 || s[0] == '-' as u8 {
        is_digits(s.skip(1))
    } else {
        is_digits(s)
    }
}

/// The signed number an integer literal denotes.
pub open spec fn int_literal_value(s: Seq<u8>) -> int {
    if s.len() > 0 && s[0] == '-' as u8 {
        -digits_value(s.skip(1))
    } else if s.len() > 0 && s[0] == '+' as u8 {
        digits_value(s.skip(1))
    } else {
        digits_value(s)
    }
}

/// Parses a signed 32-bit decimal integer: an optional `+` or `-`
/// followed by digits, denoting a value in range.
pub fn parse_i32(s: &[u8]) -> (r: Option<i32>)
    ensures
        match r {
            Some(v) => is_int_literal(s@) && v == int_literal_value(s@),
            None => !is_int_literal(s@)
                || int_literal_value(s@) > i32::MAX
                || int_literal_value(s@) < i32::MIN,
        },
{
    if s.len() == 0 {
        return None;
    }
    let first = s[0];
    let negative = first == '-' as u8;
    let digits: &[u8] = if first == '-' as u8 || first == '+' as u8 {
        vstd::slice::slice_subrange(s, 1, s.len())
    } else {
        s
    };
    proof {
        if first == '-' as u8 || first == '+' as u8 {
            assert(digits@ =~= s@.skip(1));
        }
    }
    let magnitude = match parse_u64(digits) {
        Some(m) => m,
        None => {
            return None;
        },
    };
    proof {
        lemma_digits_value_non_negative(digits@);
    }
    if negative {
        if magnitude <= 2_147_483_647u64 {
            Some(-(magnitude as i32))
        } else if magnitude == 2_147_483_648u64 {
            Some(i32::MIN)
        } else {
            None
        }
    } else {
        if magnitude <= 2_147_483_647u64 {
            Some(magnitude as i32)
        } else {
            None
        }
    }
}

/// The canonical decimal digits of a non-negative number: no sign, no
/// leading zero except for zero itself.
pub open spec fn dec_digits(n: int) -> Seq<u8>
    decreases n,
{
    if n < 10 {
        seq![('0' as u8 + n) as u8]
    } else {
        dec_digits(n / 10).push(('0' as u8 + n % 10) as u8)
    }
}

/// The canonical digits of `n` are digits and denote `n`.
pub proof fn lemma_dec_digits(n: int)
    requires
        n >= 0,
    ensures
        is_digits(dec_digits(n)),
        digits_value(dec_digits(n)) == n,
    decreases n,
{
    vstd::arithmetic::div_mod::lemma_fundamental_div_mod(n, 10);
    if n < 10 {
        assert(dec_digits(n).drop_last() =~= Seq::<u8>::empty());
        assert(digits_value(Seq::<u8>::empty()) == 0);
        assert((('0' as u8 + n) as u8) == 48 + n);
        assert(dec_digits(n).last() == 48 + n);
        assert(digits_value(dec_digits(n)) == n);
    } else {
        vstd::arithmetic::div_mod::lemma_div_pos_is_pos(n, 10);
        vstd::arithmetic::div_mod::lemma_div_is_strictly_smaller(n, 10);
        lemma_dec_digits(n / 10);
        assert(dec_digits(n).drop_last() =~= dec_digits(n / 10));
    }
}

/// The canonical decimal text of a signed number: a `-` before the
/// digits of the magnitude when negative.
pub open spec fn int_decimal(n: int) -> Seq<u8> {
    if n < 0 {
        seq!['-' as u8].add(dec_digits(-n))
    } else {
        dec_digits(n)
    }
}

/// Prints `n` in decimal.
pub fn format_u64(n: u64) -> (r: Vec<u8>)
    ensures
        r@ == dec_digits(n as int),
    decreases n,
{
    if n < 10 {
        let mut v: Vec<u8> = Vec::new();
        v.push('0' as u8 + n as u8);
        proof {
            assert(v@ =~= dec_digits(n as int));
        }
        v
    } else {
        proof {
            vstd::arithmetic::div_mod::lemma_fundamental_div_mod(n as int, 10);
            vstd::arithmetic::div_mod::lemma_div_pos_is_pos(n as int, 10);
            vstd::arithmetic::div_mod::lemma_div_is_strictly_smaller(
                n as int,
                10,
            );
        }
        let mut v = format_u64(n / 10);
        v.push('0' as u8 + (n % 10) as u8);
        v
    }
}

/// Prints `n` in decimal, with a leading `-` when negative.
pub fn format_i32(n: i32) -> (r: Vec<u8>)
    ensures
        r@ == int_decimal(n as int),
{
    if n >= 0 {
        format_u64(n as u64)
    } else {
        let magnitude: u64 = (-(n as i64)) as u64;
        let mut v: Vec<u8> = Vec::new();
        v.push('-' as u8);
        let mut digits = format_u64(magnitude);
        v.append(&mut digits);
        proof {
            assert(v@ =~= int_decimal(n as int));
        }
        v
    }
}

} // verus!
