//! Decimal text conversions: reading a signed integer from a string and
//! rendering one, both pinned to spec-level definitions of decimal notation.

use vstd::prelude::*;
use vstd::string::StrSliceExecFns;
use vstd::string::StringExecFns;

verus! {

/// Whether `c` is an ASCII decimal digit.
pub open spec fn is_digit(c: char) -> bool {
    48 <= (c as u32) && (c as u32) <= 57
}

/// Numeric value of an ASCII digit.
pub open spec fn digit_val(c: char) -> nat {
    ((c as u32) - 48) as nat
}

/// Whether every character of `s` is an ASCII decimal digit.
pub open spec fn all_digits(s: Seq<char>) -> bool {
    forall|i: int| 0 <= i < s.len() ==> is_digit(#[trigger] s[i])
}

/// Numeric value of a digit string, most significant digit first.
pub open spec fn digits_val(s: Seq<char>) -> nat
    decreases s.len(),
{
    if s.len() == 0 {
        0
    } else {
        digits_val(s.drop_last()) * 10 + digit_val(s.last())
    }
}

/// The digits after an optional single leading sign.
pub open spec fn int_body(s: Seq<char>) -> Seq<char> {
    if s.len() > 0 && (s[0] == '-' || s[0] == '+') {
        s.drop_first()
    } else {
        s
    }
}

/// Whether `s` carries a leading minus sign.
pub open spec fn int_negative(s: Seq<char>) -> bool {
    s.len() > 0 && s[0] == '-'
}

/// The value `str::parse::<i32>` reads from `s`: an optional sign, one or
/// more ASCII digits, and a result within the `i32` range.
pub open spec fn parse_i32_spec(s: Seq<char>) -> Option<i32> {
    let body = int_body(s);
    if body.len() == 0 || !all_digits(body) {
        None
    } else if int_negative(s) {
        if digits_val(body) <= 2147483648 {
            Some((0 - digits_val(body) as int) as i32)
        } else {
            None
        }
    } else {
        if digits_val(body) <= 2147483647 {
            Some(digits_val(body) as int as i32)
        } else {
            None
        }
    }
}

/// A longer digit string never has a smaller value.
proof fn lemma_digits_val_prefix_mono(s: Seq<char>, m: int)
    requires
        0 <= m <= s.len(),
    ensures
        digits_val(s) >= digits_val(s.subrange(0, m)),
    decreases s.len() - m,
{
    if m < s.len() {
        assert(s.subrange(0, m + 1).drop_last() =~= s.subrange(0, m));
        assert(s.subrange(0, m + 1).last() == s[m]);
        lemma_digits_val_prefix_mono(s, m + 1);
    } else {
        assert(s.subrange(0, m) =~= s);
    }
}

/// Read a signed 32-bit integer written in decimal, as the address decoding
/// of the Nuremberg provider needs it.
pub fn parse_i32(s: &str) -> (r: Option<i32>)
    ensures
        r == parse_i32_spec(s@),
{
    let ghost body = int_body(s@);
    let n: usize = s.unicode_len();
    let mut start: usize = 0;
    let mut neg: bool = false;
    if n > 0 {
        let c0 = s.get_char(0);
        if c0 == '-' {
            neg = true;
            start = 1;
        } else if c0 == '+' {
            start = 1;
        }
    }
    proof {
        assert(body =~= s@.skip(start as int));
    }
    if start >= n {
        return None;
    }
    let mut k: usize = start;
    while k < n
        invariant
            n == s@.len(),
            start <= k <= n,
            body == int_body(s@),
            body == s@.skip(start as int),
            forall|t: int| start <= t < k ==> is_digit(#[trigger] s@[t]),
        decreases n - k,
    {
        let c = s.get_char(k);
        let cu: u32 = c as u32;
        if cu < 48 || cu > 57 {
            proof {
                assert(body[k - start] == s@[k as int]);
                assert(!is_digit(body[k - start]));
                assert(!all_digits(body));
                assert(parse_i32_spec(s@) is None);
            }
            return None;
        }
        k += 1;
    }
    proof {
        assert forall|t: int| 0 <= t < body.len() implies is_digit(#[trigger] body[t]) by {
            assert(body[t] == s@[t + start]);
        }
    }
    let mut acc: u64 = 0;
    let mut j: usize = start;
    while j < n
        invariant
            n == s@.len(),
            start <= j <= n,
            body == int_body(s@),
            body == s@.skip(start as int),
            all_digits(body),
            forall|t: int| start <= t < n ==> is_digit(#[trigger] s@[t]),
            acc == digits_val(s@.subrange(start as int, j as int)),
            acc <= 2147483648,
        decreases n - j,
    {
        let c = s.get_char(j);
        let d: u64 = (c as u32) as u64 - 48;
        let next: u64 = acc * 10 + d;
        proof {
            assert(s@.subrange(start as int, j + 1).drop_last() =~= s@.subrange(
                start as int,
                j as int,
            ));
            assert(s@.subrange(start as int, j + 1).last() == s@[j as int]);
        }
        if next > 2147483648 {
            proof {
                assert(is_digit(s@[j as int]));
                assert(digit_val(s@[j as int]) == d as nat);
                assert(digits_val(s@.subrange(start as int, j + 1)) == acc * 10 + digit_val(
                    s@[j as int],
                ));
                assert(body.subrange(0, j + 1 - start) =~= s@.subrange(start as int, j + 1));
                lemma_digits_val_prefix_mono(body, j + 1 - start);
                assert(digits_val(body) >= next as nat);
                assert(parse_i32_spec(s@) is None);
            }
            return None;
        }
        acc = next;
        j += 1;
    }
    proof {
        assert(s@.subrange(start as int, n as int) =~= body);
    }
    if neg {
        let v: i64 = 0 - (acc as i64);
        Some(v as i32)
    } else {
        if acc > 2147483647 {
            return None;
        }
        Some(acc as i32)
    }
}

/// The character for digit value `d`.
pub open spec fn dec_digit(d: nat) -> char {
    if d == 0 {
        '0'
    } else if d == 1 {
        '1'
    } else if d == 2 {
        '2'
    } else if d == 3 {
        '3'
    } else if d == 4 {
        '4'
    } else if d == 5 {
        '5'
    } else if d == 6 {
        '6'
    } else if d == 7 {
        '7'
    } else if d == 8 {
        '8'
    } else {
        '9'
    }
}

/// Decimal digits of `n`, most significant first.
pub open spec fn dec_nat(n: nat) -> Seq<char>
    decreases n,
{
    if n < 10 {
        seq![dec_digit(n)]
    } else {
        dec_nat(n / 10).push(dec_digit(n % 10))
    }
}

/// Decimal rendering of `n`, with a minus sign for negative values.
pub open spec fn dec_int(n: int) -> Seq<char> {
    if n < 0 {
        seq!['-'] + dec_nat((0 - n) as nat)
    } else {
        dec_nat(n as nat)
    }
}

/// The decimal digits of `n` are digits and denote `n`.
proof fn lemma_dec_nat_digits(n: nat)
    ensures
        all_digits(dec_nat(n)),
        digits_val(dec_nat(n)) == n,
        dec_nat(n).len() >= 1,
    decreases n,
{
    if n < 10 {
        let s = dec_nat(n);
        assert(s =~= seq![dec_digit(n)]);
        assert(s.drop_last() =~= Seq::<char>::empty());
        assert(digits_val(Seq::<char>::empty()) == 0);
        assert(s.last() == dec_digit(n));
        assert(digit_val(dec_digit(n)) == n);
    } else {
        lemma_dec_nat_digits(n / 10);
        let s = dec_nat(n);
        assert(s.drop_last() =~= dec_nat(n / 10));
        assert(s.last() == dec_digit(n % 10));
        assert(digit_val(dec_digit(n % 10)) == n % 10);
        assert(digits_val(s) == (n / 10) * 10 + n % 10);
        assert forall|i: int| 0 <= i < s.len() implies is_digit(#[trigger] s[i]) by {
            if i < s.len() - 1 {
                assert(s[i] == dec_nat(n / 10)[i]);
            }
        }
    }
}

/// Reading back a decimal rendering: a non-negative value within the 32-bit
/// range round-trips through its decimal text.
pub proof fn lemma_decimal_round_trip(n: int)
    requires
        0 <= n <= 2147483647,
    ensures
        parse_i32_spec(dec_int(n)) == Some(n as i32),
{
    lemma_dec_nat_digits(n as nat);
    let s = dec_int(n);
    assert(s == dec_nat(n as nat));
    assert(is_digit(s[0]));
    assert(s[0] != '-' && s[0] != '+');
    assert(int_body(s) == s);
}

/// Append the character for one digit value.
fn append_digit(out: &mut String, d: u64)
    requires
        d < 10,
    ensures
        final(out)@ == old(out)@ + seq![dec_digit(d as nat)],
{
    if d == 0 {
        proof {
            reveal_strlit("0");
            assert("0"@ =~= seq![dec_digit(0)]);
        }
        out.append("0");
    } else if d == 1 {
        proof {
            reveal_strlit("1");
            assert("1"@ =~= seq![dec_digit(1)]);
        }
        out.append("1");
    } else if d == 2 {
        proof {
            reveal_strlit("2");
            assert("2"@ =~= seq![dec_digit(2)]);
        }
        out.append("2");
    } else if d == 3 {
        proof {
            reveal_strlit("3");
            assert("3"@ =~= seq![dec_digit(3)]);
        }
        out.append("3");
    } else if d == 4 {
        proof {
            reveal_strlit("4");
            assert("4"@ =~= seq![dec_digit(4)]);
        }
        out.append("4");
    } else if d == 5 {
        proof {
            reveal_strlit("5");
            assert("5"@ =~= seq![dec_digit(5)]);
        }
        out.append("5");
    } else if d == 6 {
        proof {
            reveal_strlit("6");
            assert("6"@ =~= seq![dec_digit(6)]);
        }
        out.append("6");
    } else if d == 7 {
        proof {
            reveal_strlit("7");
            assert("7"@ =~= seq![dec_digit(7)]);
        }
        out.append("7");
    } else if d == 8 {
        proof {
            reveal_strlit("8");
            assert("8"@ =~= seq![dec_digit(8)]);
        }
        out.append("8");
    } else {
        proof {
            reveal_strlit("9");
            assert("9"@ =~= seq![dec_digit(9)]);
        }
        out.append("9");
    }
}

/// Append the decimal digits of `m`.
fn append_dec_u64(out: &mut String, m: u64)
    ensures
        final(out)@ == old(out)@ + dec_nat(m as nat),
    decreases m,
{
    if m >= 10 {
        append_dec_u64(out, m / 10);
        append_digit(out, m % 10);
        proof {
            assert(old(out)@ + dec_nat((m / 10) as nat) + seq![dec_digit((m % 10) as nat)] =~= old(
                out,
            )@ + dec_nat(m as nat));
        }
    } else {
        append_digit(out, m);
    }
}

/// Render `n` in decimal, as `i64::to_string` writes it.
pub fn i64_to_string(n: i64) -> (r: String)
    ensures
        r@ == dec_int(n as int),
{
    let mut out = String::new();
    if n < 0 {
        proof {
            reveal_strlit("-");
        }
        out.append("-");
        let m: u64 = ((0 - (n + 1)) as u64) + 1;
        append_dec_u64(&mut out, m);
        proof {
            assert(out@ =~= dec_int(n as int));
        }
    } else {
        append_dec_u64(&mut out, n as u64);
        proof {
            assert(out@ =~= dec_int(n as int));
        }
    }
    out
}

} // verus!
