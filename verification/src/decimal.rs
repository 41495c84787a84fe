//! Unsigned decimal numbers as ASCII text: reading and writing them.

use crate::text::ascii_text;
use vstd::prelude::*;

verus! {

/// Why a piece of text is not an unsigned 64-bit decimal number.
#[derive(Clone, Copy, Debug, PartialEq, Eq)]
pub enum NumberError {
    /// The text is empty.
    Empty,
    /// The text holds something other than decimal digits after an optional
    /// leading plus sign, or nothing at all after the sign.
    InvalidDigit,
    /// The digits stand for a number above `u64::MAX`.
    Overflow,
}

impl NumberError {
    /// The reason in words.
    pub open spec fn message_text(self) -> Seq<char> {
        match self {
            NumberError::Empty => "cannot parse integer from empty string"@,
            NumberError::InvalidDigit => "invalid digit found in string"@,
            NumberError::Overflow => "number too large to fit in target type"@,
        }
    }

    /// The reason in words.
    pub fn message(&self) -> (r: &'static str)
        ensures
            r@ == self.message_text(),
    {
        match self {
            NumberError::Empty => "cannot parse integer from empty string",
            NumberError::InvalidDigit => "invalid digit found in string",
            NumberError::Overflow => "number too large to fit in target type",
        }
    }
}

/// The ASCII code of `0`.
pub const ZERO: u8 = 0x30;

/// The ASCII code of `+`.
pub const PLUS: u8 = 0x2b;

/// True of the ASCII codes of `0` to `9`.
pub open spec fn is_digit(b: u8) -> bool {
    0x30 <= b <= 0x39
}

/// What one digit counts for; zero for any other byte.
pub open spec fn digit_value(b: u8) -> nat {
    if is_digit(b) {
        (b - 0x30) as nat
    } else {
        0
    }
}

/// True when every byte of `s` is a decimal digit.
pub open spec fn all_digits(s: Seq<u8>) -> bool {
    forall|i: int| 0 <= i < s.len() ==> is_digit(#[trigger] s[i])
}

/// The number that a run of digits stands for, most significant digit first.
pub open spec fn digits_value(s: Seq<u8>) -> nat
    decreases s.len(),
{
    if s.len() == 0 {
        0
    } else {
        10 * digits_value(s.drop_last()) + digit_value(s.last())
    }
}

/// How many digits stand at the front of `s` before the first other byte.
pub open spec fn digit_run(s: Seq<u8>) -> nat
    decreases s.len(),
{
    if s.len() == 0 || !is_digit(s[0]) {
        0
    } else {
        1 + digit_run(s.drop_first())
    }
}

/// The text without a leading plus sign. A sign that stands alone is kept,
/// and is then no digit.
pub open spec fn unsigned_part(s: Seq<u8>) -> Seq<u8> {
    if s.len() > 1 && s[0] == PLUS {
        s.skip(1)
    } else {
        s
    }
}

/// The number written in `s`, or the reason why `s` is none.
///
/// A number is an optional plus sign followed by one or more decimal digits
/// whose value fits in 64 bits. The text is read from the left: digits that
/// already exceed the range are reported as `Overflow` even if a byte that
/// is no digit follows them.
pub open spec fn parse_decimal(s: Seq<u8>) -> Result<u64, NumberError> {
    let d = unsigned_part(s);
    let leading = d.take(digit_run(d) as int);
    if s.len() == 0 {
        Err(NumberError::Empty)
    } else if digits_value(leading) > u64::MAX {
        Err(NumberError::Overflow)
    } else if leading.len() < d.len() {
        Err(NumberError::InvalidDigit)
    } else {
        Ok(digits_value(d) as u64)
    }
}

/// The digits of `n` in base ten, without leading zeros; `0` for zero.
pub open spec fn decimal_digits(n: nat) -> Seq<u8>
    decreases n,
{
    if n < 10 {
        seq![(0x30 + n) as u8]
    } else {
        decimal_digits(n / 10).push((0x30 + n % 10) as u8)
    }
}

/// The digits of `n`, or nothing where `n` is zero: what is written before
/// the digits that a division by ten has already split off.
pub open spec fn leading_digits(n: nat) -> Seq<u8> {
    if n == 0 {
        Seq::empty()
    } else {
        decimal_digits(n)
    }
}

/// The run of digits at the front of `s` is as long as `s` or ends before a
/// byte that is no digit.
pub proof fn lemma_digit_run_bounds(s: Seq<u8>)
    ensures
        digit_run(s) <= s.len(),
        all_digits(s.take(digit_run(s) as int)),
        digit_run(s) < s.len() ==> !is_digit(s[digit_run(s) as int]),
    decreases s.len(),
{
    if s.len() > 0 && is_digit(s[0]) {
        let t = s.drop_first();
        lemma_digit_run_bounds(t);
        let r = digit_run(s) as int;
        assert forall|i: int| 0 <= i < s.take(r).len() implies is_digit(
            #[trigger] s.take(r)[i],
        ) by {
            if i > 0 {
                assert(s.take(r)[i] == t.take(r - 1)[i - 1]);
            }
        }
    }
}

/// A prefix of digits that cannot be extended is the digit run.
pub proof fn lemma_digit_run_is(s: Seq<u8>, n: int)
    requires
        0 <= n <= s.len(),
        all_digits(s.take(n)),
        n < s.len() ==> !is_digit(s[n]),
    ensures
        digit_run(s) == n,
    decreases s.len(),
{
    if n > 0 {
        assert(s.take(n)[0] == s[0]);
        let t = s.drop_first();
        assert forall|i: int| 0 <= i < t.take(n - 1).len() implies is_digit(
            #[trigger] t.take(n - 1)[i],
        ) by {
            assert(t.take(n - 1)[i] == s.take(n)[i + 1]);
        }
        lemma_digit_run_is(t, n - 1);
    }
}

/// Reading one more digit multiplies by ten and adds the digit.
pub proof fn lemma_digits_value_step(s: Seq<u8>, n: int)
    requires
        0 <= n < s.len(),
    ensures
        digits_value(s.take(n + 1)) == 10 * digits_value(s.take(n)) + digit_value(s[n]),
{
    assert(s.take(n + 1).drop_last() =~= s.take(n));
}

/// A longer prefix never stands for a smaller number.
pub proof fn lemma_digits_value_grows(s: Seq<u8>, i: int, j: int)
    requires
        0 <= i <= j <= s.len(),
    ensures
        digits_value(s.take(i)) <= digits_value(s.take(j)),
    decreases j - i,
{
    if i < j {
        lemma_digits_value_grows(s, i, j - 1);
        lemma_digits_value_step(s, j - 1);
    }
}

/// Text to number.
///
/// The result is `parse_decimal` of the bytes: the number, or the reason why
/// the text is none.
pub fn parse_u64(text: &[u8]) -> (r: Result<u64, NumberError>)
    ensures
        r == parse_decimal(text@),
{
    if text.len() == 0 {
        return Err(NumberError::Empty);
    }
    let first: usize = if text.len() > 1 && text[0] == PLUS {
        1
    } else {
        0
    };
    let ghost d = unsigned_part(text@);
    let mut i: usize = first;
    let mut acc: u64 = 0;
    while i < text.len()
        invariant
            first <= i <= text.len(),
            first <= 1,
            text@.len() > 0,
            d == unsigned_part(text@),
            d == text@.skip(first as int),
            all_digits(d.take(i - first)),
            acc == digits_value(d.take(i - first)),
        decreases text.len() - i,
    {
        let b: u8 = text[i];
        let ghost k = (i - first) as int;
        if b < 0x30 || b > 0x39 {
            proof {
                lemma_digit_run_is(d, k);
            }
            return Err(NumberError::InvalidDigit);
        }
        let digit: u64 = (b - ZERO) as u64;
        proof {
            lemma_digits_value_step(d, k);
        }
        let next: Option<u64> = match acc.checked_mul(10) {
            Some(tens) => tens.checked_add(digit),
            None => None,
        };
        match next {
            Some(v) => {
                acc = v;
            },
            None => {
                proof {
                    lemma_digit_run_bounds(d);
                    let run = digit_run(d) as int;
                    if run < k + 1 {
                        assert(d.take(k + 1)[run] == d[run]);
                    }
                    lemma_digits_value_grows(d, k + 1, run);
                }
                return Err(NumberError::Overflow);
            },
        }
        i = i + 1;
    }
    proof {
        assert(d.take(i - first) =~= d);
        lemma_digit_run_is(d, d.len() as int);
    }
    Ok(acc)
}

/// Splitting off the last digit leaves the digits of the tenth.
pub proof fn lemma_leading_digits_step(n: nat)
    requires
        n > 0,
    ensures
        leading_digits(n) == leading_digits(n / 10).push((0x30 + n % 10) as u8),
{
}

/// The digits of a number are digits, at least one of them, and stand for
/// that number.
pub proof fn lemma_decimal_digits_value(n: nat)
    ensures
        decimal_digits(n).len() > 0,
        all_digits(decimal_digits(n)),
        digits_value(decimal_digits(n)) == n,
    decreases n,
{
    let s = decimal_digits(n);
    if n < 10 {
        assert(digits_value(s.drop_last()) == 0);
    } else {
        lemma_decimal_digits_value(n / 10);
        assert(s.drop_last() =~= decimal_digits(n / 10));
    }
}

/// Writing a number and reading the text back gives the number.
pub proof fn lemma_decimal_round_trip(n: u64)
    ensures
        parse_decimal(decimal_digits(n as nat)) == Ok::<u64, NumberError>(n),
{
    let s = decimal_digits(n as nat);
    lemma_decimal_digits_value(n as nat);
    assert(s.take(s.len() as int) =~= s);
    lemma_digit_run_is(s, s.len() as int);
}

/// One decimal digit as text.
fn digit_str(d: u8) -> (r: &'static str)
    requires
        d < 10,
    ensures
        r@ == seq![(0x30 + d) as u8 as char],
{
    proof {
        reveal_strlit("0");
        reveal_strlit("1");
        reveal_strlit("2");
        reveal_strlit("3");
        reveal_strlit("4");
        reveal_strlit("5");
        reveal_strlit("6");
        reveal_strlit("7");
        reveal_strlit("8");
        reveal_strlit("9");
    }
    let r: &'static str = match d {
        0 => "0",
        1 => "1",
        2 => "2",
        3 => "3",
        4 => "4",
        5 => "5",
        6 => "6",
        7 => "7",
        8 => "8",
        _ => "9",
    };
    r
}

/// Number to text.
///
/// The result spells the digits of `value` in base ten, without a sign and
/// without leading zeros.
pub fn render_u64(value: u64) -> (r: String)
    ensures
        r@ == ascii_text(decimal_digits(value as nat)),
{
    let mut rest: u64 = value / 10;
    let mut out: String = String::from_str(digit_str((value % 10) as u8));
    let ghost mut written: Seq<u8> = seq![(0x30 + value % 10) as u8];
    proof {
        if value > 0 {
            lemma_leading_digits_step(value as nat);
        }
    }
    while rest > 0
        invariant
            decimal_digits(value as nat) == leading_digits(rest as nat) + written,
            out@ == ascii_text(written),
        decreases rest,
    {
        let d: u8 = (rest % 10) as u8;
        let ghost before = written;
        proof {
            lemma_leading_digits_step(rest as nat);
            written = seq![(0x30 + d) as u8] + before;
            assert(leading_digits(rest as nat) + before =~= leading_digits((rest / 10) as nat)
                + written);
        }
        out = String::from_str(digit_str(d)).concat(out.as_str());
        rest = rest / 10;
    }
    out
}

} // verus!
