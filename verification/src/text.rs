//! Byte-level text helpers: zero-padded decimal rendering of integers and
//! the alphanumeric alphabet used for synthetic keys and values.

use vstd::prelude::*;

verus! {

/// The ASCII digit for `d`, for `d` in `0..10`.
pub open spec fn digit_byte(d: nat) -> u8 {
    (48 + d) as u8
}

/// True for the ASCII bytes `0`..`9`.
pub open spec fn is_digit(b: u8) -> bool {
    48 <= b <= 57
}

/// True for the ASCII bytes `A`..`Z`, `a`..`z` and `0`..`9`.
pub open spec fn is_alphanumeric(b: u8) -> bool {
    (65 <= b <= 90) || (97 <= b <= 122) || is_digit(b)
}

/// The shortest decimal rendering of `n`, most significant digit first.
pub open spec fn decimal_digits(n: nat) -> Seq<u8>
    decreases n,
{
    if n < 10 {
        seq![digit_byte(n)]
    } else {
        decimal_digits(n / 10).push(digit_byte(n % 10))
    }
}

/// `n` rendered in decimal and left-padded with `0` to at least `width` bytes.
/// A number with more than `width` digits is rendered in full.
pub open spec fn zero_padded(n: nat, width: nat) -> Seq<u8> {
    let digits = decimal_digits(n);
    if digits.len() >= width {
        digits
    } else {
        Seq::new((width - digits.len()) as nat, |i: int| 48u8) + digits
    }
}

/// The number that a sequence of ASCII digits denotes.
pub open spec fn decimal_value(s: Seq<u8>) -> nat
    decreases s.len(),
{
    if s.len() == 0 {
        0
    } else {
        decimal_value(s.drop_last()) * 10 + (s.last() - 48) as nat
    }
}

/// True when every byte of `s` is an ASCII digit.
pub open spec fn all_digits(s: Seq<u8>) -> bool {
    forall|i: int| 0 <= i < s.len() ==> is_digit(#[trigger] s[i])
}

/// True when every byte of `s` is alphanumeric.
pub open spec fn all_alphanumeric(s: Seq<u8>) -> bool {
    forall|i: int| 0 <= i < s.len() ==> is_alphanumeric(#[trigger] s[i])
}

/// Ten to the power `e`.
pub open spec fn pow10(e: nat) -> nat
    decreases e,
{
    if e == 0 {
        1
    } else {
        10 * pow10((e - 1) as nat)
    }
}


/// The rendering of a number always has at least one byte, all of them digits.
pub proof fn lemma_decimal_digits_shape(n: nat)
    ensures
        decimal_digits(n).len() >= 1,
        all_digits(decimal_digits(n)),
    decreases n,
{
    if n >= 10 {
        lemma_decimal_digits_shape(n / 10);
    }
}

/// Reading back the shortest rendering of `n` gives `n`.
pub proof fn lemma_decimal_value_of_digits(n: nat)
    ensures
        decimal_value(decimal_digits(n)) == n,
    decreases n,
{
    if n < 10 {
        let s = decimal_digits(n);
        assert(s.drop_last() =~= Seq::<u8>::empty());
        assert(decimal_value(s.drop_last()) == 0);
    } else {
        lemma_decimal_value_of_digits(n / 10);
        let s = decimal_digits(n);
        assert(s.drop_last() =~= decimal_digits(n / 10));
    }
}

/// Leading zeros do not change the number that a digit string denotes.
pub proof fn lemma_decimal_value_leading_zeros(k: nat, s: Seq<u8>)
    ensures
        decimal_value(Seq::new(k, |i: int| 48u8) + s) == decimal_value(s),
    decreases s.len(),
{
    let zeros = Seq::new(k, |i: int| 48u8);
    if s.len() == 0 {
        assert(zeros + s =~= zeros);
        lemma_decimal_value_zeros(k);
    } else {
        lemma_decimal_value_leading_zeros(k, s.drop_last());
        assert((zeros + s).drop_last() =~= zeros + s.drop_last());
        assert((zeros + s).last() == s.last());
    }
}

/// A string of zeros denotes zero.
pub proof fn lemma_decimal_value_zeros(k: nat)
    ensures
        decimal_value(Seq::new(k, |i: int| 48u8)) == 0,
    decreases k,
{
    let zeros = Seq::new(k, |i: int| 48u8);
    if k > 0 {
        lemma_decimal_value_zeros((k - 1) as nat);
        assert(zeros.drop_last() =~= Seq::new((k - 1) as nat, |i: int| 48u8));
    }
}

/// A number has at most `width` digits exactly when it is below `10^width`,
/// for any positive `width`.
pub proof fn lemma_digit_count(n: nat, width: nat)
    requires
        width >= 1,
    ensures
        decimal_digits(n).len() <= width <==> n < pow10(width),
    decreases n,
{
    if n < 10 {
        lemma_pow10_at_least_ten(width);
    } else {
        if width == 1 {
            lemma_decimal_digits_shape(n / 10);
            assert(pow10(1) == 10) by {
                reveal_with_fuel(pow10, 2);
            }
        } else {
            lemma_digit_count(n / 10, (width - 1) as nat);
            let p = pow10((width - 1) as nat);
            assert(pow10(width) == 10 * p);
            assert(n / 10 < p <==> n < 10 * p) by (nonlinear_arith)
                requires
                    p >= 0,
            ;
        }
    }
}

/// Every positive power of ten is at least ten.
pub proof fn lemma_pow10_at_least_ten(e: nat)
    requires
        e >= 1,
    ensures
        pow10(e) >= 10,
    decreases e,
{
    if e == 1 {
        assert(pow10(1) == 10) by {
            reveal_with_fuel(pow10, 2);
        }
    } else {
        lemma_pow10_at_least_ten((e - 1) as nat);
    }
}

/// The padded rendering of `n` is made of digits, is at least `width` long,
/// and reads back as `n`. When `n < 10^width` it is exactly `width` long.
pub proof fn lemma_zero_padded_shape(n: nat, width: nat)
    ensures
        all_digits(zero_padded(n, width)),
        zero_padded(n, width).len() >= width,
        zero_padded(n, width).len() >= 1,
        decimal_value(zero_padded(n, width)) == n,
        width >= 1 && n < pow10(width) ==> zero_padded(n, width).len() == width,
        width >= 1 && n >= pow10(width) ==> zero_padded(n, width).len() > width,
{
    lemma_decimal_digits_shape(n);
    lemma_decimal_value_of_digits(n);
    let digits = decimal_digits(n);
    if digits.len() < width {
        lemma_decimal_value_leading_zeros((width - digits.len()) as nat, digits);
    }
    if width >= 1 {
        lemma_digit_count(n, width);
    }
}

/// Renders `n` in decimal, left-padded with `0` to `width` bytes.
pub fn zero_padded_decimal(n: u32, width: usize) -> (out: Vec<u8>)
    ensures
        out@ == zero_padded(n as nat, width as nat),
{
    let ghost digits = decimal_digits(n as nat);
    let mut rev: Vec<u8> = Vec::new();
    let mut m: u32 = n;
    assert(pow10(0) == 1);
    assert((m as nat) * pow10(0) == n);
    while m >= 10
        invariant
            digits == decimal_digits(n as nat),
            digits.len() == decimal_digits(m as nat).len() + rev.len(),
            rev.len() <= 10,
            forall|j: int| 0 <= j < rev.len() ==> rev[j] == digits[digits.len() - 1 - j],
            forall|j: int|
                0 <= j < decimal_digits(m as nat).len() ==> digits[j] == decimal_digits(
                    m as nat,
                )[j],
            (m as nat) * pow10(rev.len() as nat) <= n,
        decreases m,
    {
        let d: u8 = (m % 10) as u8;
        proof {
            assert(decimal_digits(m as nat) == decimal_digits((m / 10) as nat).push(
                digit_byte((m % 10) as nat),
            ));
            assert(pow10((rev.len() + 1) as nat) == 10 * pow10(rev.len() as nat));
            assert(((m / 10) as nat) * (10 * pow10(rev.len() as nat)) <= (m as nat) * pow10(
                rev.len() as nat,
            )) by (nonlinear_arith)
                requires
                    m >= 10,
            ;
            if rev.len() == 10 {
                lemma_pow10_ten();
            }
        }
        rev.push(48 + d);
        m = m / 10;
    }
    rev.push(48 + (m as u8));
    assert(rev.len() == digits.len());
    assert(forall|j: int| 0 <= j < rev.len() ==> rev[j] == digits[digits.len() - 1 - j]);
    let count: usize = rev.len();
    let mut out: Vec<u8> = Vec::new();
    let mut pad: usize = 0;
    while pad + count < width
        invariant
            count == digits.len(),
            count <= 11,
            out@ == Seq::new(pad as nat, |i: int| 48u8),
            pad + count <= width || pad == 0,
        decreases width - pad,
    {
        out.push(48u8);
        pad = pad + 1;
        assert(out@ =~= Seq::new(pad as nat, |i: int| 48u8));
    }
    let ghost zeros = out@;
    let mut k: usize = 0;
    while k < count
        invariant
            k <= count,
            count == digits.len(),
            count == rev.len(),
            forall|j: int| 0 <= j < rev.len() ==> rev[j] == digits[digits.len() - 1 - j],
            out@ == zeros + digits.subrange(0, k as int),
        decreases count - k,
    {
        let b: u8 = rev[count - 1 - k];
        out.push(b);
        k = k + 1;
        assert(out@ =~= zeros + digits.subrange(0, k as int));
    }
    assert(digits.subrange(0, count as int) =~= digits);
    assert(out@ =~= zero_padded(n as nat, width as nat));
    out
}

/// Ten to the tenth power exceeds every 32-bit number.
pub proof fn lemma_pow10_ten()
    ensures
        pow10(10) == 10_000_000_000,
{
    reveal_with_fuel(pow10, 11);
}

} // verus!
