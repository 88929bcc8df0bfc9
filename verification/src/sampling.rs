//! The random sources behind the workload: a seeded generator, weighted
//! index tables, uniform ranges, the alphanumeric alphabet and Zipf ranks.
//!
//! Drawing is done by the `rand`, `rand_distr`, `rand_xoshiro` and `zipf`
//! crates. The functions here state what every draw satisfies; nothing is
//! claimed about which value a particular draw returns. Samplers are built
//! here and nowhere else, so that each one held was made from parameters
//! that its crate accepts.

use rand::distributions::Distribution;
use rand::Rng;
use rand::SeedableRng;
use vstd::prelude::*;

verus! {

/// Declares `rand_xoshiro::Xoshiro256Plus`, the random generator of every
/// task, as a type whose state is not visible to contracts.
#[verifier::external_type_specification]
#[verifier::external_body]
pub struct ExXoshiro256Plus(rand_xoshiro::Xoshiro256Plus);

/// A weighted index table: `rand_distr::WeightedAliasIndex` over machine
/// words. Its contents are visible to contracts only as [`table_weights`].
#[verifier::external_body]
pub struct WeightTable {
    inner: rand_distr::WeightedAliasIndex<usize>,
}

/// A sampler of Zipf ranks: `zipf::ZipfDistribution`. It is built only by
/// this module, from a count of elements and an exponent given as text, so
/// that every sampler held has a positive, finite exponent. It keeps the
/// exponent text beside the sampler. Contracts see of it [`zipf_elements`]
/// and [`zipf_exponent`].
#[verifier::external_body]
pub struct ZipfTable {
    inner: zipf::ZipfDistribution,
    exponent: String,
}

/// The number of elements that a Zipf sampler was built over.
pub uninterp spec fn zipf_elements(table: ZipfTable) -> nat;

/// The exponent text that a Zipf sampler was built from.
pub uninterp spec fn zipf_exponent(table: ZipfTable) -> Seq<char>;

/// The weights that a weighted index table was built from, in order.
pub uninterp spec fn table_weights(table: WeightTable) -> Seq<usize>;

/// Why a list of weights cannot be turned into a weighted index table.
#[derive(Clone, Copy, Debug, PartialEq, Eq, Structural)]
pub enum WeightError {
    /// The list is empty.
    NoItem,
    /// A weight exceeds the largest machine word divided by the list's length.
    InvalidWeight,
    /// Every weight is zero.
    AllWeightsZero,
    /// The list has more than `u32::MAX` entries.
    TooMany,
}

/// The sum of a list of weights.
pub open spec fn weight_sum(weights: Seq<usize>) -> nat
    decreases weights.len(),
{
    if weights.len() == 0 {
        0
    } else {
        weight_sum(weights.drop_last()) + weights.last() as nat
    }
}

/// True when every weight is small enough for a table of this length.
pub open spec fn weights_in_range(weights: Seq<usize>) -> bool {
    forall|i: int|
        0 <= i < weights.len() ==> (#[trigger] weights[i]) as int <= usize::MAX as int
            / weights.len() as int
}

/// What building a table from `weights` yields: the error, or none.
pub open spec fn weight_error(weights: Seq<usize>) -> Option<WeightError> {
    if weights.len() == 0 {
        Some(WeightError::NoItem)
    } else if weights.len() > u32::MAX {
        Some(WeightError::TooMany)
    } else if !weights_in_range(weights) {
        Some(WeightError::InvalidWeight)
    } else if weight_sum(weights) == 0 {
        Some(WeightError::AllWeightsZero)
    } else {
        None
    }
}

/// Builds a weighted index table with `rand_distr::WeightedAliasIndex::new`.
///
/// Trusted: the four rejections are those the constructor documents and
/// tests in this order, and an accepted list is the one the table samples
/// from.
#[verifier::external_body]
pub(crate) fn table_new(weights: Vec<usize>) -> (out: Result<WeightTable, WeightError>)
    ensures
        match out {
            Ok(table) => weight_error(weights@) is None && table_weights(table) == weights@,
            Err(e) => weight_error(weights@) == Some(e),
        },
{
    match rand_distr::WeightedAliasIndex::new(weights) {
        Ok(inner) => Ok(WeightTable { inner }),
        Err(rand_distr::WeightedError::NoItem) => Err(WeightError::NoItem),
        Err(rand_distr::WeightedError::InvalidWeight) => Err(WeightError::InvalidWeight),
        Err(rand_distr::WeightedError::AllWeightsZero) => Err(WeightError::AllWeightsZero),
        Err(rand_distr::WeightedError::TooMany) => Err(WeightError::TooMany),
    }
}

/// Draws an index from a table with `WeightedAliasIndex::sample`.
///
/// Trusted: the index lies within the weights the table was built from, and
/// an entry of weight zero is never drawn (its chance is proportional to its
/// weight).
#[verifier::external_body]
pub(crate) fn table_sample(
    table: &WeightTable,
    rng: &mut rand_xoshiro::Xoshiro256Plus,
) -> (index: usize)
    ensures
        index < table_weights(*table).len(),
        table_weights(*table)[index as int] > 0,
{
    table.inner.sample(rng)
}

/// Draws from `low..high` with `rand::distributions::Uniform`: builds the
/// distribution with `Uniform::new` and samples it once.
///
/// Trusted: the draw lies in the half-open range. An empty range, on which
/// the constructor panics, is excluded.
#[verifier::external_body]
pub(crate) fn uniform_between(
    rng: &mut rand_xoshiro::Xoshiro256Plus,
    low: usize,
    high: usize,
) -> (n: usize)
    requires
        low < high,
    ensures
        low <= n < high,
{
    rand::distributions::Uniform::new(low, high).sample(rng)
}

/// Draws from `low..high` with `Rng::gen_range`.
///
/// Trusted: the draw lies in the half-open range. An empty range, on which
/// the call panics, is excluded.
#[verifier::external_body]
pub(crate) fn range_between(rng: &mut rand_xoshiro::Xoshiro256Plus, low: u32, high: u32) -> (n:
    u32)
    requires
        low < high,
    ensures
        low <= n < high,
{
    rng.gen_range(low..high)
}

/// Draws one byte with `rand::distributions::Alphanumeric`.
///
/// Trusted: the byte is one of `A`-`Z`, `a`-`z`, `0`-`9`.
#[verifier::external_body]
pub(crate) fn alphanumeric_byte(rng: &mut rand_xoshiro::Xoshiro256Plus) -> (b: u8)
    ensures
        crate::text::is_alphanumeric(b),
{
    rng.sample(rand::distributions::Alphanumeric)
}

/// The longest exponent text that is accepted.
pub const EXPONENT_LENGTH: usize = 32;

/// True for the characters `0` to `9`.
pub open spec fn is_decimal_digit(c: char) -> bool {
    '0' <= c <= '9'
}

/// True for text that is a plain decimal number: digits with at most one
/// dot among them, at least one digit, no sign, no exponent part, and no
/// more than 32 characters. Such text always denotes a finite number.
pub open spec fn plain_decimal(text: Seq<char>) -> bool {
    &&& text.len() <= EXPONENT_LENGTH
    &&& forall|i: int|
        0 <= i < text.len() ==> is_decimal_digit(#[trigger] text[i]) || text[i] == '.'
    &&& forall|i: int, j: int|
        0 <= i < j < text.len() ==> !(#[trigger] text[i] == '.' && #[trigger] text[j] == '.')
    &&& exists|i: int| 0 <= i < text.len() && is_decimal_digit(#[trigger] text[i])
}

/// True for text with a digit other than `0`. A plain decimal number is
/// above zero exactly when its text has one.
pub open spec fn has_nonzero_digit(text: Seq<char>) -> bool {
    exists|i: int| 0 <= i < text.len() && is_decimal_digit(#[trigger] text[i]) && text[i] != '0'
}

/// True for the letter that starts the scale of a number, `e` or `E`.
pub open spec fn is_scale_mark(c: char) -> bool {
    c == 'e' || c == 'E'
}

/// The length of the sign in front of a number: one for a `+`, else zero.
pub open spec fn sign_length(text: Seq<char>) -> int {
    if text.len() > 0 && text[0] == '+' {
        1
    } else {
        0
    }
}

/// The position of the first scale mark at or after `from`, or the length
/// of the text if there is none.
pub open spec fn scale_start(text: Seq<char>, from: int) -> int
    decreases text.len() - from,
{
    if from < 0 || from >= text.len() {
        text.len() as int
    } else if is_scale_mark(text[from]) {
        from
    } else {
        scale_start(text, from + 1)
    }
}

/// The digits and dot of a number: what stands between the sign and the
/// scale.
pub open spec fn mantissa(text: Seq<char>) -> Seq<char> {
    text.subrange(sign_length(text), scale_start(text, sign_length(text)))
}

/// The scale of a number: what stands from the first scale mark on.
pub open spec fn scale(text: Seq<char>) -> Seq<char> {
    text.subrange(scale_start(text, sign_length(text)), text.len() as int)
}

/// True for a scale that is absent, or is a scale mark, an optional sign
/// and one or two digits: a power of ten between -99 and 99.
pub open spec fn scale_ok(part: Seq<char>) -> bool {
    part.len() == 0 || {
        let digits_from: int = if part.len() > 1 && (part[1] == '+' || part[1] == '-') {
            2
        } else {
            1
        };
        &&& is_scale_mark(part[0])
        &&& 1 <= part.len() - digits_from <= 2
        &&& forall|i: int| digits_from <= i < part.len() ==> is_decimal_digit(#[trigger] part[i])
    }
}

/// True for text that is a decimal number not below zero, as exponents are
/// written: an optional `+`, a plain decimal number, and an optional scale.
/// With at most 32 characters before the scale and a scale of at most two
/// digits, such text always denotes a finite number, and one above zero
/// exactly when the plain decimal number has a digit other than `0`.
pub open spec fn decimal_number(text: Seq<char>) -> bool {
    plain_decimal(mantissa(text)) && scale_ok(scale(text))
}

/// True for a decimal number above zero.
pub open spec fn positive_number(text: Seq<char>) -> bool {
    decimal_number(text) && has_nonzero_digit(mantissa(text))
}

/// Builds a Zipf sampler with `zipf::ZipfDistribution::new`, after reading
/// the exponent from its text with `str::parse`.
///
/// Trusted: a decimal number as [`decimal_number`] admits always parses, to
/// a finite value that is above zero exactly when its digits before the
/// scale include one other than `0`; the constructor refuses a count of
/// zero, excluded here, and an exponent that is not above zero, and nothing
/// else. A sampler that is returned was built
/// over `elements` elements with the exponent that the text denotes, and
/// the text is kept with it. The count is kept within 32 bits, where the
/// sampler's own copy of it is exact.
#[verifier::external_body]
pub(crate) fn zipf_new(elements: usize, exponent: &str) -> (out: Option<ZipfTable>)
    requires
        1 <= elements <= u32::MAX,
        decimal_number(exponent@),
    ensures
        out is Some <==> positive_number(exponent@),
        out matches Some(table) ==> zipf_elements(table) == elements && zipf_exponent(table)
            == exponent@,
{
    let inner = zipf::ZipfDistribution::new(elements, exponent.parse().ok()?).ok()?;
    Some(ZipfTable { inner, exponent: exponent.to_string() })
}

/// Draws a rank with `zipf::ZipfDistribution::sample`.
///
/// Trusted: the rank lies between one and the number of elements the
/// sampler was built over; the sampler clamps its draw to that range. With
/// the positive, finite exponent that every sampler held here was built
/// with, the call returns.
#[verifier::external_body]
pub(crate) fn zipf_rank(table: &ZipfTable, rng: &mut rand_xoshiro::Xoshiro256Plus) -> (rank:
    usize)
    ensures
        1 <= rank <= zipf_elements(*table),
{
    table.inner.sample(rng)
}

/// Tells whether the characters of `text` from `from` up to `to` are a
/// plain decimal number, and whether they include a digit other than `0`.
pub fn check_digits(text: &str, from: usize, to: usize) -> (out: (bool, bool))
    requires
        from <= to <= text@.len(),
    ensures
        out.0 == plain_decimal(text@.subrange(from as int, to as int)),
        out.1 == has_nonzero_digit(text@.subrange(from as int, to as int)),
{
    let ghost part = text@.subrange(from as int, to as int);
    let mut i: usize = from;
    let mut dots: usize = 0;
    let mut digits: bool = false;
    let mut nonzero: bool = false;
    let mut clean: bool = true;
    let ghost mut dot_at: int = -1;
    let ghost mut second_dot: int = -1;
    let ghost mut digit_at: int = -1;
    let ghost mut nonzero_at: int = -1;
    let ghost mut bad_at: int = -1;
    while i < to
        invariant
            from <= i <= to,
            to <= text@.len(),
            part == text@.subrange(from as int, to as int),
            dots <= i - from,
            clean <==> forall|k: int|
                0 <= k < i - from ==> is_decimal_digit(#[trigger] part[k]) || part[k] == '.',
            !clean ==> 0 <= bad_at < i - from && !is_decimal_digit(part[bad_at]) && part[bad_at]
                != '.',
            dots == 0 ==> forall|k: int| 0 <= k < i - from ==> #[trigger] part[k] != '.',
            dots >= 1 ==> 0 <= dot_at < i - from && part[dot_at] == '.',
            dots == 1 ==> forall|k: int|
                0 <= k < i - from && k != dot_at ==> #[trigger] part[k] != '.',
            dots >= 2 ==> 0 <= second_dot < i - from && second_dot != dot_at && part[second_dot]
                == '.',
            digits <==> exists|k: int| 0 <= k < i - from && is_decimal_digit(#[trigger] part[k]),
            digits ==> 0 <= digit_at < i - from && is_decimal_digit(part[digit_at]),
            nonzero <==> exists|k: int|
                0 <= k < i - from && is_decimal_digit(#[trigger] part[k]) && part[k] != '0',
            nonzero ==> 0 <= nonzero_at < i - from && is_decimal_digit(part[nonzero_at])
                && part[nonzero_at] != '0',
        decreases to - i,
    {
        let c = text.get_char(i);
        assert(c == part[i - from]);
        if c == '.' {
            proof {
                if dots == 0 {
                    dot_at = i - from;
                } else if dots == 1 {
                    second_dot = i - from;
                }
            }
            dots = dots + 1;
        } else if '0' <= c && c <= '9' {
            digits = true;
            proof {
                digit_at = i - from;
            }
            if c != '0' {
                nonzero = true;
                proof {
                    nonzero_at = i - from;
                }
            }
        } else {
            if clean {
                proof {
                    bad_at = i - from;
                }
            }
            clean = false;
        }
        i = i + 1;
    }
    let plain = to - from <= EXPONENT_LENGTH && clean && dots <= 1 && digits;
    proof {
        if dots >= 2 {
            let a = if dot_at < second_dot {
                dot_at
            } else {
                second_dot
            };
            let b = if dot_at < second_dot {
                second_dot
            } else {
                dot_at
            };
            assert(part[a] == '.' && part[b] == '.');
        }
    }
    (plain, nonzero)
}

/// Tells whether the characters of `text` from `from` on are a scale: none
/// at all, or a scale mark, an optional sign and one or two digits.
pub fn check_scale(text: &str, from: usize) -> (out: bool)
    requires
        from <= text@.len(),
    ensures
        out == scale_ok(text@.subrange(from as int, text@.len() as int)),
{
    let n = text.unicode_len();
    let ghost part = text@.subrange(from as int, n as int);
    if from == n {
        return true;
    }
    let mark = text.get_char(from);
    assert(mark == part[0]);
    if !(mark == 'e' || mark == 'E') {
        return false;
    }
    let mut digits_from: usize = from + 1;
    if from + 1 < n {
        let sign = text.get_char(from + 1);
        assert(sign == part[1]);
        if sign == '+' || sign == '-' {
            digits_from = from + 2;
        }
    }
    let count = n - digits_from;
    if count < 1 || count > 2 {
        return false;
    }
    let first = text.get_char(digits_from);
    assert(first == part[digits_from - from]);
    if !('0' <= first && first <= '9') {
        return false;
    }
    if count == 2 {
        let second = text.get_char(digits_from + 1);
        assert(second == part[digits_from + 1 - from]);
        if !('0' <= second && second <= '9') {
            return false;
        }
    }
    true
}

/// Finds the first scale mark at or after `from`.
pub fn find_scale(text: &str, from: usize) -> (out: usize)
    requires
        from <= text@.len(),
    ensures
        out == scale_start(text@, from as int),
        from <= out <= text@.len(),
{
    let n = text.unicode_len();
    let mut i: usize = from;
    while i < n
        invariant
            from <= i <= n,
            n == text@.len(),
            scale_start(text@, from as int) == scale_start(text@, i as int),
        decreases n - i,
    {
        let c = text.get_char(i);
        if c == 'e' || c == 'E' {
            return i;
        }
        i = i + 1;
    }
    i
}

/// Tells whether an exponent text is a decimal number, and whether it is
/// one above zero.
pub fn check_exponent(text: &str) -> (out: (bool, bool))
    ensures
        out.0 == decimal_number(text@),
        out.1 == positive_number(text@),
{
    let n = text.unicode_len();
    let mut start: usize = 0;
    if n > 0 {
        if text.get_char(0) == '+' {
            start = 1;
        }
    }
    let end = find_scale(text, start);
    let (plain, nonzero) = check_digits(text, start, end);
    let scaled = check_scale(text, end);
    let number = plain && scaled;
    (number, number && nonzero)
}

/// The generator that `Xoshiro256Plus::seed_from_u64` yields for a seed.
pub uninterp spec fn seeded_generator(seed: u64) -> rand_xoshiro::Xoshiro256Plus;

/// Seeds a generator with `Xoshiro256Plus::seed_from_u64`.
///
/// Trusted: the generator is a function of the seed alone. The seed is
/// expanded by a fixed mixing function into the generator's state, with
/// nothing read from the clock, the machine or the process, so one seed
/// gives one generator everywhere. Which numbers it then yields is not
/// claimed.
#[verifier::external_body]
pub(crate) fn seeded(seed: u64) -> (out: rand_xoshiro::Xoshiro256Plus)
    ensures
        out == seeded_generator(seed),
{
    rand_xoshiro::Xoshiro256Plus::seed_from_u64(seed)
}

/// The seed of the task at position `index`: the master seed plus the
/// position, wrapping at 64 bits. Tasks at different positions, fewer than
/// 2^64 apart, get different seeds.
pub open spec fn task_seed(master: u64, index: u64) -> u64 {
    ((master + index) % 0x1_0000_0000_0000_0000) as u64
}

/// The random generator of the task at position `index`: the generator
/// seeded with the master seed plus the position. A task that is started
/// again with the same master seed and position draws the same numbers.
pub fn task_rng(master: u64, index: u64) -> (out: rand_xoshiro::Xoshiro256Plus)
    ensures
        out == seeded_generator(task_seed(master, index)),
{
    seeded(seed_for(master, index))
}

/// Computes [`task_seed`].
pub fn seed_for(master: u64, index: u64) -> (out: u64)
    ensures
        out == task_seed(master, index),
{
    master.wrapping_add(index)
}

/// Tasks at different positions get different seeds.
pub proof fn lemma_task_seeds_differ(master: u64, a: u64, b: u64)
    requires
        a != b,
    ensures
        task_seed(master, a) != task_seed(master, b),
{
}

} // verus!
