//! Reading temperatures out of the text that a management shell prints: one
//! decimal number to a line, in degrees Celsius.
//!
//! A number is an optional sign, digits with an optional decimal point among
//! them, and an optional exponent: the letter `e` or `E`, an optional sign and
//! digits. At least one digit stands before the exponent. Its value is taken
//! in millionths of a degree, and what is finer than that is dropped.
//! Infinities and not-a-number are no readings.

use vstd::prelude::*;
use crate::label::chars_of;
use crate::thermal::plausible;

verus! {

/// White space as Unicode defines it.
pub open spec fn is_space(c: char) -> bool {
    let u = c as u32;
    ||| 0x09 <= u <= 0x0d
    ||| u == 0x20
    ||| u == 0x85
    ||| u == 0xa0
    ||| u == 0x1680
    ||| 0x2000 <= u <= 0x200a
    ||| u == 0x2028
    ||| u == 0x2029
    ||| u == 0x202f
    ||| u == 0x205f
    ||| u == 0x3000
}

/// One of the ten decimal digits.
pub open spec fn is_digit(c: char) -> bool {
    0x30 <= c as u32 <= 0x39
}

/// What a decimal digit counts.
pub open spec fn digit_value(c: char) -> int {
    (c as u32) - 0x30
}

/// How many white-space characters a text begins with.
pub open spec fn leading_spaces(s: Seq<char>) -> nat
    decreases s.len(),
{
    if s.len() > 0 && is_space(s[0]) {
        1 + leading_spaces(s.drop_first())
    } else {
        0
    }
}

/// How many white-space characters a text ends with.
pub open spec fn trailing_spaces(s: Seq<char>) -> nat
    decreases s.len(),
{
    if s.len() > 0 && is_space(s.last()) {
        1 + trailing_spaces(s.drop_last())
    } else {
        0
    }
}

/// The text without the white space at its two ends.
pub open spec fn trimmed(s: Seq<char>) -> Seq<char> {
    let rest = s.skip(leading_spaces(s) as int);
    rest.take(rest.len() - trailing_spaces(rest))
}

/// Where the run of digits that begins at `from` ends.
pub open spec fn digits_end(s: Seq<char>, from: int) -> int
    decreases s.len() - from,
{
    if 0 <= from < s.len() && is_digit(s[from]) {
        digits_end(s, from + 1)
    } else {
        from
    }
}

/// The number that the digits among `s[from..to]` spell; a character that
/// is no digit, such as the decimal point, is passed over.
pub open spec fn mantissa(s: Seq<char>, from: int, to: int) -> int
    decreases to - from,
{
    if to <= from {
        0
    } else if is_digit(s[to - 1]) {
        mantissa(s, from, to - 1) * 10 + digit_value(s[to - 1])
    } else {
        mantissa(s, from, to - 1)
    }
}

/// `m` with its decimal point moved `shift` places to the right, or, for a
/// negative `shift`, to the left, the digits behind the point dropped.
pub open spec fn scaled(m: int, shift: int) -> int
    decreases
            if shift < 0 {
                -shift
            } else {
                shift
            },
{
    if shift > 0 {
        scaled(m * 10, shift - 1)
    } else if shift < 0 {
        scaled(m / 10, shift + 1)
    } else {
        m
    }
}

/// One if a sign stands at `at`, else zero.
pub open spec fn sign_len(s: Seq<char>, at: int) -> int {
    if 0 <= at < s.len() && (s[at] == '+' || s[at] == '-') {
        1
    } else {
        0
    }
}

/// A minus sign stands at `at`.
pub open spec fn minus_at(s: Seq<char>, at: int) -> bool {
    0 <= at < s.len() && s[at] == '-'
}

/// Where the digits before the decimal point begin: behind the sign, if
/// there is one.
pub open spec fn whole_start(s: Seq<char>) -> int {
    sign_len(s, 0)
}

/// Where the digits before the decimal point end.
pub open spec fn whole_end(s: Seq<char>) -> int {
    digits_end(s, whole_start(s))
}

/// Where the digits behind the decimal point begin; where there is no
/// point, this is where the digits before it end.
pub open spec fn frac_start(s: Seq<char>) -> int {
    if whole_end(s) < s.len() && s[whole_end(s)] == '.' {
        whole_end(s) + 1
    } else {
        whole_end(s)
    }
}

/// Where the digits behind the decimal point end.
pub open spec fn frac_end(s: Seq<char>) -> int {
    digits_end(s, frac_start(s))
}

/// An exponent follows the digits.
pub open spec fn has_exponent(s: Seq<char>) -> bool {
    frac_end(s) < s.len() && (s[frac_end(s)] == 'e' || s[frac_end(s)] == 'E')
}

/// Where the digits of the exponent begin.
pub open spec fn exp_start(s: Seq<char>) -> int {
    frac_end(s) + 1 + sign_len(s, frac_end(s) + 1)
}

/// Where the digits of the exponent end.
pub open spec fn exp_end(s: Seq<char>) -> int {
    digits_end(s, exp_start(s))
}

/// The text is a decimal number from end to end.
pub open spec fn is_decimal(s: Seq<char>) -> bool {
    &&& (whole_end(s) - whole_start(s)) + (frac_end(s) - frac_start(s)) > 0
    &&& if has_exponent(s) {
        exp_start(s) < exp_end(s) == s.len()
    } else {
        frac_end(s) == s.len()
    }
}

/// The exponent of a decimal number; zero where none is written.
pub open spec fn exponent_of(s: Seq<char>) -> int {
    if !has_exponent(s) {
        0
    } else if minus_at(s, frac_end(s) + 1) {
        -mantissa(s, exp_start(s), exp_end(s))
    } else {
        mantissa(s, exp_start(s), exp_end(s))
    }
}

/// The value of a decimal number in millionths, its sign aside, and what is
/// finer than a millionth dropped.
pub open spec fn magnitude_of(s: Seq<char>) -> int {
    scaled(
        mantissa(s, whole_start(s), frac_end(s)),
        exponent_of(s) - (frac_end(s) - frac_start(s)) + 6,
    )
}

/// The value of a decimal number in millionths, rounded towards zero;
/// nothing if the text is not a decimal number from end to end.
pub open spec fn decimal_micro(s: Seq<char>) -> Option<int> {
    if !is_decimal(s) {
        None
    } else if minus_at(s, 0) {
        Some(-magnitude_of(s))
    } else {
        Some(magnitude_of(s))
    }
}

/// The temperature that a text spells: its value as a decimal number, if it
/// is one and the value is plausible.
pub open spec fn plausible_decimal(s: Seq<char>) -> Option<i64> {
    match decimal_micro(s) {
        Some(v) => if plausible(v) {
            Some(v as i64)
        } else {
            None
        },
        None => None,
    }
}

/// The reading on a line: the temperature that it spells, white space at
/// its ends aside.
pub open spec fn reading_in(line: Seq<char>) -> Option<i64> {
    plausible_decimal(trimmed(line))
}

/// How many characters stand before the first line feed.
pub open spec fn line_len(s: Seq<char>) -> nat
    decreases s.len(),
{
    if s.len() == 0 || s[0] == '\n' {
        0
    } else {
        1 + line_len(s.drop_first())
    }
}

/// The reading on the first line of a text that holds one.
pub open spec fn first_reading_in(text: Seq<char>) -> Option<i64>
    decreases text.len(),
{
    let n = line_len(text) as int;
    match reading_in(text.take(n)) {
        Some(v) => Some(v),
        None => if n >= text.len() {
            None
        } else {
            first_reading_in(text.skip(n + 1))
        },
    }
}

/// Whether a character is white space.
pub fn char_is_space(c: char) -> (space: bool)
    ensures
        space == is_space(c),
{
    let u: u32 = c as u32;
    (0x09 <= u && u <= 0x0d) || u == 0x20 || u == 0x85 || u == 0xa0 || u == 0x1680 || (0x2000 <= u
        && u <= 0x200a) || u == 0x2028 || u == 0x2029 || u == 0x202f || u == 0x205f || u == 0x3000
}

fn char_is_digit(c: char) -> (digit: bool)
    ensures
        digit == is_digit(c),
{
    let u: u32 = c as u32;
    0x30 <= u && u <= 0x39
}

/// The characters of `s` without the white space at its two ends.
pub fn trim(s: &Vec<char>) -> (inner: Vec<char>)
    ensures
        inner@ == trimmed(s@),
{
    let n: usize = s.len();
    let mut lo: usize = 0;
    assert(s@.skip(0) =~= s@);
    while lo < n && char_is_space(s[lo])
        invariant
            n == s@.len(),
            lo <= n,
            leading_spaces(s@) == lo + leading_spaces(s@.skip(lo as int)),
        decreases n - lo,
    {
        assert(s@.skip(lo as int).drop_first() =~= s@.skip(lo + 1));
        lo = lo + 1;
    }
    let ghost rest = s@.skip(lo as int);
    let mut hi: usize = n;
    assert(rest.take(rest.len() as int) =~= rest);
    while hi > lo && char_is_space(s[hi - 1])
        invariant
            n == s@.len(),
            lo <= hi <= n,
            rest == s@.skip(lo as int),
            trailing_spaces(rest) == (n - hi) + trailing_spaces(rest.take(hi - lo)),
        decreases hi - lo,
    {
        assert(rest.take(hi - lo).last() == s@[hi - 1]);
        assert(rest.take(hi - lo).drop_last() =~= rest.take(hi - lo - 1));
        hi = hi - 1;
    }
    proof {
        assert(leading_spaces(rest) == 0);
        assert(leading_spaces(s@) == lo);
        if hi > lo {
            assert(rest.take(hi - lo).last() == s@[hi - 1]);
        }
        assert(trailing_spaces(rest.take(hi - lo)) == 0);
        assert(trailing_spaces(rest) == n - hi);
    }
    let mut inner: Vec<char> = Vec::new();
    let mut i: usize = lo;
    while i < hi
        invariant
            lo <= i <= hi <= n,
            n == s@.len(),
            inner@ == s@.subrange(lo as int, i as int),
        decreases hi - i,
    {
        inner.push(s[i]);
        assert(inner@ =~= s@.subrange(lo as int, i + 1));
        i = i + 1;
    }
    assert(inner@ =~= rest.take(rest.len() - (n - hi)));
    inner
}

/// The number that a sequence of digit values spells.
spec fn value(digits: Seq<u8>) -> int
    decreases digits.len(),
{
    if digits.len() == 0 {
        0
    } else {
        value(digits.drop_last()) * 10 + digits.last()
    }
}

/// Magnitudes are followed exactly below this bound, which lies beyond
/// every plausible temperature: a thousand degrees.
const MAGNITUDE_CAP: u64 = 1_000_000_000;

/// Exponents are followed exactly below this bound, which lies beyond the
/// length of any text.
const EXPONENT_CAP: u128 = 0x40_0000_0000_0000_0000;

/// `x`, or the bound `cap` where `x` lies beyond it.
spec fn capped(x: int, cap: int) -> int {
    if x > cap {
        cap
    } else {
        x
    }
}

/// Every entry is a digit value.
spec fn all_digits(digits: Seq<u8>) -> bool {
    forall|i: int| 0 <= i < digits.len() ==> digits[i] <= 9
}

proof fn lemma_value_nonnegative(digits: Seq<u8>)
    ensures
        0 <= value(digits),
    decreases digits.len(),
{
    if digits.len() > 0 {
        lemma_value_nonnegative(digits.drop_last());
    }
}

proof fn lemma_scaled_zero(shift: int)
    ensures
        scaled(0, shift) == 0,
    decreases
            if shift < 0 {
                -shift
            } else {
                shift
            },
{
    if shift > 0 {
        lemma_scaled_zero(shift - 1);
    } else if shift < 0 {
        lemma_scaled_zero(shift + 1);
    }
}

proof fn lemma_scaled_grows(m: int, shift: int)
    requires
        0 <= m,
        0 <= shift,
    ensures
        m <= scaled(m, shift),
    decreases shift,
{
    if shift > 0 {
        lemma_scaled_grows(m * 10, shift - 1);
    }
}

proof fn lemma_scaled_large(m: int, shift: int)
    requires
        1 <= m,
        9 <= shift,
    ensures
        MAGNITUDE_CAP <= scaled(m, shift),
    decreases shift,
{
    if shift > 9 {
        lemma_scaled_large(m * 10, shift - 1);
    } else {
        reveal_with_fuel(scaled, 10);
        assert(scaled(m, 9) == m * 1_000_000_000);
    }
}

proof fn lemma_scaled_capped(m: int, shift: int, cap: int)
    requires
        0 <= m,
        0 <= shift,
        0 <= cap,
    ensures
        capped(scaled(m, shift), cap) == capped(scaled(capped(m, cap), shift), cap),
{
    if m > cap {
        lemma_scaled_grows(m, shift);
        lemma_scaled_grows(cap, shift);
    }
}

proof fn lemma_scaled_drops(digits: Seq<u8>, k: int)
    requires
        all_digits(digits),
        0 <= k,
    ensures
        k <= digits.len() ==> scaled(value(digits), -k) == value(digits.take(digits.len() - k)),
        k >= digits.len() ==> scaled(value(digits), -k) == 0,
    decreases k,
{
    if k == 0 {
        assert(digits.take(digits.len() as int) =~= digits);
    } else if digits.len() == 0 {
        lemma_scaled_zero(-k);
    } else {
        let front = digits.drop_last();
        lemma_value_nonnegative(front);
        assert(value(digits) / 10 == value(front)) by {
            assert(digits.last() <= 9);
        }
        assert(all_digits(front)) by {
            assert forall|i: int| 0 <= i < front.len() implies front[i] <= 9 by {
                assert(front[i] == digits[i]);
            }
        }
        lemma_scaled_drops(front, k - 1);
        if k <= digits.len() {
            assert(front.take(front.len() - (k - 1)) =~= digits.take(digits.len() - k));
        }
    }
}

fn scan_digits(s: &Vec<char>, from: usize) -> (end: usize)
    requires
        from <= s@.len(),
    ensures
        end == digits_end(s@, from as int),
        from <= end <= s@.len(),
        forall|i: int| from <= i < end ==> is_digit(s@[i]),
        end < s@.len() ==> !is_digit(s@[end as int]),
{
    let n: usize = s.len();
    let mut end: usize = from;
    while end < n && char_is_digit(s[end])
        invariant
            n == s@.len(),
            from <= end <= n,
            digits_end(s@, from as int) == digits_end(s@, end as int),
            forall|i: int| from <= i < end ==> is_digit(s@[i]),
        decreases n - end,
    {
        end = end + 1;
    }
    end
}

fn push_digits(s: &Vec<char>, from: usize, to: usize, digits: &mut Vec<u8>, Ghost(start): Ghost<int>)
    requires
        0 <= start <= from <= to <= s@.len(),
        forall|i: int| from <= i < to ==> is_digit(s@[i]),
        value(old(digits)@) == mantissa(s@, start, from as int),
        all_digits(old(digits)@),
    ensures
        value(final(digits)@) == mantissa(s@, start, to as int),
        all_digits(final(digits)@),
        final(digits)@.len() == old(digits)@.len() + (to - from),
{
    let mut i: usize = from;
    while i < to
        invariant
            0 <= start <= from <= i <= to <= s@.len(),
            forall|j: int| from <= j < to ==> is_digit(s@[j]),
            value(digits@) == mantissa(s@, start, i as int),
            all_digits(digits@),
            digits@.len() == old(digits)@.len() + (i - from),
        decreases to - i,
    {
        assert(is_digit(s@[i as int]));
        let d: u8 = (s[i] as u32 - 0x30) as u8;
        let ghost before = digits@;
        digits.push(d);
        assert(digits@.drop_last() =~= before);
        i = i + 1;
    }
}

proof fn lemma_mantissa_nonnegative(s: Seq<char>, from: int, to: int)
    ensures
        0 <= mantissa(s, from, to),
    decreases to - from,
{
    if to > from {
        lemma_mantissa_nonnegative(s, from, to - 1);
    }
}

fn capped_value(digits: &Vec<u8>, count: usize) -> (v: u64)
    requires
        count <= digits@.len(),
        all_digits(digits@),
    ensures
        v == capped(value(digits@.take(count as int)), MAGNITUDE_CAP as int),
{
    let mut v: u64 = 0;
    let mut i: usize = 0;
    while i < count
        invariant
            i <= count <= digits@.len(),
            all_digits(digits@),
            v == capped(value(digits@.take(i as int)), MAGNITUDE_CAP as int),
            v <= MAGNITUDE_CAP,
        decreases count - i,
    {
        proof {
            let next = digits@.take(i + 1);
            assert(next.drop_last() =~= digits@.take(i as int));
            assert(next.last() == digits@[i as int]);
            lemma_value_nonnegative(digits@.take(i as int));
        }
        let next: u64 = v * 10 + digits[i] as u64;
        v = if next > MAGNITUDE_CAP {
            MAGNITUDE_CAP
        } else {
            next
        };
        i = i + 1;
    }
    v
}

fn capped_exponent(s: &Vec<char>, from: usize, to: usize) -> (power: u128)
    requires
        from <= to <= s@.len(),
        forall|i: int| from <= i < to ==> is_digit(s@[i]),
    ensures
        power == capped(mantissa(s@, from as int, to as int), EXPONENT_CAP as int),
{
    let mut power: u128 = 0;
    let mut i: usize = from;
    while i < to
        invariant
            from <= i <= to <= s@.len(),
            forall|j: int| from <= j < to ==> is_digit(s@[j]),
            power == capped(mantissa(s@, from as int, i as int), EXPONENT_CAP as int),
            power <= EXPONENT_CAP,
        decreases to - i,
    {
        proof {
            assert(is_digit(s@[i as int]));
            lemma_mantissa_nonnegative(s@, from as int, i as int);
        }
        let next: u128 = power * 10 + (s[i] as u32 - 0x30) as u128;
        power = if next > EXPONENT_CAP {
            EXPONENT_CAP
        } else {
            next
        };
        i = i + 1;
    }
    power
}

fn magnitude(digits: &Vec<u8>, shift: i128) -> (m: u64)
    requires
        all_digits(digits@),
        -0x7fff_ffff_ffff_ffff_ffff_ffff_ffff_ffff <= shift,
    ensures
        m == capped(scaled(value(digits@), shift as int), MAGNITUDE_CAP as int),
{
    let len: usize = digits.len();
    let ghost number = value(digits@);
    proof {
        lemma_value_nonnegative(digits@);
        assert(digits@.take(len as int) =~= digits@);
    }
    if shift < 0 {
        let k: u128 = (-shift) as u128;
        proof {
            lemma_scaled_drops(digits@, k as int);
        }
        if k >= len as u128 {
            return 0;
        }
        capped_value(digits, len - k as usize)
    } else {
        let whole: u64 = capped_value(digits, len);
        if whole == 0 {
            proof {
                lemma_scaled_zero(shift as int);
            }
            return 0;
        }
        if shift >= 9 {
            proof {
                lemma_scaled_large(number, shift as int);
            }
            return MAGNITUDE_CAP;
        }
        let mut m: u64 = whole;
        let mut left: i128 = shift;
        proof {
            lemma_scaled_capped(number, shift as int, MAGNITUDE_CAP as int);
        }
        while left > 0
            invariant
                0 <= left <= 8,
                m <= MAGNITUDE_CAP,
                capped(scaled(number, shift as int), MAGNITUDE_CAP as int) == capped(
                    scaled(m as int, left as int),
                    MAGNITUDE_CAP as int,
                ),
            decreases left,
        {
            proof {
                lemma_scaled_capped(m * 10, left - 1, MAGNITUDE_CAP as int);
            }
            let next: u64 = m * 10;
            m = if next > MAGNITUDE_CAP {
                MAGNITUDE_CAP
            } else {
                next
            };
            left = left - 1;
        }
        m
    }
}

proof fn lemma_shift_capped(digits: Seq<u8>, shift: int, followed: int)
    requires
        all_digits(digits),
        shift == followed || 9 <= followed <= shift || shift <= followed <= -digits.len(),
    ensures
        capped(scaled(value(digits), shift), MAGNITUDE_CAP as int) == capped(
            scaled(value(digits), followed),
            MAGNITUDE_CAP as int,
        ),
{
    lemma_value_nonnegative(digits);
    if shift == followed {
    } else if 9 <= followed {
        if value(digits) == 0 {
            lemma_scaled_zero(shift);
            lemma_scaled_zero(followed);
        } else {
            lemma_scaled_large(value(digits), shift);
            lemma_scaled_large(value(digits), followed);
        }
    } else {
        lemma_scaled_drops(digits, -shift);
        lemma_scaled_drops(digits, -followed);
    }
}

/// The exponent as far as it is followed: exactly, or as some value beyond
/// [`EXPONENT_CAP`] on the same side of zero.
spec fn follows(followed: int, exponent: int) -> bool {
    ||| followed == exponent
    ||| EXPONENT_CAP <= followed <= exponent
    ||| exponent <= followed <= -EXPONENT_CAP
}

/// The exponent behind the digits that end at `at`, as far as it is
/// followed; nothing where the text does not end there or in an exponent.
fn read_exponent(s: &Vec<char>, at: usize) -> (exponent: Option<i128>)
    requires
        at == frac_end(s@),
        at <= s@.len(),
    ensures
        exponent is Some <==> if has_exponent(s@) {
            exp_start(s@) < exp_end(s@) == s@.len()
        } else {
            frac_end(s@) == s@.len()
        },
        exponent is Some ==> follows(exponent.unwrap() as int, exponent_of(s@)),
        exponent is Some ==> -EXPONENT_CAP <= exponent.unwrap() <= EXPONENT_CAP,
{
    let n: usize = s.len();
    if at == n {
        return Some(0);
    }
    if !(s[at] == 'e' || s[at] == 'E') {
        return None;
    }
    let sign_at: usize = at + 1;
    let falling: bool = sign_at < n && s[sign_at] == '-';
    let from: usize = if sign_at < n && (s[sign_at] == '+' || s[sign_at] == '-') {
        sign_at + 1
    } else {
        sign_at
    };
    let to: usize = scan_digits(s, from);
    if to == from || to != n {
        return None;
    }
    let power: u128 = capped_exponent(s, from, to);
    if falling {
        Some(-(power as i128))
    } else {
        Some(power as i128)
    }
}

/// The digits of the number, those before the point and those behind it.
fn read_digits(s: &Vec<char>, start: usize, whole_end: usize, frac_start: usize, frac_end: usize) -> (digits: Vec<u8>)
    requires
        start <= whole_end <= frac_start <= frac_end <= s@.len(),
        frac_start <= whole_end + 1,
        frac_start == whole_end + 1 ==> !is_digit(s@[whole_end as int]),
        forall|i: int| start <= i < whole_end ==> is_digit(s@[i]),
        forall|i: int| frac_start <= i < frac_end ==> is_digit(s@[i]),
    ensures
        all_digits(digits@),
        value(digits@) == mantissa(s@, start as int, frac_end as int),
        digits@.len() == (whole_end - start) + (frac_end - frac_start),
{
    let mut digits: Vec<u8> = Vec::new();
    push_digits(s, start, whole_end, &mut digits, Ghost(start as int));
    push_digits(s, frac_start, frac_end, &mut digits, Ghost(start as int));
    digits
}

/// The temperature that `s` spells as a decimal number, if it is one and
/// its value is plausible.
pub fn parse_decimal(s: &Vec<char>) -> (reading: Option<i64>)
    ensures
        reading == plausible_decimal(s@),
{
    let n: usize = s.len();
    let negative: bool = n > 0 && s[0] == '-';
    let start: usize = if n > 0 && (s[0] == '+' || s[0] == '-') {
        1
    } else {
        0
    };
    let whole_end: usize = scan_digits(s, start);
    let frac_start: usize = if whole_end < n && s[whole_end] == '.' {
        whole_end + 1
    } else {
        whole_end
    };
    let frac_end: usize = scan_digits(s, frac_start);
    if (whole_end - start) + (frac_end - frac_start) == 0 {
        return None;
    }
    let exponent: i128 = match read_exponent(s, frac_end) {
        Some(e) => e,
        None => {
            return None;
        },
    };
    let digits = read_digits(s, start, whole_end, frac_start, frac_end);
    let places: usize = frac_end - frac_start;
    let followed: i128 = exponent - places as i128 + 6;
    let m: u64 = magnitude(&digits, followed);
    proof {
        lemma_shift_capped(digits@, exponent_of(s@) - places + 6, followed as int);
    }
    if m >= MAGNITUDE_CAP {
        return None;
    }
    let v: i64 = if negative {
        -(m as i64)
    } else {
        m as i64
    };
    crate::thermal::accept_reading(v)
}

/// The reading on one line of output: the plausible temperature that it
/// spells, white space at its ends aside.
pub fn line_reading(line: &Vec<char>) -> (reading: Option<i64>)
    ensures
        reading == reading_in(line@),
        reading is Some ==> plausible(reading.unwrap() as int),
{
    let inner = trim(line);
    parse_decimal(&inner)
}

/// The reading that a line of text holds.
pub fn parse_reading(line: &str) -> (reading: Option<i64>)
    ensures
        reading == reading_in(line@),
        reading is Some ==> plausible(reading.unwrap() as int),
{
    let chars = chars_of(line);
    line_reading(&chars)
}

proof fn lemma_line_len(s: Seq<char>, n: int)
    requires
        0 <= n <= s.len(),
        forall|i: int| 0 <= i < n ==> s[i] != '\n',
        n < s.len() ==> s[n] == '\n',
    ensures
        line_len(s) == n,
    decreases n,
{
    if n > 0 {
        let rest = s.drop_first();
        assert forall|i: int| 0 <= i < n - 1 implies rest[i] != '\n' by {
            assert(rest[i] == s[i + 1]);
        }
        lemma_line_len(rest, n - 1);
    }
}

/// A reading found in a text is plausible.
pub proof fn lemma_first_reading_plausible(text: Seq<char>)
    ensures
        first_reading_in(text) is Some ==> plausible(first_reading_in(text).unwrap() as int),
    decreases text.len(),
{
    let n = line_len(text) as int;
    if reading_in(text.take(n)) is None && n < text.len() {
        lemma_first_reading_plausible(text.skip(n + 1));
    }
}

/// The first reading in the output of a query: the lines are taken in
/// order, and the first that holds a plausible temperature gives it.
pub fn first_reading(text: &str) -> (reading: Option<i64>)
    ensures
        reading == first_reading_in(text@),
        reading is Some ==> plausible(reading.unwrap() as int),
{
    let all = chars_of(text);
    let n: usize = all.len();
    let mut start: usize = 0;
    assert(all@.skip(0) =~= all@);
    loop
        invariant
            n == all@.len(),
            all@ == text@,
            start <= n,
            first_reading_in(all@) == first_reading_in(all@.skip(start as int)),
        decreases n - start,
    {
        let ghost rest = all@.skip(start as int);
        let mut line: Vec<char> = Vec::new();
        let mut end: usize = start;
        while end < n && all[end] != '\n'
            invariant
                n == all@.len(),
                start <= end <= n,
                line@ == all@.subrange(start as int, end as int),
                forall|i: int| start <= i < end ==> all@[i] != '\n',
            decreases n - end,
        {
            line.push(all[end]);
            assert(line@ =~= all@.subrange(start as int, end + 1));
            end = end + 1;
        }
        proof {
            lemma_line_len(rest, end - start);
            assert(rest.take(end - start) =~= line@);
        }
        match line_reading(&line) {
            Some(v) => {
                return Some(v);
            },
            None => {},
        }
        if end >= n {
            return None;
        }
        assert(rest.skip(end - start + 1) =~= all@.skip(end + 1));
        start = end + 1;
    }
}

} // verus!
