//! Numbers in decimal, and the floating-point values they stand for.
//!
//! A number is an optional sign, digits with a point anywhere among them, and
//! an optional exponent.  It stands for the value nearest to it, and a value is
//! written as the shortest number that stands for it, or with three places.

use crate::big::{ten_to, Big};
use crate::floats::{
    alike, alike_is_the_same, capped, coarsest, digits_are_below, half, infinity, lead_at,
    middle_at, multiple_reads, nearest, nearest_decimal, next_value, nothing_stays_nothing,
    one_is_nearest, reads_as, rounds_to, same_order, shift_at, shortest, some_value_is_nearest,
    ten_to_positive, the_end_is_far, the_shortest_reads, two_to, unit, value_at, values_grow,
    whole_at, Format, FAR,
};
use crate::text::{
    all_digits, decimal, decimal_of, decimal_reads_back, digit, digit_char, is_digit, number, owned,
    repeat, repeated, slice, string_of,
};
use vstd::arithmetic::div_mod::{
    lemma_fundamental_div_mod, lemma_fundamental_div_mod_converse, lemma_mod_bound,
};
use vstd::arithmetic::power2::{
    lemma2_to64, lemma2_to64_rest, lemma_pow2_adds, lemma_pow2_pos, lemma_pow2_strictly_increases,
    lemma_pow2_unfold, pow2,
};
use vstd::prelude::*;

verus! {

// --- the grammar -------------------------------------------------------------

/// Whether a character may be part of a number.
pub open spec fn number_char(c: char) -> bool {
    digit(c) || c == '-' || c == '+' || c == '.' || c == 'e' || c == 'E'
}

/// Where the digits that begin at `at` end.
pub open spec fn digits_end(s: Seq<char>, at: int) -> int
    decreases s.len() - at,
{
    if 0 <= at < s.len() && digit(s[at]) {
        digits_end(s, at + 1)
    } else {
        at
    }
}

/// Past an optional sign.
pub open spec fn past_sign(s: Seq<char>, at: int) -> int {
    if 0 <= at < s.len() && (s[at] == '+' || s[at] == '-') {
        at + 1
    } else {
        at
    }
}

/// Where the whole part of a number ends.
pub open spec fn whole_end(s: Seq<char>) -> int {
    digits_end(s, past_sign(s, 0))
}

/// Where the fraction of a number ends: at the end of the whole part when
/// there is none.
pub open spec fn fraction_end(s: Seq<char>) -> int {
    let whole = whole_end(s);
    if whole < s.len() && s[whole] == '.' {
        digits_end(s, whole + 1)
    } else {
        whole
    }
}

/// The digits of a number before and after its point, without the point.
pub open spec fn mantissa(s: Seq<char>) -> Seq<char> {
    let whole = whole_end(s);
    let end = fraction_end(s);
    s.subrange(past_sign(s, 0), whole) + (if end > whole {
        s.subrange(whole + 1, end)
    } else {
        Seq::empty()
    })
}

/// Whether a text is a decimal number: an optional sign, digits with a point
/// anywhere among them, and an optional exponent.
pub open spec fn is_number(s: Seq<char>) -> bool {
    let end = fraction_end(s);
    &&& mantissa(s).len() > 0
    &&& {
        ||| end == s.len()
        ||| {
            let from = past_sign(s, end + 1);
            &&& (s[end] == 'e' || s[end] == 'E')
            &&& from < s.len()
            &&& digits_end(s, from) == s.len()
        }
    }
}

/// The exponent of a number: 0 when it has none.
pub open spec fn exponent(s: Seq<char>) -> int {
    let end = fraction_end(s);
    if end >= s.len() {
        0
    } else {
        let n = number(s.subrange(past_sign(s, end + 1), s.len() as int)) as int;
        if end + 1 < s.len() && s[end + 1] == '-' {
            -n
        } else {
            n
        }
    }
}

/// How many digits follow the point of a number.
pub open spec fn fraction_len(s: Seq<char>) -> int {
    if fraction_end(s) > whole_end(s) {
        fraction_end(s) - whole_end(s) - 1
    } else {
        0
    }
}

/// Whether a number is written with a minus sign.
pub open spec fn minus(s: Seq<char>) -> bool {
    s.len() > 0 && s[0] == '-'
}

// --- reading a number --------------------------------------------------------

proof fn digits_end_is_digits(s: Seq<char>, at: int)
    requires
        0 <= at <= s.len(),
    ensures
        at <= digits_end(s, at) <= s.len(),
        forall|k: int| at <= k < digits_end(s, at) ==> digit(#[trigger] s[k]),
    decreases s.len() - at,
{
    if at < s.len() && digit(s[at]) {
        digits_end_is_digits(s, at + 1);
    }
}

/// What the characters of a number can be.
pub proof fn number_chars(t: Seq<char>)
    requires
        is_number(t),
    ensures
        t.len() > 0,
        forall|k: int| 0 <= k < t.len() ==> number_char(#[trigger] t[k]),
        t[0] != 'e',
        t[0] != 'E',
{
    let sign = past_sign(t, 0);
    digits_end_is_digits(t, sign);
    let w = whole_end(t);
    let end = fraction_end(t);
    if w < t.len() && t[w] == '.' {
        digits_end_is_digits(t, w + 1);
    }
    if end < t.len() {
        digits_end_is_digits(t, past_sign(t, end + 1));
    }
    assert forall|k: int| 0 <= k < t.len() implies number_char(#[trigger] t[k]) by {
        if k < sign {
        } else if k < w {
            assert(digit(t[k]));
        } else if k == w {
        } else if k < end {
            assert(digit(t[k]));
        } else if k == end {
        } else if k < past_sign(t, end + 1) {
        } else {
            assert(digit(t[k]));
        }
    }
    if t[0] == 'e' || t[0] == 'E' {
        assert(sign == 0 && w == 0 && end == 0);
        assert(mantissa(t) =~= Seq::<char>::empty());
    }
}

fn end_of_digits(chars: &Vec<char>, at: usize) -> (r: usize)
    requires
        at <= chars.len(),
    ensures
        r == digits_end(chars@, at as int),
        at <= r <= chars.len(),
        forall|k: int| at <= k < r ==> digit(chars@[k]),
{
    let mut i: usize = at;
    while i < chars.len() && is_digit(chars[i])
        invariant
            at <= i <= chars.len(),
            digits_end(chars@, at as int) == digits_end(chars@, i as int),
            forall|k: int| at <= k < i ==> digit(chars@[k]),
        decreases chars.len() - i,
    {
        i = i + 1;
    }
    i
}

fn after_sign(chars: &Vec<char>, at: usize) -> (r: usize)
    requires
        at <= chars.len(),
    ensures
        r == past_sign(chars@, at as int),
        at <= r <= chars.len(),
{
    if at < chars.len() && (chars[at] == '+' || chars[at] == '-') {
        at + 1
    } else {
        at
    }
}

/// Whether a text is a decimal number.
pub fn is_number_text(chars: &Vec<char>) -> (r: bool)
    ensures
        r == is_number(chars@),
{
    let sign = after_sign(chars, 0);
    let whole = end_of_digits(chars, sign);
    let end = if whole < chars.len() && chars[whole] == '.' {
        end_of_digits(chars, whole + 1)
    } else {
        whole
    };
    if whole == sign && end <= whole + 1 {
        return false;
    }
    if end == chars.len() {
        return true;
    }
    if chars[end] != 'e' && chars[end] != 'E' {
        return false;
    }
    let from = after_sign(chars, end + 1);
    from < chars.len() && end_of_digits(chars, from) == chars.len()
}

/// An exponent beyond this makes any number with it zero or too large.
pub const EXPONENT_CAP: u128 = 0x1_0000_0000_0000_0000_0000;

/// The digits' value, or `top` when it is more.
fn capped_number(digits: &Vec<char>, upto: usize, top: u128) -> (r: u128)
    requires
        upto <= digits.len(),
        all_digits(digits@),
        top <= u128::MAX - 9,
    ensures
        r == capped(number(digits@.take(upto as int)) as int, top as int),
{
    let mut n: u128 = 0;
    assert(digits@.take(0) =~= Seq::<char>::empty());
    for i in 0..upto
        invariant
            upto <= digits.len(),
            all_digits(digits@),
            top <= u128::MAX - 9,
            n <= top,
            n == capped(number(digits@.take(i as int)) as int, top as int),
    {
        proof {
            assert(digits@.take(i + 1).drop_last() =~= digits@.take(i as int));
            assert(digit(digits@[i as int]));
        }
        let d: u128 = (digits[i] as u32 - 48) as u128;
        let next: u128 = if n <= top / 10 { n * 10 + d } else { top };
        n = if next < top { next } else { top };
    }
    n
}

/// The digits of a number, and the power of ten they are multiplied by, or one
/// that makes no difference.
fn digits_and_power(chars: &Vec<char>) -> (r: (Vec<char>, i128))
    requires
        is_number(chars@),
    ensures
        r.0@ == mantissa(chars@),
        all_digits(r.0@),
        alike(r.0@.len(), exponent(chars@) - fraction_len(chars@), r.1 as int),
{
    let sign = after_sign(chars, 0);
    let whole_stop = end_of_digits(chars, sign);
    let stop = if whole_stop < chars.len() && chars[whole_stop] == '.' {
        end_of_digits(chars, whole_stop + 1)
    } else {
        whole_stop
    };
    let mut digits = slice(chars, sign, whole_stop);
    let mut fraction: usize = 0;
    if stop > whole_stop {
        let mut tail = slice(chars, whole_stop + 1, stop);
        fraction = tail.len();
        digits.append(&mut tail);
    }
    assert(digits@ =~= mantissa(chars@));
    assert(fraction == fraction_len(chars@));
    let mut power: u128 = 0;
    let mut down = false;
    if stop < chars.len() {
        let from = after_sign(chars, stop + 1);
        let places = slice(chars, from, chars.len());
        proof {
            digits_end_is_digits(chars@, from as int);
            assert forall|k: int| 0 <= k < places@.len() implies digit(#[trigger] places@[k]) by {
                assert(places@[k] == chars@[from + k]);
            }
            assert(places@.take(places.len() as int) =~= places@);
        }
        power = capped_number(&places, places.len(), EXPONENT_CAP);
        down = chars[stop + 1] == '-';
    }
    let up: i128 = if down { -(power as i128) } else { power as i128 };
    (digits, up - fraction as i128)
}

/// The index of the value that a number stands for, whatever its sign.
pub open spec fn index_of(f: Format, s: Seq<char>) -> int {
    nearest_decimal(f, number(mantissa(s)), exponent(s) - fraction_len(s))
}

/// Ten to a greater power is no less.
proof fn ten_grows(j: int, k: int)
    requires
        j <= k,
    ensures
        ten_to(j) <= ten_to(k),
    decreases k - j,
{
    ten_to_positive(k);
    if 0 < k && j < k {
        ten_grows(j, k - 1);
        ten_to_positive(k - 1);
    }
}

/// What no more than fifteen digits stand for.
fn small_number(digits: &Vec<char>) -> (r: u64)
    requires
        all_digits(digits@),
        digits.len() <= 15,
    ensures
        r == number(digits@),
        r < 0x20_0000_0000_0000,
{
    proof {
        reveal_with_fuel(ten_to, 16);
        assert(digits@.take(digits.len() as int) =~= digits@);
        digits_are_below(digits@);
        ten_grows(digits@.len() as int, 15);
    }
    capped_number(digits, digits.len(), 0x20_0000_0000_0000) as u64
}

impl Format {
    /// The index of the value that a number stands for, whatever its sign.
    fn read(self, chars: &Vec<char>) -> (r: u64)
        requires
            is_number(chars@),
        ensures
            r == index_of(self, chars@),
            r <= infinity(self),
    {
        let (digits, power) = digits_and_power(chars);
        proof {
            alike_is_the_same(
                self,
                digits@,
                exponent(chars@) - fraction_len(chars@),
                power as int,
            );
        }
        if power == 0 && digits.len() <= 15 {
            match self {
                Format::Double => {
                    let n = small_number(&digits);
                    proof {
                        assert(n * ten_to(0) == n) by (nonlinear_arith)
                            requires
                                ten_to(0) == 1,
                        ;
                    }
                    return whole_index(n);
                },
                Format::Single => {},
            }
        }
        self.nearest_scaled(&digits, power)
    }
}

// --- doubles -----------------------------------------------------------------

/// The sign of a double in its bits.
pub const DOUBLE_SIGN: u64 = 0x8000_0000_0000_0000;

/// A double-precision value, as its bits.
#[derive(Copy, Clone, Debug)]
pub struct Double {
    pub bits: u64,
}

impl Double {
    /// Whether the sign is set.
    pub open spec fn negative(self) -> bool {
        self.bits >= DOUBLE_SIGN
    }

    /// The index of the value without its sign; past infinity it is no number.
    pub open spec fn index(self) -> int {
        self.bits as int % DOUBLE_SIGN as int
    }

    /// Whether the value is a number, and not infinite.
    pub open spec fn finite(self) -> bool {
        self.index() < infinity(Format::Double)
    }

    /// Whether two values are equal: 0 is, with either sign, and what is no
    /// number never is.
    pub open spec fn equals(self, other: Double) -> bool {
        &&& self.index() <= infinity(Format::Double)
        &&& other.index() <= infinity(Format::Double)
        &&& self.bits == other.bits || (self.index() == 0 && other.index() == 0)
    }
}

impl PartialEq for Double {
    fn eq(&self, other: &Double) -> (r: bool) {
        let infinite = Format::Double.infinite();
        self.bits % DOUBLE_SIGN <= infinite && other.bits % DOUBLE_SIGN <= infinite && (self.bits
            == other.bits || (self.bits % DOUBLE_SIGN == 0 && other.bits % DOUBLE_SIGN == 0))
    }
}

impl vstd::std_specs::cmp::PartialEqSpecImpl for Double {
    open spec fn obeys_eq_spec() -> bool {
        true
    }

    open spec fn eq_spec(&self, other: &Double) -> bool {
        self.equals(*other)
    }
}

/// The double with a sign and an index.
pub open spec fn double(negative: bool, index: int) -> Double {
    Double {
        bits: (index + if negative {
            DOUBLE_SIGN as int
        } else {
            0
        }) as u64,
    }
}

/// The double that a number stands for.
pub open spec fn double_of(s: Seq<char>) -> Double {
    double(minus(s), index_of(Format::Double, s))
}

/// The double nearest to a whole number.
pub open spec fn double_nearest(n: nat) -> Double {
    double(false, nearest(Format::Double, n, 1))
}

/// The whole part of a double, no less than 0 and no more than `top`; 0 for
/// what is no number.
pub open spec fn truncated(d: Double, top: int) -> int {
    if d.negative() || d.index() > infinity(Format::Double) {
        0
    } else {
        capped(whole_at(Format::Double, d.index()), top)
    }
}

/// A row of digits times ten to the power `p`, without an exponent.
pub open spec fn placed(digits: Seq<char>, p: int) -> Seq<char> {
    if p >= 0 {
        digits + repeat('0', p)
    } else if digits.len() + p > 0 {
        digits.take(digits.len() + p) + seq!['.'] + digits.skip(digits.len() + p)
    } else {
        seq!['0', '.'] + repeat('0', -(digits.len() + p)) + digits
    }
}

/// A double without its sign, written as the shortest number that stands for
/// it.
pub open spec fn size_text(index: int) -> Seq<char> {
    if index == 0 {
        "0"@
    } else if index < infinity(Format::Double) {
        let (q, p) = shortest(Format::Double, index);
        placed(decimal(q), p)
    } else {
        "inf"@
    }
}

/// A sign in front of a text.
pub open spec fn signed(negative: bool, text: Seq<char>) -> Seq<char> {
    if negative {
        seq!['-'] + text
    } else {
        text
    }
}

/// A double as text.
pub open spec fn double_text(d: Double) -> Seq<char> {
    if d.index() > infinity(Format::Double) {
        "NaN"@
    } else {
        signed(d.negative(), size_text(d.index()))
    }
}

/// A row of digits times ten to the power `p`, without an exponent.
fn place_digits(digits: &Vec<char>, p: i64) -> (r: String)
    requires
        -2000 <= p <= 2000,
    ensures
        r@ == placed(digits@, p as int),
{
    if p >= 0 {
        let mut out = string_of(digits);
        out.push_str(repeated('0', p as usize).as_str());
        out
    } else {
        let down: usize = (-p) as usize;
        if digits.len() > down {
            let point: usize = digits.len() - down;
            let mut out = string_of(&slice(digits, 0, point));
            out.push('.');
            out.push_str(string_of(&slice(digits, point, digits.len())).as_str());
            assert(out@ =~= placed(digits@, p as int));
            out
        } else {
            let mut out = owned("0.");
            proof {
                reveal_strlit("0.");
            }
            out.push_str(repeated('0', down - digits.len()).as_str());
            out.push_str(string_of(digits).as_str());
            assert(out@ =~= placed(digits@, p as int));
            out
        }
    }
}

impl Double {
    /// The double with a sign and an index.
    fn with(negative: bool, index: u64) -> (r: Double)
        requires
            index < DOUBLE_SIGN,
        ensures
            r == double(negative, index as int),
            r.negative() == negative,
            r.index() == index,
    {
        Double { bits: if negative { index + DOUBLE_SIGN } else { index } }
    }

    /// The double that a text stands for, or `None` when it is no number.
    pub fn parse(chars: &Vec<char>) -> (r: Option<Double>)
        ensures
            r is Some <==> is_number(chars@),
            r matches Some(d) ==> d == double_of(chars@),
    {
        if is_number_text(chars) {
            let index = Format::Double.read(chars);
            Some(Double::with(chars.len() > 0 && chars[0] == '-', index))
        } else {
            None
        }
    }

    /// The double nearest to a whole number.
    pub fn nearest_to(n: u64) -> (r: Double)
        ensures
            r == double_nearest(n as nat),
    {
        let index = if n < 0x20_0000_0000_0000 {
            whole_index(n)
        } else {
            Format::Double.nearest_to(&Big::new(1).times_long(n), &Big::new(1))
        };
        Double::with(false, index)
    }

    /// The whole part, no less than 0 and no more than fits.
    pub fn as_u64(self) -> (r: u64)
        ensures
            r == truncated(self, u64::MAX as int),
    {
        let index: u64 = self.bits % DOUBLE_SIGN;
        if self.bits >= DOUBLE_SIGN || index > Format::Double.infinite() {
            0
        } else {
            Format::Double.whole(index)
        }
    }

    /// The double as text: the shortest number that stands for it.
    pub fn to_text(self) -> (r: String)
        ensures
            r@ == double_text(self),
    {
        let index: u64 = self.bits % DOUBLE_SIGN;
        if index > Format::Double.infinite() {
            return owned("NaN");
        }
        let size = if index == 0 {
            owned("0")
        } else if index < Format::Double.infinite() {
            match whole_value(index) {
                Some(n) => {
                    proof {
                        a_whole_value_is_written_plainly(index as int, n as nat);
                    }
                    decimal_of(n)
                },
                None => {
                    let (digits, power) = Format::Double.shortest_of(index);
                    proof {
                        the_shortest_reads(Format::Double, index as int);
                    }
                    place_digits(&digits, power)
                },
            }
        } else {
            owned("inf")
        };
        if self.bits >= DOUBLE_SIGN {
            let mut out = String::new();
            out.push('-');
            out.push_str(size.as_str());
            assert(out@ =~= double_text(self));
            out
        } else {
            size
        }
    }
}

// --- what is written reads back ----------------------------------------------

proof fn digits_end_stops(s: Seq<char>, at: int, end: int)
    requires
        0 <= at <= end <= s.len(),
        forall|k: int| at <= k < end ==> digit(#[trigger] s[k]),
        end == s.len() || !digit(s[end]),
    ensures
        digits_end(s, at) == end,
    decreases end - at,
{
    if at < end {
        assert(digit(s[at]));
        digits_end_stops(s, at + 1, end);
    }
}

/// A sign, digits, and perhaps a point and more digits.
pub open spec fn plain(negative: bool, whole: Seq<char>, fraction: Seq<char>) -> Seq<char> {
    signed(
        negative,
        if fraction.len() == 0 {
            whole
        } else {
            whole + seq!['.'] + fraction
        },
    )
}

/// A number without an exponent is its digits.
pub proof fn plain_is_a_number(negative: bool, whole: Seq<char>, fraction: Seq<char>)
    requires
        whole.len() > 0,
        all_digits(whole),
        all_digits(fraction),
    ensures
        is_number(plain(negative, whole, fraction)),
        minus(plain(negative, whole, fraction)) == negative,
        mantissa(plain(negative, whole, fraction)) == whole + fraction,
        exponent(plain(negative, whole, fraction)) == 0,
        fraction_len(plain(negative, whole, fraction)) == fraction.len(),
{
    let s = plain(negative, whole, fraction);
    let from: int = if negative {
        1
    } else {
        0
    };
    let stop = from + whole.len();
    assert forall|k: int| from <= k < stop implies digit(#[trigger] s[k]) && s[k] == whole[k
        - from] by {
        assert(digit(whole[k - from]));
    }
    assert(s[from] == whole[0]);
    assert(digit(s[from]));
    assert(past_sign(s, 0) == from);
    digits_end_stops(s, from, stop);
    assert(s.subrange(from, stop) =~= whole);
    if fraction.len() > 0 {
        assert(s[stop] == '.');
        assert forall|k: int| stop + 1 <= k < s.len() implies digit(#[trigger] s[k]) by {
            assert(s[k] == fraction[k - stop - 1]);
            assert(digit(fraction[k - stop - 1]));
        }
        digits_end_stops(s, stop + 1, s.len() as int);
        assert(s.subrange(stop + 1, s.len() as int) =~= fraction);
    } else {
        assert(whole + fraction =~= whole);
    }
    assert(mantissa(s) =~= whole + fraction);
}

/// Zeros behind a row of digits.
proof fn trailing_zeros(digits: Seq<char>, k: int)
    requires
        0 <= k,
    ensures
        number(digits + repeat('0', k)) == number(digits) * ten_to(k),
    decreases k,
{
    if k == 0 {
        assert(digits + repeat('0', 0) =~= digits);
        assert(number(digits) * ten_to(0) == number(digits)) by (nonlinear_arith)
            requires
                ten_to(0) == 1,
        ;
    } else {
        let longer = digits + repeat('0', k);
        assert(longer.drop_last() =~= digits + repeat('0', k - 1));
        trailing_zeros(digits, k - 1);
        let n = number(digits);
        let t = ten_to(k - 1);
        assert(n * (10 * t) == (n * t) * 10) by (nonlinear_arith);
    }
}

/// Leading zeros add nothing.
proof fn leading_zeros(zeros: Seq<char>, s: Seq<char>)
    requires
        forall|i: int| 0 <= i < zeros.len() ==> #[trigger] zeros[i] == '0',
    ensures
        number(zeros + s) == number(s),
    decreases zeros.len() + s.len(),
{
    if s.len() > 0 {
        assert((zeros + s).drop_last() =~= zeros + s.drop_last());
        leading_zeros(zeros, s.drop_last());
    } else {
        assert(zeros + s =~= zeros);
        if zeros.len() > 0 {
            let fewer = zeros.drop_last();
            assert forall|i: int| 0 <= i < fewer.len() implies #[trigger] fewer[i] == '0' by {
                assert(fewer[i] == zeros[i]);
            }
            leading_zeros(fewer, s);
            assert(fewer + s =~= fewer);
            assert(zeros.last() == '0');
        }
    }
}

/// Digits that are put in their places stand for what they did.
proof fn placed_digits_read_back(f: Format, negative: bool, digits: Seq<char>, p: int)
    requires
        digits.len() > 0,
        all_digits(digits),
    ensures
        is_number(signed(negative, placed(digits, p))),
        minus(signed(negative, placed(digits, p))) == negative,
        index_of(f, signed(negative, placed(digits, p))) == nearest_decimal(f, number(digits), p),
{
    let s = signed(negative, placed(digits, p));
    if p >= 0 {
        let whole = digits + repeat('0', p);
        assert forall|i: int| 0 <= i < whole.len() implies digit(#[trigger] whole[i]) by {
            if i < digits.len() {
                assert(digit(digits[i]));
            }
        }
        assert(s =~= plain(negative, whole, Seq::empty()));
        plain_is_a_number(negative, whole, Seq::empty());
        assert(whole + Seq::<char>::empty() =~= whole);
        trailing_zeros(digits, p);
        let n = number(digits) * ten_to(p);
        assert(n * ten_to(0) == n) by (nonlinear_arith)
            requires
                ten_to(0) == 1,
        ;
        assert(ten_to(-p) == ten_to(0));
    } else if digits.len() + p > 0 {
        let at = digits.len() + p;
        let whole = digits.take(at);
        let fraction = digits.skip(at);
        assert forall|i: int| 0 <= i < whole.len() implies digit(#[trigger] whole[i]) by {
            assert(digit(digits[i]));
        }
        assert forall|i: int| 0 <= i < fraction.len() implies digit(#[trigger] fraction[i]) by {
            assert(digit(digits[at + i]));
        }
        assert(s =~= plain(negative, whole, fraction));
        plain_is_a_number(negative, whole, fraction);
        assert(whole + fraction =~= digits);
    } else {
        let zeros = repeat('0', -(digits.len() + p));
        let whole = seq!['0'];
        let fraction = zeros + digits;
        assert forall|i: int| 0 <= i < fraction.len() implies digit(#[trigger] fraction[i]) by {
            if i >= zeros.len() {
                assert(digit(digits[i - zeros.len()]));
            }
        }
        assert(s =~= plain(negative, whole, fraction));
        plain_is_a_number(negative, whole, fraction);
        assert(whole + fraction =~= (whole + zeros) + digits);
        leading_zeros(whole + zeros, digits);
    }
}

/// A double that is written reads back, bit for bit, unless it is infinite or
/// no number.
pub proof fn a_double_reads_back(d: Double)
    requires
        d.finite(),
    ensures
        is_number(double_text(d)),
        double_of(double_text(d)) == d,
{
    let k = d.index();
    let negative = d.negative();
    if k == 0 {
        reveal_strlit("0");
        let zero = decimal(0);
        decimal_reads_back(0);
        assert("0"@ =~= zero);
        assert(placed(zero, 0) =~= zero);
        placed_digits_read_back(Format::Double, negative, zero, 0);
        nothing_stays_nothing(Format::Double, 0);
    } else {
        let (q, p) = shortest(Format::Double, k);
        the_shortest_reads(Format::Double, k);
        decimal_reads_back(q);
        placed_digits_read_back(Format::Double, negative, decimal(q), p);
        ten_to_positive(-p);
        one_is_nearest(Format::Double, q * ten_to(p), ten_to(-p), k);
    }
}

/// What is nearest to a whole number of machine size is finite.
pub proof fn a_whole_number_is_finite(n: nat)
    requires
        n <= u64::MAX,
    ensures
        double_nearest(n).finite(),
        !double_nearest(n).negative(),
{
    some_value_is_nearest(Format::Double, n, 1);
    let k = nearest(Format::Double, n, 1);
    if k == infinity(Format::Double) {
        the_end_is_far(Format::Double);
        let u = pow2(1075) as int;
        let m = middle_at(Format::Double, k - 1);
        assert(m * 1 == m);
        let far = pow2(100) as int;
        assert(n * u < far * u) by (nonlinear_arith)
            requires
                n < far,
                u > 0,
        ;
    }
}

// --- whole numbers -----------------------------------------------------------

/// The value with `up` zero bits behind a whole number.
proof fn bits_of_a_whole_number(n: nat, up: nat) -> (k: int)
    requires
        up <= 52,
        half(Format::Double) <= n * pow2(up) < 2 * half(Format::Double),
    ensures
        k == (1075 - up) * half(Format::Double) + (n * pow2(up) - half(Format::Double)),
        0 < k < infinity(Format::Double),
        value_at(Format::Double, k) == n * pow2(1075),
{
    let f = Format::Double;
    let h = half(f);
    let b = pow2(up) as int;
    let lead = n * b;
    let shift = (1074 - up) as nat;
    let k = (1075 - up) * h + (lead - h);
    lemma_fundamental_div_mod_converse(k, h, 1075 - up, lead - h);
    lemma_pow2_adds(up, shift + 1);
    lemma_pow2_unfold(shift + 1);
    let p = pow2(shift) as int;
    let u = pow2(1075) as int;
    assert(2 * lead * p == n * u) by (nonlinear_arith)
        requires
            lead == n * b,
            b * (2 * p) == u,
    ;
    assert(h <= (1075 - up) * h <= 1075 * h) by (nonlinear_arith)
        requires
            1 <= 1075 - up <= 1075,
            h > 0,
    ;
    k
}

/// A value that is a whole number is the one nearest to it.
proof fn a_whole_value_is_nearest(k: int, n: nat)
    requires
        0 < k < infinity(Format::Double),
        value_at(Format::Double, k) == n * pow2(1075),
    ensures
        rounds_to(Format::Double, n, 1, k),
        nearest(Format::Double, n, 1) == k,
{
    let f = Format::Double;
    next_value(f, k);
    next_value(f, k - 1);
    assert(middle_at(f, k) * 1 == middle_at(f, k));
    assert(middle_at(f, k - 1) * 1 == middle_at(f, k - 1));
    one_is_nearest(f, n, 1, k);
}

/// The index of a whole number of no more than fifty-three bits.
fn whole_index(n: u64) -> (r: u64)
    requires
        n < 0x20_0000_0000_0000,
    ensures
        r == nearest(Format::Double, n as nat, 1),
        r < infinity(Format::Double),
        n == 0 ==> r == 0,
        n > 0 ==> r > 0 && value_at(Format::Double, r as int) == n * pow2(1075),
{
    if n == 0 {
        proof {
            nothing_stays_nothing(Format::Double, 0);
            assert(0 * ten_to(0) == 0) by (nonlinear_arith);
        }
        return 0;
    }
    let mut lead: u64 = n;
    let mut up: u64 = 0;
    proof {
        lemma2_to64();
        assert(n * 1 == n);
    }
    while lead < 0x10_0000_0000_0000
        invariant
            0 < lead < 0x20_0000_0000_0000,
            up <= 52,
            lead == n * pow2(up as nat),
            n > 0,
        decreases 0x20_0000_0000_0000 - lead,
    {
        proof {
            lemma_pow2_unfold((up + 1) as nat);
            let p = pow2(up as nat) as int;
            assert(n * (2 * p) == 2 * (n * p)) by (nonlinear_arith);
            if up == 52 {
                lemma2_to64();
                lemma2_to64_rest();
                assert(n * p >= p) by (nonlinear_arith)
                    requires
                        n >= 1,
                        p >= 0,
                ;
            }
        }
        lead = lead * 2;
        up = up + 1;
    }
    let ghost k = bits_of_a_whole_number(n as nat, up as nat);
    proof {
        a_whole_value_is_nearest(k, n as nat);
        assert((1075 - up) * 0x10_0000_0000_0000 <= 1075 * 0x10_0000_0000_0000);
    }
    (1075 - up) * 0x10_0000_0000_0000 + (lead - 0x10_0000_0000_0000)
}

/// The greatest power of which a multiple reads is no less than any other.
proof fn coarsest_is_no_less(f: Format, k: int, p: int, from: int)
    requires
        -unit(f) <= p <= from,
        multiple_reads(f, k, p),
    ensures
        coarsest(f, k, from) >= p,
    decreases from - p,
{
    if p < from && !multiple_reads(f, k, from) {
        coarsest_is_no_less(f, k, p, from - 1);
    }
}

/// Zeros behind a number make it as many times ten times as large.
proof fn zeros_behind(n: nat, p: int)
    requires
        n > 0,
        p >= 0,
    ensures
        decimal(n) + repeat('0', p) == decimal(n * ten_to(p)),
    decreases p,
{
    if p == 0 {
        assert(n * ten_to(0) == n) by (nonlinear_arith)
            requires
                ten_to(0) == 1,
        ;
        assert(decimal(n) + repeat('0', 0) =~= decimal(n));
    } else {
        zeros_behind(n, p - 1);
        let m = n * ten_to(p - 1);
        let t = ten_to(p - 1);
        ten_to_positive(p - 1);
        assert(n * (10 * t) == 10 * (n * t)) by (nonlinear_arith);
        assert(m >= 1) by (nonlinear_arith)
            requires
                m == n * t,
                n >= 1,
                t >= 1,
        ;
        assert((10 * m) / 10 == m && (10 * m) % 10 == 0);
        assert(decimal(n) + repeat('0', p) =~= (decimal(n) + repeat('0', p - 1)).push('0'));
    }
}

/// A value that is a whole number of no more than fifty-three bits is written
/// with its digits.
proof fn a_whole_value_is_written_plainly(k: int, n: nat)
    requires
        0 < k < infinity(Format::Double),
        value_at(Format::Double, k) == n * pow2(1075),
        0 < n < 0x20_0000_0000_0000,
    ensures
        size_text(k) == decimal(n),
{
    let f = Format::Double;
    let u = pow2(1075) as int;
    lemma_pow2_pos(1075);
    a_whole_value_is_nearest(k, n);
    let (q, p) = shortest(f, k);
    assert(n * ten_to(0) == n) by (nonlinear_arith)
        requires
            ten_to(0) == 1,
    ;
    assert(reads_as(f, k, n, 0));
    coarsest_is_no_less(f, k, 0, FAR as int);
    the_shortest_reads(f, k);
    let x = q * ten_to(p);
    assert(ten_to(-p) == 1);
    assert(rounds_to(f, x, 1, k));
    next_value(f, k);
    next_value(f, k - 1);
    let s = shift_at(f, k);
    the_step_is_small(k, n);
    if shift_at(f, k - 1) < s {
        lemma_pow2_strictly_increases(shift_at(f, k - 1), s);
    }
    assert(shift_at(f, k - 1) <= s) by {
        let h = half(f);
        if k >= h && k - 1 >= h {
            assert((k - 1) / h <= k / h);
        }
    }
    assert(middle_at(f, k) * 1 == middle_at(f, k));
    assert(middle_at(f, k - 1) * 1 == middle_at(f, k - 1));
    assert(x == n) by (nonlinear_arith)
        requires
            x * u < n * u + u,
            x * u > n * u - u,
            u > 0,
    ;
    zeros_behind(q, p);
}

/// From one value of no more than fifty-three bits to the next is no more than
/// 1.
proof fn the_step_is_small(k: int, n: nat)
    requires
        0 < k < infinity(Format::Double),
        value_at(Format::Double, k) == n * pow2(1075),
        0 < n < 0x20_0000_0000_0000,
    ensures
        pow2(shift_at(Format::Double, k)) < pow2(1075),
{
    let f = Format::Double;
    let s = shift_at(f, k);
    let lead = lead_at(f, k);
    let u = pow2(1075) as int;
    let p = pow2(s) as int;
    lemma_pow2_pos(1075);
    lemma_pow2_pos(s);
    if s >= 1075 {
        if s > 1075 {
            lemma_pow2_strictly_increases(1075, s);
        }
        assert(lead >= 0x10_0000_0000_0000);
        assert(2 * lead * p >= 0x20_0000_0000_0000 * u) by (nonlinear_arith)
            requires
                lead >= 0x10_0000_0000_0000,
                p >= u,
                u > 0,
        ;
        assert(n * u < 0x20_0000_0000_0000 * u) by (nonlinear_arith)
            requires
                n < 0x20_0000_0000_0000,
                u > 0,
        ;
    } else {
        lemma_pow2_strictly_increases(s, 1075);
    }
}

/// The whole number that a value without its sign is, when it is one of no more
/// than fifty-three bits.
fn whole_value(index: u64) -> (r: Option<u64>)
    requires
        0 < index < infinity(Format::Double),
    ensures
        r matches Some(n) ==> 0 < n < 0x20_0000_0000_0000 && value_at(
            Format::Double,
            index as int,
        ) == n * pow2(1075),
{
    let (lead, shift) = Format::Double.parts(index);
    if shift < 1022 || shift >= 1075 {
        return None;
    }
    let down: u32 = 1074 - shift;
    let divisor = two_to(down);
    proof {
        lemma_pow2_pos(down as nat);
    }
    let n: u128 = lead as u128 / divisor;
    if lead as u128 % divisor != 0 || n == 0 {
        return None;
    }
    proof {
        let d = divisor as int;
        let p = pow2(shift as nat) as int;
        lemma_fundamental_div_mod(lead as int, d);
        lemma_pow2_unfold((shift + 1) as nat);
        lemma_pow2_adds(down as nat, (shift + 1) as nat);
        let u = pow2(1075) as int;
        let l = lead as int;
        assert(2 * l * p == n * u) by (nonlinear_arith)
            requires
                l == d * n,
                d * (2 * p) == u,
        ;
        assert(n <= l) by (nonlinear_arith)
            requires
                l == d * n,
                d >= 1,
                n >= 0,
        ;
    }
    Some(n as u64)
}

/// A whole number of no more than fifty-three bits is written with its digits,
/// and its whole part is what it was.
pub proof fn a_whole_number_is_written_plainly(n: nat)
    requires
        n < 0x20_0000_0000_0000,
    ensures
        double_text(double_nearest(n)) == decimal(n),
        truncated(double_nearest(n), u64::MAX as int) == n,
{
    let f = Format::Double;
    let u = pow2(1075) as int;
    lemma_pow2_pos(1075);
    lemma2_to64();
    if n == 0 {
        nothing_stays_nothing(f, 0);
        assert(0 * ten_to(0) == 0) by (nonlinear_arith);
        reveal_strlit("0");
        assert("0"@ =~= decimal(0));
        assert(2 * 0 * pow2(0) == 0);
        assert(value_at(f, 0) == 0);
        lemma_fundamental_div_mod_converse(0, u, 0, 0);
    } else {
        assert(n * pow2(0) == n) by (nonlinear_arith)
            requires
                pow2(0) == 1,
        ;
        let up = room_above(n, 0);
        let k = bits_of_a_whole_number(n, up);
        a_whole_value_is_nearest(k, n);
        a_whole_value_is_written_plainly(k, n);
        lemma_fundamental_div_mod_converse(n * u, u, n as int, 0);
    }
}

/// How many zero bits behind a whole number fill a double.
proof fn room_above(n: nat, from: nat) -> (up: nat)
    requires
        n > 0,
        from <= 52,
        n * pow2(from) < 2 * half(Format::Double),
    ensures
        up <= 52,
        half(Format::Double) <= n * pow2(up) < 2 * half(Format::Double),
    decreases 52 - from,
{
    let p = pow2(from) as int;
    if n * p >= half(Format::Double) {
        from
    } else {
        lemma_pow2_unfold(from + 1);
        assert(n * (2 * p) == 2 * (n * p)) by (nonlinear_arith);
        if from == 52 {
            lemma2_to64();
            lemma2_to64_rest();
            assert(n * p >= p) by (nonlinear_arith)
                requires
                    n >= 1,
                    p >= 0,
            ;
        }
        room_above(n, from + 1)
    }
}

// --- three places ------------------------------------------------------------

/// The sign of a single in its bits.
pub const SINGLE_SIGN: u32 = 0x8000_0000;

/// A single-precision value, as its bits.
#[derive(Copy, Clone, Debug)]
pub struct Single {
    pub bits: u32,
}

impl Single {
    /// Whether the sign is set.
    pub open spec fn negative(self) -> bool {
        self.bits >= SINGLE_SIGN
    }

    /// The index of the value without its sign; past infinity it is no number.
    pub open spec fn index(self) -> int {
        self.bits as int % SINGLE_SIGN as int
    }

    /// Whether the value is a number, and not infinite.
    pub open spec fn finite(self) -> bool {
        self.index() < infinity(Format::Single)
    }

    /// Whether two values are equal: 0 is, with either sign, and what is no
    /// number never is.
    pub open spec fn equals(self, other: Single) -> bool {
        &&& self.index() <= infinity(Format::Single)
        &&& other.index() <= infinity(Format::Single)
        &&& self.bits == other.bits || (self.index() == 0 && other.index() == 0)
    }
}

impl PartialEq for Single {
    fn eq(&self, other: &Single) -> (r: bool) {
        let infinite = Format::Single.infinite() as u32;
        self.bits % SINGLE_SIGN <= infinite && other.bits % SINGLE_SIGN <= infinite && (self.bits
            == other.bits || (self.bits % SINGLE_SIGN == 0 && other.bits % SINGLE_SIGN == 0))
    }
}

impl vstd::std_specs::cmp::PartialEqSpecImpl for Single {
    open spec fn obeys_eq_spec() -> bool {
        true
    }

    open spec fn eq_spec(&self, other: &Single) -> bool {
        self.equals(*other)
    }
}

/// The single with a sign and an index.
pub open spec fn single(negative: bool, index: int) -> Single {
    Single {
        bits: (index + if negative {
            SINGLE_SIGN as int
        } else {
            0
        }) as u32,
    }
}

/// The single that a number stands for.
pub open spec fn single_of(s: Seq<char>) -> Single {
    single(minus(s), index_of(Format::Single, s))
}

/// `n` divided by `d`, to the nearest whole number; halfway, to the even one.
pub open spec fn half_even(n: int, d: int) -> int {
    if 2 * (n % d) > d || (2 * (n % d) == d && (n / d) % 2 == 1) {
        n / d + 1
    } else {
        n / d
    }
}

/// The value at an index in thousandths, to the nearest one.
pub open spec fn thousandths(index: int) -> nat {
    half_even(value_at(Format::Single, index) * 1000, pow2(unit(Format::Single)) as int) as nat
}

/// Three digits.
pub open spec fn three_digits(n: nat) -> Seq<char> {
    seq![digit_char(n / 100 % 10), digit_char(n / 10 % 10), digit_char(n % 10)]
}

/// A single written with three places.
pub open spec fn single_text(s: Single) -> Seq<char> {
    if s.index() > infinity(Format::Single) {
        "NaN"@
    } else {
        signed(
            s.negative(),
            if s.finite() {
                let n = thousandths(s.index());
                decimal(n / 1000) + seq!['.'] + three_digits(n % 1000)
            } else {
                "inf"@
            },
        )
    }
}

/// A number written in decimal, whatever its size.
fn decimal_of_wide(n: u128) -> (r: String)
    ensures
        r@ == decimal(n as nat),
    decreases n,
{
    let d: u8 = (n % 10) as u8;
    let c: char = (48 + d) as char;
    if n < 10 {
        let mut out = String::new();
        out.push(c);
        assert(out@ =~= decimal(n as nat));
        out
    } else {
        let mut out = decimal_of_wide(n / 10);
        out.push(c);
        assert(out@ =~= decimal(n as nat));
        out
    }
}

/// A common factor does not change what a division gives.
proof fn half_even_keeps(n: int, d: int, c: int)
    requires
        n >= 0,
        d > 0,
        c > 0,
    ensures
        half_even(n * c, d * c) == half_even(n, d),
{
    lemma_fundamental_div_mod(n, d);
    lemma_mod_bound(n, d);
    let q = n / d;
    let r = n % d;
    assert(n * c == (d * c) * q + r * c) by (nonlinear_arith)
        requires
            n == d * q + r,
    ;
    assert(0 <= r * c < d * c) by (nonlinear_arith)
        requires
            0 <= r < d,
            c > 0,
    ;
    assert((d * c) * q == q * (d * c)) by (nonlinear_arith);
    lemma_fundamental_div_mod_converse(n * c, d * c, q, r * c);
    same_order(2 * r, d, c);
    same_order(d, 2 * r, c);
    assert((2 * r) * c == 2 * (r * c)) by (nonlinear_arith);
}

/// A value that is a whole number, in thousandths.
proof fn whole_thousandths(index: int)
    requires
        index >= 0,
        shift_at(Format::Single, index) >= 149,
    ensures
        thousandths(index) == 1000 * (lead_at(Format::Single, index) * pow2(
            (shift_at(Format::Single, index) - 149) as nat,
        )),
{
    let m = lead_at(Format::Single, index);
    let s = shift_at(Format::Single, index);
    let j = (s - 149) as nat;
    let u = pow2(150) as int;
    lemma_pow2_pos(150);
    lemma_pow2_pos(j);
    lemma_pow2_unfold(s + 1);
    lemma_pow2_adds(150, j);
    let b = pow2(j) as int;
    let w = m * b;
    assert(2 * m * pow2(s) * 1000 == (1000 * w) * u) by (nonlinear_arith)
        requires
            2 * pow2(s) == u * b,
            w == m * b,
    ;
    assert(m * b >= 0) by (nonlinear_arith)
        requires
            m >= 0,
            b >= 0,
    ;
    assert(u * (1000 * w) + 0 == (1000 * w) * u) by (nonlinear_arith);
    lemma_fundamental_div_mod_converse((1000 * w) * u, u, 1000 * w, 0);
}

/// A value with a fraction, in thousandths.
proof fn broken_thousandths(index: int)
    requires
        index >= 0,
        shift_at(Format::Single, index) < 149,
    ensures
        thousandths(index) == half_even(
            lead_at(Format::Single, index) * 1000,
            pow2((149 - shift_at(Format::Single, index)) as nat) as int,
        ),
        half_even(
            lead_at(Format::Single, index) * 1000,
            pow2((149 - shift_at(Format::Single, index)) as nat) as int,
        ) <= lead_at(Format::Single, index) * 1000,
{
    let m = lead_at(Format::Single, index);
    let s = shift_at(Format::Single, index);
    let j = (149 - s) as nat;
    lemma_pow2_pos(s + 1);
    lemma_pow2_pos(j);
    lemma_pow2_unfold(s + 1);
    lemma_pow2_adds(j, s + 1);
    lemma_pow2_unfold(j);
    let c = pow2(s + 1) as int;
    let d = pow2(j) as int;
    assert(2 * m * pow2(s) * 1000 == (m * 1000) * c) by (nonlinear_arith)
        requires
            c == 2 * pow2(s),
    ;
    assert(j + (s + 1) == 150);
    half_even_keeps(m * 1000, d, c);
    half_is_less(m * 1000, d);
}

/// Halved at least once, a number is no more than it was.
proof fn half_is_less(n: int, d: int)
    requires
        n >= 0,
        d >= 2,
    ensures
        0 <= half_even(n, d) <= n,
{
    lemma_fundamental_div_mod(n, d);
    lemma_mod_bound(n, d);
    let q = n / d;
    assert(q >= 0) by (nonlinear_arith)
        requires
            n >= 0,
            d >= 2,
            q == n / d,
    ;
    assert(d * q >= 2 * q) by (nonlinear_arith)
        requires
            d >= 2,
            q >= 0,
    ;
}

impl Single {
    /// The single with a sign and an index.
    fn with(negative: bool, index: u32) -> (r: Single)
        requires
            index < SINGLE_SIGN,
        ensures
            r == single(negative, index as int),
            r.negative() == negative,
            r.index() == index,
    {
        Single { bits: if negative { index + SINGLE_SIGN } else { index } }
    }

    /// The single that a text stands for, or `None` when it is no number or not
    /// finite.
    pub fn parse_finite(chars: &Vec<char>) -> (r: Option<Single>)
        ensures
            r is Some <==> is_number(chars@) && single_of(chars@).finite(),
            r matches Some(s) ==> s == single_of(chars@),
    {
        if !is_number_text(chars) {
            return None;
        }
        let index = Format::Single.read(chars);
        let s = Single::with(chars[0] == '-', index as u32);
        if index < Format::Single.infinite() {
            Some(s)
        } else {
            None
        }
    }

    /// The whole part of the value at an index in thousandths, and the
    /// thousandths that are left.
    fn in_thousandths(index: u32) -> (r: (u128, u32))
        requires
            index < infinity(Format::Single),
        ensures
            r.0 == thousandths(index as int) / 1000,
            r.1 == thousandths(index as int) % 1000,
    {
        let (lead, shift) = Format::Single.parts(index as u64);
        if shift >= 149 {
            let up: u32 = shift - 149;
            proof {
                whole_thousandths(index as int);
                lemma_pow2_adds(64, 40);
                lemma2_to64();
                lemma2_to64_rest();
            }
            let factor = two_to(if up > 64 { 64 } else { up });
            let rest = two_to(if up > 64 { up - 64 } else { 0 });
            proof {
                let a: nat = if up > 64 { 64 } else { up as nat };
                let b: nat = if up > 64 { (up - 64) as nat } else { 0 };
                lemma_pow2_adds(a, b);
                if b < 40 {
                    lemma_pow2_strictly_increases(b, 40);
                }
                if a < 64 {
                    lemma_pow2_strictly_increases(a, 64);
                }
                let l = lead as int;
                let f = factor as int;
                let g = rest as int;
                assert(l * f <= 0xFF_FFFF * 0x1_0000_0000_0000_0000) by (nonlinear_arith)
                    requires
                        0 <= l <= 0xFF_FFFF,
                        0 <= f <= 0x1_0000_0000_0000_0000,
                ;
                assert((l * f) * g <= (0xFF_FFFF * 0x1_0000_0000_0000_0000) * 0x100_0000_0000)
                    by (nonlinear_arith)
                    requires
                        0 <= l * f <= 0xFF_FFFF * 0x1_0000_0000_0000_0000,
                        0 <= g <= 0x100_0000_0000,
                ;
                assert((l * f) * g == l * (f * g)) by (nonlinear_arith);
                assert(l * f >= 0) by (nonlinear_arith)
                    requires
                        l >= 0,
                        f >= 0,
                ;
            }
            (lead as u128 * factor * rest, 0)
        } else {
            let down: u32 = 149 - shift;
            let scaled: u64 = lead * 1000;
            proof {
                broken_thousandths(index as int);
                lemma2_to64();
                lemma2_to64_rest();
                lemma_pow2_pos(down as nat);
            }
            if down >= 64 {
                proof {
                    if down > 64 {
                        lemma_pow2_strictly_increases(64, down as nat);
                    }
                    lemma_fundamental_div_mod_converse(
                        scaled as int,
                        pow2(down as nat) as int,
                        0,
                        scaled as int,
                    );
                }
                return (0, 0);
            }
            let divisor = two_to(down);
            let q: u128 = scaled as u128 / divisor;
            let r: u128 = scaled as u128 % divisor;
            proof {
                lemma_pow2_strictly_increases(down as nat, 64);
            }
            let up = 2 * r > divisor || (2 * r == divisor && q % 2 == 1);
            let n: u128 = if up { q + 1 } else { q };
            (n / 1000, (n % 1000) as u32)
        }
    }

    /// The single written with three places.
    pub fn to_text(self) -> (r: String)
        ensures
            r@ == single_text(self),
    {
        let index: u32 = self.bits % SINGLE_SIGN;
        if index as u64 > Format::Single.infinite() {
            return owned("NaN");
        }
        let size = if (index as u64) < Format::Single.infinite() {
            let (whole, places) = Single::in_thousandths(index);
            let mut out = decimal_of_wide(whole);
            out.push('.');
            let a: u8 = (places / 100 % 10) as u8;
            let b: u8 = (places / 10 % 10) as u8;
            let c: u8 = (places % 10) as u8;
            out.push((48 + a) as char);
            out.push((48 + b) as char);
            out.push((48 + c) as char);
            proof {
                let n = thousandths(index as int);
                assert(out@ =~= decimal(n / 1000) + seq!['.'] + three_digits(n % 1000));
            }
            out
        } else {
            owned("inf")
        };
        if self.bits >= SINGLE_SIGN {
            let mut out = String::new();
            out.push('-');
            out.push_str(size.as_str());
            assert(out@ =~= single_text(self));
            out
        } else {
            size
        }
    }
}

/// A number of thousandths as its digits.
proof fn thousandths_are_digits(n: nat)
    ensures
        all_digits(three_digits(n % 1000)),
        number(decimal(n / 1000) + three_digits(n % 1000)) == n,
{
    let w = n / 1000;
    let r = n % 1000;
    let head = decimal(w);
    decimal_reads_back(w);
    let a = digit_char(r / 100 % 10);
    let b = digit_char(r / 10 % 10);
    let c = digit_char(r % 10);
    let s1 = head.push(a);
    let s2 = s1.push(b);
    let s3 = s2.push(c);
    assert(s3 =~= head + three_digits(r));
    assert(s1.drop_last() =~= head);
    assert(s2.drop_last() =~= s1);
    assert(s3.drop_last() =~= s2);
    assert(number(s1) == 10 * w + r / 100 % 10);
    assert(number(s2) == 10 * number(s1) + r / 10 % 10);
    assert(number(s3) == 10 * number(s2) + r % 10);
    assert(r == 100 * (r / 100 % 10) + 10 * (r / 10 % 10) + r % 10);
}

/// What a single that was written with three places is read as.
pub open spec fn kept(s: Single) -> Single {
    single_of(single_text(s))
}

/// A single that is written with three places is a number.
pub proof fn a_single_is_a_number(s: Single)
    requires
        s.finite(),
    ensures
        is_number(single_text(s)),
        kept(s) == single(
            s.negative(),
            nearest(Format::Single, thousandths(s.index()), 1000),
        ),
{
    let n = thousandths(s.index());
    thousandths_are_digits(n);
    decimal_reads_back(n / 1000);
    let text = single_text(s);
    assert(text =~= plain(s.negative(), decimal(n / 1000), three_digits(n % 1000)));
    plain_is_a_number(s.negative(), decimal(n / 1000), three_digits(n % 1000));
    reveal_with_fuel(ten_to, 4);
    assert(ten_to(3) == 1000);
    assert(n * ten_to(-3) == n) by (nonlinear_arith)
        requires
            ten_to(-3) == 1,
    ;
}

/// A finite single that is written with three places reads back finite, with
/// its sign.
pub proof fn a_single_stays_finite(s: Single)
    requires
        s.finite(),
    ensures
        is_number(single_text(s)),
        kept(s).finite(),
        kept(s).negative() == s.negative(),
{
    let f = Format::Single;
    let k = s.index();
    let n = thousandths(k);
    a_single_is_a_number(s);
    some_value_is_nearest(f, n, 1000);
    let near = nearest(f, n, 1000);
    if near == infinity(f) {
        let end = middle_at(f, near - 1);
        the_end_is_far(f);
        let u = pow2(150) as int;
        if shift_at(f, k) >= 149 {
            whole_thousandths(k);
            let v = value_at(f, k);
            let w = lead_at(f, k) * pow2((shift_at(f, k) - 149) as nat);
            lemma_pow2_unfold(shift_at(f, k) + 1);
            lemma_pow2_adds(150, (shift_at(f, k) - 149) as nat);
            let m = lead_at(f, k);
            let b = pow2((shift_at(f, k) - 149) as nat) as int;
            let p = pow2(shift_at(f, k)) as int;
            assert((1000 * (m * b)) * u == 1000 * (2 * m * p)) by (nonlinear_arith)
                requires
                    2 * p == u * b,
            ;
            values_grow(f, k, near - 1);
            next_value(f, near - 1);
            assert(n * u < end * 1000);
        } else {
            broken_thousandths(k);
            let far = pow2(100) as int;
            assert(n * u < (far * u) * 1000) by (nonlinear_arith)
                requires
                    n <= 0x100_0000 * 1000,
                    far > 0x100_0000,
                    u > 0,
            ;
        }
        assert(false);
    }
}

/// Whether a value is a whole number of thousandths.
pub open spec fn thousandths_only(s: Single) -> bool {
    value_at(Format::Single, s.index()) * 1000 % pow2(unit(Format::Single)) as int == 0
}

/// A finite single with no more than three places reads back, bit for bit.
pub proof fn three_places_are_kept(s: Single)
    requires
        s.finite(),
        thousandths_only(s),
    ensures
        kept(s) == s,
{
    let f = Format::Single;
    let k = s.index();
    let u = pow2(150) as int;
    let v = value_at(f, k);
    lemma_pow2_pos(150);
    lemma_fundamental_div_mod(v * 1000, u);
    next_value(f, k);
    lemma_pow2_pos(shift_at(f, k));
    assert(v >= 0) by (nonlinear_arith)
        requires
            v == 2 * lead_at(f, k) * pow2(shift_at(f, k)),
            lead_at(f, k) >= 0,
    ;
    let n = thousandths(k);
    assert((v * 1000) / u >= 0) by (nonlinear_arith)
        requires
            v >= 0,
            u > 0,
    ;
    assert(n * u == v * 1000) by (nonlinear_arith)
        requires
            v * 1000 == u * n,
    ;
    if k > 0 {
        next_value(f, k - 1);
    }
    a_single_is_a_number(s);
    one_is_nearest(f, n, 1000, k);
}

/// A division is off by at most a half, and halfway it gives the even number.
pub proof fn a_division_is_off_by_at_most_a_half(n: int, d: int)
    requires
        d > 0,
    ensures
        -d <= 2 * (half_even(n, d) * d - n) <= d,
        2 * (half_even(n, d) * d - n) == d || 2 * (half_even(n, d) * d - n) == -d ==> half_even(
            n,
            d,
        ) % 2 == 0,
{
    lemma_fundamental_div_mod(n, d);
    lemma_mod_bound(n, d);
    let q = n / d;
    assert((q + 1) * d == q * d + d) by (nonlinear_arith);
    assert(d * q == q * d) by (nonlinear_arith);
}

/// Truncating drops the fraction and nothing more: the number lies between the
/// result and the next one. What is negative or no number gives nothing.
pub proof fn truncating_drops_the_fraction(d: Double, top: int)
    requires
        0 <= top,
    ensures
        d.negative() ==> truncated(d, top) == 0,
        d.index() > infinity(Format::Double) ==> truncated(d, top) == 0,
        !d.negative() && d.index() <= infinity(Format::Double) && truncated(d, top) < top ==> {
            let w = truncated(d, top);
            let u = pow2(1075) as int;
            w * u <= value_at(Format::Double, d.index()) < (w + 1) * u
        },
        !d.negative() && d.index() <= infinity(Format::Double) ==> truncated(d, top) <= top,
{
    let u = pow2(1075) as int;
    lemma_pow2_pos(1075);
    let v = value_at(Format::Double, d.index());
    lemma_fundamental_div_mod(v, u);
    lemma_mod_bound(v, u);
    let q = v / u;
    assert((q + 1) * u == q * u + u) by (nonlinear_arith);
    assert(u * q == q * u) by (nonlinear_arith);
}

} // verus!
