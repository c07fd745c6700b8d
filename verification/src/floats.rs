//! Binary floating point, in whole numbers.
//!
//! The values of a format that are not negative form a row: 0, the smallest
//! value above it, and so on up to the largest, with infinity behind it.  A
//! value is known by its index in that row, which is also how it is stored: the
//! bits of a float without its sign.  Counted in units of half the smallest
//! value, every value and every point halfway between two is a whole number,
//! and so everything here is exact.

use crate::big::{ten_to, Big, Side};
use crate::text::{all_digits, decimal, decimal_reads_back, digit, digit_char, number};
use vstd::arithmetic::div_mod::{
    lemma_fundamental_div_mod, lemma_fundamental_div_mod_converse, lemma_mod_bound,
};
use vstd::arithmetic::power2::{
    lemma2_to64, lemma2_to64_rest, lemma_pow2_adds, lemma_pow2_pos, lemma_pow2_strictly_increases,
    lemma_pow2_unfold, pow2,
};
use vstd::prelude::*;

verus! {

/// A format.
#[derive(Copy, Clone, Debug, PartialEq, Eq, Structural)]
pub enum Format {
    Double,
    Single,
}

/// How many values lie from one power of two to the next.
pub open spec fn half(f: Format) -> int {
    match f {
        Format::Double => 0x10_0000_0000_0000,
        Format::Single => 0x80_0000,
    }
}

/// How many halvings of 1 the unit is.
pub open spec fn unit(f: Format) -> nat {
    match f {
        Format::Double => 1075,
        Format::Single => 150,
    }
}

/// The index of infinity.
pub open spec fn infinity(f: Format) -> int {
    match f {
        Format::Double => 0x7FF0_0000_0000_0000,
        Format::Single => 0x7F80_0000,
    }
}

/// How often the smallest step is doubled at an index.
pub open spec fn shift_at(f: Format, k: int) -> nat {
    if k < half(f) {
        0
    } else {
        (k / half(f) - 1) as nat
    }
}

/// The leading bits of the value at an index.
pub open spec fn lead_at(f: Format, k: int) -> int {
    if k < half(f) {
        k
    } else {
        half(f) + k % half(f)
    }
}

/// The value at an index, in units.
pub open spec fn value_at(f: Format, k: int) -> int {
    2 * lead_at(f, k) * pow2(shift_at(f, k))
}

/// The point halfway between the value at an index and the next, in units.
pub open spec fn middle_at(f: Format, k: int) -> int {
    (2 * lead_at(f, k) + 1) * pow2(shift_at(f, k))
}

/// Whether `n / d` lies past the point halfway between the value at an index
/// and the next. What lies at that point belongs to the value whose last bit is
/// 0.
pub open spec fn past(f: Format, n: nat, d: nat, k: int) -> bool {
    let x = n * pow2(unit(f));
    let y = middle_at(f, k) * d;
    x > y || (x == y && k % 2 == 1)
}

/// Whether the value at an index is the one nearest to `n / d`.
pub open spec fn rounds_to(f: Format, n: nat, d: nat, k: int) -> bool {
    &&& 0 <= k <= infinity(f)
    &&& k > 0 ==> past(f, n, d, k - 1)
    &&& k < infinity(f) ==> !past(f, n, d, k)
}

/// The index of the value nearest to `n / d`.
pub open spec fn nearest(f: Format, n: nat, d: nat) -> int {
    choose|k: int| rounds_to(f, n, d, k)
}

// --- the row of values -------------------------------------------------------

/// From one value to the next is twice the step at its index.
pub proof fn next_value(f: Format, k: int)
    requires
        k >= 0,
    ensures
        value_at(f, k + 1) == value_at(f, k) + 2 * pow2(shift_at(f, k)),
        middle_at(f, k) == value_at(f, k) + pow2(shift_at(f, k)),
        pow2(shift_at(f, k)) > 0,
{
    let h = half(f);
    let s = shift_at(f, k);
    let m = lead_at(f, k);
    let p = pow2(s) as int;
    lemma_pow2_pos(s);
    assert((2 * m + 1) * p == 2 * m * p + p) by (nonlinear_arith);
    if k + 1 < h {
        assert(2 * (m + 1) * p == 2 * m * p + 2 * p) by (nonlinear_arith);
    } else if k < h {
        assert(k + 1 == h);
        assert((k + 1) / h == 1 && (k + 1) % h == 0);
        assert(2 * (m + 1) * p == 2 * m * p + 2 * p) by (nonlinear_arith);
    } else if k % h == h - 1 {
        assert((k + 1) / h == k / h + 1 && (k + 1) % h == 0);
        lemma_pow2_unfold(s + 1);
        assert(2 * h * (2 * p) == 2 * m * p + 2 * p) by (nonlinear_arith)
            requires
                m == 2 * h - 1,
        ;
    } else {
        assert((k + 1) / h == k / h && (k + 1) % h == k % h + 1);
        assert(2 * (m + 1) * p == 2 * m * p + 2 * p) by (nonlinear_arith);
    }
}

/// Later values are greater.
pub proof fn values_grow(f: Format, j: int, k: int)
    requires
        0 <= j <= k,
    ensures
        value_at(f, j) <= value_at(f, k),
    decreases k - j,
{
    if j < k {
        next_value(f, k - 1);
        values_grow(f, j, k - 1);
    }
}

/// What lies past a later halfway point lies past an earlier one.
pub proof fn past_the_earlier(f: Format, n: nat, d: nat, j: int, k: int)
    requires
        d > 0,
        0 <= j <= k,
        past(f, n, d, k),
    ensures
        past(f, n, d, j),
    decreases k - j,
{
    if j < k {
        next_value(f, k - 1);
        next_value(f, k);
        let a = middle_at(f, k - 1);
        let b = middle_at(f, k);
        assert(a * d < b * d) by (nonlinear_arith)
            requires
                a < b,
                d > 0,
        ;
        past_the_earlier(f, n, d, j, k - 1);
    }
}

/// Only one value is the nearest.
pub proof fn one_is_nearest(f: Format, n: nat, d: nat, k: int)
    requires
        d > 0,
        rounds_to(f, n, d, k),
    ensures
        nearest(f, n, d) == k,
{
    let other = nearest(f, n, d);
    assert(rounds_to(f, n, d, other));
    if other < k {
        past_the_earlier(f, n, d, other, k - 1);
    } else if k < other {
        past_the_earlier(f, n, d, k, other - 1);
    }
}

/// Every number has a value that is nearest to it.
pub proof fn some_value_is_nearest(f: Format, n: nat, d: nat)
    requires
        d > 0,
    ensures
        rounds_to(f, n, d, nearest(f, n, d)),
{
    let k = first_not_past(f, n, d, 0);
    one_is_nearest(f, n, d, k);
}

/// The first index from `k` on that a number does not lie past.
proof fn first_not_past(f: Format, n: nat, d: nat, k: int) -> (r: int)
    requires
        0 <= k <= infinity(f),
        k > 0 ==> past(f, n, d, k - 1),
    ensures
        rounds_to(f, n, d, r),
    decreases infinity(f) - k,
{
    if k == infinity(f) || !past(f, n, d, k) {
        k
    } else {
        first_not_past(f, n, d, k + 1)
    }
}

/// The last halfway point lies far out.
pub proof fn the_end_is_far(f: Format)
    ensures
        middle_at(f, infinity(f) - 1) > pow2(100) * pow2(unit(f)),
        pow2(unit(f)) > 0,
        pow2(100) > 0x1_0000_0000_0000_0000,
{
    let k = infinity(f) - 1;
    let s = shift_at(f, k);
    let m = lead_at(f, k);
    lemma2_to64();
    lemma2_to64_rest();
    lemma_pow2_pos(s);
    lemma_pow2_pos(unit(f));
    lemma_pow2_strictly_increases(64, 100);
    assert(pow2(64) == 0x1_0000_0000_0000_0000);
    assert(s == match f { Format::Double => 2045nat, Format::Single => 253nat });
    lemma_pow2_adds(100, unit(f));
    assert(m >= 1);
    let p = pow2(s) as int;
    assert((2 * m + 1) * p >= p) by (nonlinear_arith)
        requires
            m >= 1,
            p > 0,
    ;
    lemma_pow2_strictly_increases(100 + unit(f), s);
}

// --- finding the nearest -----------------------------------------------------

impl Format {
    /// The leading bits of the value at an index, and how often its step is
    /// doubled.
    pub fn parts(self, k: u64) -> (r: (u64, u32))
        requires
            k <= infinity(self),
        ensures
            r.0 == lead_at(self, k as int),
            r.1 == shift_at(self, k as int),
            r.0 < 2 * half(self),
            r.1 < 2048,
    {
        let half: u64 = match self {
            Format::Double => 0x10_0000_0000_0000,
            Format::Single => 0x80_0000,
        };
        if k < half {
            (k, 0)
        } else {
            (half + k % half, (k / half - 1) as u32)
        }
    }

    /// The index of infinity.
    pub fn infinite(self) -> (r: u64)
        ensures
            r == infinity(self),
    {
        match self {
            Format::Double => 0x7FF0_0000_0000_0000,
            Format::Single => 0x7F80_0000,
        }
    }

    /// How many halvings of 1 the unit is.
    pub fn halvings(self) -> (r: u32)
        ensures
            r == unit(self),
    {
        match self {
            Format::Double => 1075,
            Format::Single => 150,
        }
    }

    /// Whether a number in units lies past the point halfway between the value
    /// at an index and the next, all times `d`.
    fn is_past(self, units: &Big, d: &Big, k: u64, Ghost(n): Ghost<nat>) -> (r: bool)
        requires
            k <= infinity(self),
            units@ == n * pow2(unit(self)),
        ensures
            r == past(self, n, d@, k as int),
    {
        let (lead, shift) = self.parts(k);
        let middle = d.times_long(2 * lead + 1).doubled(shift);
        proof {
            let a = (2 * lead + 1) as int;
            let p = pow2(shift as nat) as int;
            assert(d@ * a * p == a * p * d@) by (nonlinear_arith);
        }
        match units.side(&middle) {
            Side::Less => false,
            Side::Same => k % 2 == 1,
            Side::More => true,
        }
    }

    /// The index of the value nearest to `n / d`.
    pub fn nearest_to(self, n: &Big, d: &Big) -> (r: u64)
        requires
            d@ > 0,
        ensures
            r == nearest(self, n@, d@),
            rounds_to(self, n@, d@, r as int),
    {
        let units = n.doubled(self.halvings());
        let mut low: u64 = 0;
        let mut high: u64 = self.infinite();
        while low < high
            invariant
                units@ == n@ * pow2(unit(self)),
                low <= high <= infinity(self),
                low > 0 ==> past(self, n@, d@, low - 1),
                high < infinity(self) ==> !past(self, n@, d@, high as int),
            decreases high - low,
        {
            let middle: u64 = low + (high - low) / 2;
            if self.is_past(&units, d, middle, Ghost(n@)) {
                low = middle + 1;
            } else {
                high = middle;
            }
        }
        proof {
            one_is_nearest(self, n@, d@, low as int);
        }
        low
    }
}

// --- decimal numbers ---------------------------------------------------------

/// The index of the value nearest to `n` times ten to the power `p`.
pub open spec fn nearest_decimal(f: Format, n: nat, p: int) -> int {
    nearest(f, n * ten_to(p), ten_to(-p))
}

/// Ten is more than three doublings.
proof fn ten_is_more(k: nat)
    ensures
        ten_to(k as int) >= pow2(3 * k),
    decreases k,
{
    lemma2_to64();
    if k > 0 {
        ten_is_more((k - 1) as nat);
        lemma_pow2_adds(3 * (k - 1) as nat, 3);
        assert((3 * (k - 1) + 3) as nat == 3 * k);
        let a = pow2((3 * (k - 1)) as nat);
        let b = ten_to(k - 1);
        assert(a * 8 <= 10 * b) by (nonlinear_arith)
            requires
                a <= b,
        ;
    }
}

pub proof fn ten_to_positive(k: int)
    ensures
        ten_to(k) >= 1,
    decreases k,
{
    if k > 0 {
        ten_to_positive(k - 1);
    }
}

/// The powers of ten beyond which every number is infinite, and below whose
/// inverse every number is nothing.
pub const FAR: usize = 400;

/// A number of ten to the power 400 or more is infinite.
proof fn far_is_infinite(f: Format, n: nat, p: int)
    requires
        n > 0,
        p >= FAR,
    ensures
        nearest_decimal(f, n, p) == infinity(f),
{
    let k = infinity(f) - 1;
    ten_is_more(p as nat);
    if 3 * p > 1200 {
        lemma_pow2_strictly_increases(1200, (3 * p) as nat);
    }
    let t = ten_to(p);
    let u = pow2(unit(f));
    lemma_pow2_pos(unit(f));
    assert(n * t * u >= pow2(1200) * u) by (nonlinear_arith)
        requires
            n >= 1,
            t >= pow2(1200),
            u > 0,
    ;
    far_beats_middle(f, k);
    assert(ten_to(-p) == 1);
    assert(middle_at(f, k) * 1 == middle_at(f, k));
    assert(past(f, n * t, 1, k));
    one_is_nearest(f, n * t, 1, infinity(f));
}

proof fn far_beats_middle(f: Format, k: int)
    requires
        0 <= k < infinity(f),
    ensures
        middle_at(f, k) < pow2(1200) * pow2(unit(f)),
{
    let s = shift_at(f, k);
    let m = lead_at(f, k);
    lemma2_to64();
    lemma2_to64_rest();
    lemma_pow2_pos(s);
    let p = pow2(s) as int;
    assert(pow2(54) == 0x40_0000_0000_0000);
    assert(2 * m + 1 < 0x40_0000_0000_0000);
    assert((2 * m + 1) * p <= 0x40_0000_0000_0000 * p) by (nonlinear_arith)
        requires
            2 * m + 1 < 0x40_0000_0000_0000,
            p > 0,
    ;
    lemma_pow2_adds(54, s);
    assert(s < 2046 && (f is Single ==> s < 254));
    lemma_pow2_adds(1200, unit(f));
    lemma_pow2_strictly_increases(54 + s, 1200 + unit(f));
}

/// A number below the inverse of ten to the power 400 is nothing.
proof fn near_is_nothing(f: Format, n: nat, len: nat, p: int)
    requires
        n < ten_to(len as int),
        len + FAR <= -p,
    ensures
        nearest_decimal(f, n, p) == 0,
{
    let d = ten_to(-p);
    let u = pow2(unit(f));
    ten_adds(len as int, -p - len);
    ten_is_more((-p - len) as nat);
    lemma_pow2_pos(unit(f));
    lemma_pow2_strictly_increases(unit(f), (3 * (-p - len)) as nat);
    let a = ten_to(len as int);
    let b = ten_to(-p - len);
    assert(n * u < a * b) by (nonlinear_arith)
        requires
            n < a,
            u < b,
            u > 0,
    ;
    assert(ten_to(p) == 1);
    assert(n * ten_to(p) == n) by (nonlinear_arith)
        requires
            ten_to(p) == 1,
    ;
    lemma2_to64();
    assert((2 * 0 + 1) * pow2(0) == 1);
    assert(middle_at(f, 0) == 1);
    assert(middle_at(f, 0) * d == d) by (nonlinear_arith)
        requires
            middle_at(f, 0) == 1,
    ;
    one_is_nearest(f, n, d, 0);
}

/// Nothing is nothing, however often it is multiplied.
pub proof fn nothing_stays_nothing(f: Format, p: int)
    ensures
        nearest_decimal(f, 0, p) == 0,
{
    let d = ten_to(-p);
    ten_to_positive(-p);
    lemma2_to64();
    assert((2 * 0 + 1) * pow2(0) == 1);
    assert(middle_at(f, 0) == 1);
    assert(middle_at(f, 0) * d == d) by (nonlinear_arith)
        requires
            middle_at(f, 0) == 1,
    ;
    assert(0 * ten_to(p) == 0) by (nonlinear_arith);
    assert(0 * pow2(unit(f)) == 0) by (nonlinear_arith);
    one_is_nearest(f, 0, d, 0);
}

/// Whether two powers of ten are the same, or both so far out that it makes no
/// difference to a number of `len` digits.
pub open spec fn alike(len: nat, p: int, q: int) -> bool {
    p == q || (p >= FAR && q >= FAR) || (len + FAR <= -p && len + FAR <= -q)
}

/// Powers of ten that are alike give the same value.
pub proof fn alike_is_the_same(f: Format, digits: Seq<char>, p: int, q: int)
    requires
        all_digits(digits),
        alike(digits.len(), p, q),
    ensures
        nearest_decimal(f, number(digits), p) == nearest_decimal(f, number(digits), q),
{
    let n = number(digits);
    if p != q {
        digits_are_below(digits);
        if p >= FAR && q >= FAR {
            if n == 0 {
                nothing_stays_nothing(f, p);
                nothing_stays_nothing(f, q);
            } else {
                far_is_infinite(f, n, p);
                far_is_infinite(f, n, q);
            }
        } else {
            near_is_nothing(f, n, digits.len(), p);
            near_is_nothing(f, n, digits.len(), q);
        }
    }
}

/// A row of digits stands for less than ten to the power of its length.
pub proof fn digits_are_below(s: Seq<char>)
    requires
        all_digits(s),
    ensures
        number(s) < ten_to(s.len() as int),
    decreases s.len(),
{
    if s.len() > 0 {
        assert(digit(s.last()));
        assert(all_digits(s.drop_last())) by {
            assert forall|i: int| 0 <= i < s.drop_last().len() implies digit(
                #[trigger] s.drop_last()[i],
            ) by {
                assert(s.drop_last()[i] == s[i]);
            }
        }
        digits_are_below(s.drop_last());
    }
}

/// The number that a row of digits stands for.
fn big_number(digits: &Vec<char>) -> (r: Big)
    requires
        all_digits(digits@),
    ensures
        r@ == number(digits@),
{
    let mut out = Big::new(0);
    assert(digits@.take(0) =~= Seq::<char>::empty());
    for i in 0..digits.len()
        invariant
            all_digits(digits@),
            out@ == number(digits@.take(i as int)),
    {
        assert(digit(digits@[i as int]));
        assert(digits@.take(i + 1).drop_last() =~= digits@.take(i as int));
        let d: u32 = digits[i] as u32 - 48;
        out = out.times(10, d);
    }
    assert(digits@.take(digits.len() as int) =~= digits@);
    out
}

impl Format {
    /// The index of the value nearest to a row of digits times ten to the power
    /// `p`.
    pub fn nearest_scaled(self, digits: &Vec<char>, p: i128) -> (r: u64)
        requires
            all_digits(digits@),
        ensures
            r == nearest_decimal(self, number(digits@), p as int),
            r <= infinity(self),
    {
        let ghost n = number(digits@);
        let number_of = big_number(digits);
        if p >= FAR as i128 {
            if number_of.side(&Big::new(0)) == Side::Same {
                proof {
                    nothing_stays_nothing(self, p as int);
                }
                return 0;
            }
            proof {
                far_is_infinite(self, n, p as int);
            }
            return self.infinite();
        }
        if p < 0 && p <= -(digits.len() as i128) - FAR as i128 {
            proof {
                digits_are_below(digits@);
                near_is_nothing(self, n, digits@.len(), p as int);
            }
            return 0;
        }
        proof {
            ten_to_positive(-(p as int));
        }
        if p >= 0 {
            assert(ten_to(-(p as int)) == 1);
            self.nearest_to(&number_of.tenfold(p as u128), &Big::new(1))
        } else {
            let places: u128 = (-p) as u128;
            let d = Big::new(1).tenfold(places);
            proof {
                let t = ten_to(places as int);
                assert(1 * t == t) by (nonlinear_arith);
                assert(n * ten_to(p as int) == n) by (nonlinear_arith)
                    requires
                        ten_to(p as int) == 1,
                ;
            }
            self.nearest_to(&number_of, &d)
        }
    }
}

/// Powers of ten multiply by adding.
pub proof fn ten_adds(a: int, b: int)
    requires
        a >= 0,
        b >= 0,
    ensures
        ten_to(a + b) == ten_to(a) * ten_to(b),
    decreases a,
{
    if a == 0 {
        assert(ten_to(b) == 1 * ten_to(b));
    } else {
        ten_adds(a - 1, b);
        let x = ten_to(a - 1);
        let y = ten_to(b);
        assert(10 * (x * y) == (10 * x) * y) by (nonlinear_arith);
    }
}

// --- whole numbers -----------------------------------------------------------

/// The whole part of the value at an index.
pub open spec fn whole_at(f: Format, k: int) -> int {
    value_at(f, k) / pow2(unit(f)) as int
}

/// `n`, or `top` when it is more.
pub open spec fn capped(n: int, top: int) -> int {
    if n < top {
        n
    } else {
        top
    }
}

/// Two to the power `k`.
pub fn two_to(k: u32) -> (r: u128)
    requires
        k <= 64,
    ensures
        r == pow2(k as nat),
{
    let mut r: u128 = 1;
    proof {
        lemma2_to64();
    }
    for i in 0..k
        invariant
            k <= 64,
            r == pow2(i as nat),
    {
        proof {
            lemma_pow2_unfold((i + 1) as nat);
            lemma2_to64();
            lemma2_to64_rest();
            if i < 63 {
                lemma_pow2_strictly_increases(i as nat, 63);
            }
        }
        r = r * 2;
    }
    r
}

/// The whole part of a value in its parts.
proof fn whole_in_parts(f: Format, k: int)
    requires
        k >= 0,
    ensures
        shift_at(f, k) + 1 >= unit(f) ==> whole_at(f, k) == lead_at(f, k) * pow2(
            (shift_at(f, k) + 1 - unit(f)) as nat,
        ),
        shift_at(f, k) + 1 <= unit(f) ==> whole_at(f, k) == lead_at(f, k) / pow2(
            (unit(f) - shift_at(f, k) - 1) as nat,
        ) as int,
{
    let m = lead_at(f, k);
    let s = shift_at(f, k);
    let u = unit(f);
    lemma_pow2_unfold(s + 1);
    let q = pow2(s + 1) as int;
    assert(2 * m * pow2(s) == m * q) by (nonlinear_arith)
        requires
            q == 2 * pow2(s),
    ;
    lemma_pow2_pos(u);
    lemma_pow2_pos(s + 1);
    if s + 1 >= u {
        let j = (s + 1 - u) as nat;
        lemma_pow2_adds(u, j);
        let a = pow2(u) as int;
        let b = pow2(j) as int;
        assert(m * q == (m * b) * a + 0) by (nonlinear_arith)
            requires
                q == a * b,
        ;
        lemma_fundamental_div_mod_converse(m * q, a, m * b, 0);
    }
    if s + 1 <= u {
        let j = (u - s - 1) as nat;
        lemma_pow2_adds(s + 1, j);
        lemma_pow2_pos(j);
        let b = pow2(j) as int;
        lemma_fundamental_div_mod(m, b);
        assert(m * q == (m / b) * (q * b) + (m % b) * q) by (nonlinear_arith)
            requires
                m == b * (m / b) + m % b,
        ;
        assert(0 <= (m % b) * q < q * b) by (nonlinear_arith)
            requires
                0 <= m % b < b,
                q > 0,
        ;
        lemma_fundamental_div_mod_converse(m * q, q * b, m / b, (m % b) * q);
    }
}

impl Format {
    /// The whole part of the value at an index, or `u64::MAX` when it is more.
    pub fn whole(self, k: u64) -> (r: u64)
        requires
            k <= infinity(self),
        ensures
            r == capped(whole_at(self, k as int), u64::MAX as int),
    {
        let (lead, shift) = self.parts(k);
        let halvings = self.halvings();
        proof {
            whole_in_parts(self, k as int);
            lemma2_to64();
            lemma2_to64_rest();
        }
        if shift + 1 >= halvings {
            let up: u32 = shift + 1 - halvings;
            proof {
                lemma_pow2_pos(up as nat);
            }
            if up >= 64 {
                proof {
                    assert(lead >= 1);
                    if up > 64 {
                        lemma_pow2_strictly_increases(64, up as nat);
                    }
                    let b = pow2(up as nat) as int;
                    assert(lead * b >= b) by (nonlinear_arith)
                        requires
                            lead >= 1,
                            b > 0,
                    ;
                }
                return u64::MAX;
            }
            let factor = two_to(up);
            proof {
                lemma_pow2_strictly_increases(up as nat, 64);
                assert(lead * factor <= 0x40_0000_0000_0000 * 0x1_0000_0000_0000_0000)
                    by (nonlinear_arith)
                    requires
                        lead <= 0x40_0000_0000_0000,
                        factor <= 0x1_0000_0000_0000_0000,
                ;
            }
            let value: u128 = lead as u128 * factor;
            if value < 0xFFFF_FFFF_FFFF_FFFF {
                value as u64
            } else {
                u64::MAX
            }
        } else {
            let down: u32 = halvings - shift - 1;
            if down >= 64 {
                proof {
                    if down > 64 {
                        lemma_pow2_strictly_increases(64, down as nat);
                    }
                    lemma_fundamental_div_mod_converse(
                        lead as int,
                        pow2(down as nat) as int,
                        0,
                        lead as int,
                    );
                }
                return 0;
            }
            let divisor = two_to(down);
            proof {
                lemma_pow2_pos(down as nat);
                assert(lead as int / divisor as int <= lead) by (nonlinear_arith)
                    requires
                        divisor >= 1,
                        lead >= 0,
                ;
            }
            (lead as u128 / divisor) as u64
        }
    }
}

// --- the shortest decimal ----------------------------------------------------

/// Whether `q` times ten to the power `p` reads as the value at an index.
pub open spec fn reads_as(f: Format, k: int, q: nat, p: int) -> bool {
    rounds_to(f, q * ten_to(p), ten_to(-p), k)
}

/// Whether a multiple of ten to the power `p` reads as the value at an index.
pub open spec fn multiple_reads(f: Format, k: int, p: int) -> bool {
    exists|q: nat| reads_as(f, k, q, p)
}

/// The greatest power of ten, from `p` down, of which a multiple reads as the
/// value at an index.
pub open spec fn coarsest(f: Format, k: int, p: int) -> int
    decreases p + unit(f),
{
    if p <= -unit(f) || multiple_reads(f, k, p) {
        p
    } else {
        coarsest(f, k, p - 1)
    }
}

/// The value at an index and ten to the power `p`, both as often as makes them
/// whole numbers.
pub open spec fn scaled(f: Format, k: int, p: int) -> int {
    value_at(f, k) * ten_to(-p)
}

pub open spec fn grain(f: Format, p: int) -> int {
    (pow2(unit(f)) * ten_to(p)) as int
}

/// The multiple of ten to the power `p` that reads as the value at an index and
/// is closest to it; of two that are as close, the greater one.
pub open spec fn closest(f: Format, k: int, p: int) -> nat {
    let q = scaled(f, k, p) / grain(f, p);
    let r = scaled(f, k, p) % grain(f, p);
    let low = reads_as(f, k, q as nat, p);
    let high = reads_as(f, k, (q + 1) as nat, p);
    if low && (!high || 2 * r < grain(f, p)) {
        q as nat
    } else {
        (q + 1) as nat
    }
}

/// The shortest decimal that reads as the value at an index: a number, and the
/// power of ten it is multiplied by.
pub open spec fn shortest(f: Format, k: int) -> (nat, int) {
    let p = coarsest(f, k, FAR as int);
    (closest(f, k, p), p)
}

/// The steps from a value to the halfway points on either side.
proof fn steps(f: Format, k: int)
    requires
        0 < k,
    ensures
        middle_at(f, k - 1) == value_at(f, k) - pow2(shift_at(f, k - 1)),
        middle_at(f, k) == value_at(f, k) + pow2(shift_at(f, k)),
        pow2(shift_at(f, k - 1)) > 0,
        pow2(shift_at(f, k)) > 0,
        value_at(f, k) > 0,
{
    next_value(f, k - 1);
    next_value(f, k);
    assert(value_at(f, k - 1) >= 0) by (nonlinear_arith)
        requires
            value_at(f, k - 1) == 2 * lead_at(f, k - 1) * pow2(shift_at(f, k - 1)),
            lead_at(f, k - 1) >= 0,
    ;
}

proof fn scale_is_positive(f: Format, p: int)
    ensures
        grain(f, p) > 0,
        ten_to(-p) >= 1,
{
    ten_to_positive(p);
    ten_to_positive(-p);
    lemma_pow2_pos(unit(f));
    let a = pow2(unit(f)) as int;
    let b = ten_to(p) as int;
    assert(a * b > 0) by (nonlinear_arith)
        requires
            a > 0,
            b >= 1,
    ;
}

/// When the multiple below a value reads as it, and when the one above does.
proof fn neighbours_read(f: Format, k: int, p: int)
    requires
        0 < k < infinity(f),
    ensures
        ({
            let a = scaled(f, k, p);
            let b = grain(f, p);
            let t = ten_to(-p);
            let down = pow2(shift_at(f, k - 1)) * t;
            let up = pow2(shift_at(f, k)) * t;
            &&& a / b >= 0
            &&& reads_as(f, k, (a / b) as nat, p) <==> (a % b < down || (a % b == down && k % 2
                == 0))
            &&& reads_as(f, k, (a / b + 1) as nat, p) <==> (b - a % b < up || (b - a % b == up && k
                % 2 == 0))
        }),
{
    steps(f, k);
    scale_is_positive(f, p);
    let a = scaled(f, k, p);
    let b = grain(f, p);
    let t = ten_to(-p) as int;
    let v = value_at(f, k);
    let gl = pow2(shift_at(f, k - 1)) as int;
    let gh = pow2(shift_at(f, k)) as int;
    assert(a >= 0) by (nonlinear_arith)
        requires
            a == v * t,
            v > 0,
            t >= 1,
    ;
    lemma_fundamental_div_mod(a, b);
    let q = a / b;
    let r = a % b;
    assert(q >= 0) by (nonlinear_arith)
        requires
            a >= 0,
            b > 0,
            q == a / b,
    ;
    let u = pow2(unit(f)) as int;
    let w = ten_to(p) as int;
    assert((q * w) * u == q * b) by (nonlinear_arith)
        requires
            b == u * w,
    ;
    assert(((q + 1) * w) * u == q * b + b) by (nonlinear_arith)
        requires
            b == u * w,
    ;
    assert(q * b == a - r) by (nonlinear_arith)
        requires
            a == b * q + r,
    ;
    assert((v - gl) * t == a - gl * t) by (nonlinear_arith)
        requires
            a == v * t,
    ;
    assert((v + gh) * t == a + gh * t) by (nonlinear_arith)
        requires
            a == v * t,
    ;
    assert(gl * t > 0) by (nonlinear_arith)
        requires
            gl > 0,
            t >= 1,
    ;
    assert(gh * t > 0) by (nonlinear_arith)
        requires
            gh > 0,
            t >= 1,
    ;
}

/// If any multiple reads as a value, then one of the two beside it does.
proof fn a_neighbour_reads(f: Format, k: int, p: int)
    requires
        0 < k < infinity(f),
        multiple_reads(f, k, p),
    ensures
        ({
            let q = scaled(f, k, p) / grain(f, p);
            reads_as(f, k, q as nat, p) || reads_as(f, k, (q + 1) as nat, p)
        }),
{
    let any = choose|q: nat| reads_as(f, k, q, p);
    neighbours_read(f, k, p);
    steps(f, k);
    scale_is_positive(f, p);
    let a = scaled(f, k, p);
    let b = grain(f, p);
    let t = ten_to(-p) as int;
    let v = value_at(f, k);
    let gl = pow2(shift_at(f, k - 1)) as int;
    let gh = pow2(shift_at(f, k)) as int;
    let u = pow2(unit(f)) as int;
    let w = ten_to(p) as int;
    lemma_fundamental_div_mod(a, b);
    let q = a / b;
    assert((any * w) * u == any * b) by (nonlinear_arith)
        requires
            b == u * w,
    ;
    assert((v - gl) * t == a - gl * t) by (nonlinear_arith)
        requires
            a == v * t,
    ;
    assert((v + gh) * t == a + gh * t) by (nonlinear_arith)
        requires
            a == v * t,
    ;
    if any <= q {
        assert(any * b <= q * b) by (nonlinear_arith)
            requires
                any <= q,
                b > 0,
        ;
        assert(q * b == a - a % b) by (nonlinear_arith)
            requires
                a == b * q + a % b,
        ;
    } else {
        assert(any * b >= q * b + b) by (nonlinear_arith)
            requires
                any >= q + 1,
                b > 0,
        ;
        assert(q * b == a - a % b) by (nonlinear_arith)
            requires
                a == b * q + a % b,
        ;
    }
}

/// Ten to a power holds as many factors of two.
proof fn tens_are_even(k: nat)
    ensures
        ten_to(k as int) % pow2(k) == 0,
    decreases k,
{
    lemma_pow2_pos(k);
    if k > 0 {
        tens_are_even((k - 1) as nat);
        lemma_pow2_pos((k - 1) as nat);
        lemma_pow2_unfold(k);
        let t = ten_to(k - 1) as int;
        let p = pow2((k - 1) as nat) as int;
        lemma_fundamental_div_mod(t, p);
        assert(10 * t == (5 * (t / p)) * (2 * p) + 0) by (nonlinear_arith)
            requires
                t == p * (t / p),
        ;
        lemma_fundamental_div_mod_converse(10 * t, 2 * p, 5 * (t / p), 0);
    } else {
        lemma2_to64();
    }
}

/// Written with enough places, every value is exact.
proof fn enough_places_are_exact(f: Format, k: int)
    requires
        0 < k < infinity(f),
    ensures
        reads_as(
            f,
            k,
            (scaled(f, k, -(unit(f) as int)) / grain(f, -(unit(f) as int))) as nat,
            -(unit(f) as int),
        ),
        multiple_reads(f, k, -(unit(f) as int)),
{
    let p = -(unit(f) as int);
    neighbours_read(f, k, p);
    steps(f, k);
    scale_is_positive(f, p);
    tens_are_even(unit(f));
    let t = ten_to(-p) as int;
    let u = pow2(unit(f)) as int;
    lemma_pow2_pos(unit(f));
    lemma_fundamental_div_mod(t, u);
    let v = value_at(f, k);
    let a = scaled(f, k, p);
    assert(grain(f, p) == u) by (nonlinear_arith)
        requires
            grain(f, p) == u * 1,
    ;
    assert(a == (v * (t / u)) * u + 0) by (nonlinear_arith)
        requires
            a == v * t,
            t == u * (t / u),
    ;
    lemma_fundamental_div_mod_converse(a, u, v * (t / u), 0);
    let gl = pow2(shift_at(f, k - 1)) as int;
    assert(gl * t > 0) by (nonlinear_arith)
        requires
            gl > 0,
            t >= 1,
    ;
}

/// What is found from any power on reads as the value.
proof fn the_coarsest_reads(f: Format, k: int, p: int)
    requires
        0 < k < infinity(f),
        p >= -unit(f),
    ensures
        multiple_reads(f, k, coarsest(f, k, p)),
        -unit(f) <= coarsest(f, k, p) <= p,
    decreases p + unit(f),
{
    if p == -unit(f) {
        enough_places_are_exact(f, k);
    } else if !multiple_reads(f, k, p) {
        the_coarsest_reads(f, k, p - 1);
    }
}

/// The shortest decimal of a value reads as that value.
pub proof fn the_shortest_reads(f: Format, k: int)
    requires
        0 < k < infinity(f),
    ensures
        reads_as(f, k, shortest(f, k).0, shortest(f, k).1),
        shortest(f, k).0 > 0,
        -unit(f) <= shortest(f, k).1 <= FAR,
{
    let p = coarsest(f, k, FAR as int);
    the_coarsest_reads(f, k, FAR as int);
    a_neighbour_reads(f, k, p);
    neighbours_read(f, k, p);
    let q = closest(f, k, p);
    if q == 0 {
        // Nothing lies past no halfway point.
        steps(f, k);
        assert(0 * ten_to(p) == 0) by (nonlinear_arith);
        assert(0 * pow2(unit(f)) == 0) by (nonlinear_arith);
        ten_to_positive(-p);
        next_value(f, k - 1);
        let mid = middle_at(f, k - 1);
        let t = ten_to(-p);
        assert(value_at(f, k - 1) >= 0) by (nonlinear_arith)
            requires
                value_at(f, k - 1) == 2 * lead_at(f, k - 1) * pow2(shift_at(f, k - 1)),
                lead_at(f, k - 1) >= 0,
        ;
        assert(mid * t > 0) by (nonlinear_arith)
            requires
                mid > 0,
                t >= 1,
        ;
        assert(false);
    }
}

/// A number in decimal, or nothing for 0.
pub open spec fn row(n: nat) -> Seq<char> {
    if n == 0 {
        Seq::empty()
    } else {
        decimal(n)
    }
}

/// One more digit behind a number.
proof fn row_grows(n: nat, d: nat)
    requires
        d < 10,
        n > 0 || d > 0,
    ensures
        row(10 * n + d) == row(n).push(digit_char(d)),
{
    let m = 10 * n + d;
    if n == 0 {
        assert(row(n).push(digit_char(d)) =~= seq![digit_char(d)]);
    } else {
        assert(m / 10 == n && m % 10 == d);
    }
}

/// The number after the one that a row of digits stands for.
fn successor(mut digits: Vec<char>, Ghost(n): Ghost<nat>) -> (r: Vec<char>)
    requires
        digits@ == row(n),
    ensures
        r@ == row(n + 1),
    decreases digits.len(),
{
    if digits.len() == 0 {
        proof {
            if n > 0 {
                decimal_reads_back(n);
            }
            row_grows(0, 1);
        }
        digits.push('1');
        assert(digits@ =~= row(1));
        return digits;
    }
    let ghost before = digits@;
    let last = digits[digits.len() - 1];
    let ghost high = n / 10;
    let ghost low = n % 10;
    proof {
        assert(n == 10 * high + low);
        row_grows(high, low);
        assert(before.drop_last() =~= row(high));
        assert(last == digit_char(low));
    }
    digits.pop();
    assert(digits@ =~= row(high));
    if last == '9' {
        proof {
            assert(low == 9);
            row_grows(high + 1, 0);
            assert(n + 1 == 10 * (high + 1));
        }
        let mut up = successor(digits, Ghost(high));
        up.push('0');
        assert(up@ =~= row(n + 1));
        up
    } else {
        proof {
            assert(low < 9);
            row_grows(high, low + 1);
        }
        let d: u8 = (last as u32 - 48 + 1) as u8;
        let c: char = (48 + d) as char;
        digits.push(c);
        assert(digits@ =~= row(n + 1));
        digits
    }
}

/// What both sides of a comparison are multiplied with while the digits of a
/// value are found.
spec fn factor(p: int) -> int {
    if p >= 0 {
        ten_to(FAR - p) as int
    } else {
        ten_to(FAR as int) as int
    }
}

/// From one power of ten to the next smaller one: what is left at the first
/// becomes what the next digit is taken from.
proof fn one_digit_further(f: Format, k: int, p: int, d: int)
    requires
        0 < k < infinity(f),
        p <= FAR,
        d >= 0,
        ({
            let rest = 10 * (scaled(f, k, p) % grain(f, p)) * factor(p);
            let unit_now = grain(f, p - 1) * factor(p - 1);
            d * unit_now <= rest < (d + 1) * unit_now
        }),
    ensures
        scaled(f, k, p - 1) / grain(f, p - 1) == 10 * (scaled(f, k, p) / grain(f, p)) + d,
        (scaled(f, k, p - 1) % grain(f, p - 1)) * factor(p - 1) == 10 * (scaled(f, k, p) % grain(
            f,
            p,
        )) * factor(p) - d * (grain(f, p - 1) * factor(p - 1)),
        grain(f, p - 1) * factor(p - 1) == grain(f, p) * factor(p),
        ten_to(-(p - 1)) * factor(p - 1) == 10 * (ten_to(-p) * factor(p)),
{
    scale_is_positive(f, p);
    scale_is_positive(f, p - 1);
    ten_to_positive(FAR - p);
    ten_to_positive(FAR - p + 1);
    ten_to_positive(FAR as int);
    let a = scaled(f, k, p);
    let b = grain(f, p);
    let c = factor(p);
    let a2 = scaled(f, k, p - 1);
    let b2 = grain(f, p - 1);
    let c2 = factor(p - 1);
    let q = a / b;
    let r = a % b;
    lemma_fundamental_div_mod(a, b);
    let u = pow2(unit(f)) as int;
    let v = value_at(f, k);
    // What the next digit is taken from, without the factor.
    let rho = if p >= 1 {
        r
    } else {
        10 * r
    };
    if p >= 1 {
        let w = ten_to(p - 1) as int;
        assert(ten_to(p) == 10 * w);
        assert(b == 10 * b2) by (nonlinear_arith)
            requires
                b == u * (10 * w),
                b2 == u * w,
        ;
        assert(ten_to(-p) == 1 && ten_to(-(p - 1)) == 1);
        assert(a2 == a);
        assert(ten_to(FAR - (p - 1)) == 10 * ten_to(FAR - p));
        assert(c2 == 10 * c);
        assert(a2 == 10 * q * b2 + rho) by (nonlinear_arith)
            requires
                a2 == b * q + r,
                b == 10 * b2,
                rho == r,
        ;
        assert(10 * r * c == rho * c2) by (nonlinear_arith)
            requires
                c2 == 10 * c,
                rho == r,
        ;
        assert(b2 * c2 == b * c) by (nonlinear_arith)
            requires
                c2 == 10 * c,
                b == 10 * b2,
        ;
        assert(1 * c2 == 10 * (1 * c));
    } else {
        assert(ten_to(p) == 1 && ten_to(p - 1) == 1);
        assert(b2 == b);
        let t = ten_to(-p) as int;
        assert(ten_to(-(p - 1)) == 10 * t);
        assert(a2 == 10 * a) by (nonlinear_arith)
            requires
                a2 == v * (10 * t),
                a == v * t,
        ;
        assert(c2 == c);
        assert(a2 == 10 * q * b2 + rho) by (nonlinear_arith)
            requires
                a2 == 10 * (b * q + r),
                b2 == b,
                rho == 10 * r,
        ;
        assert((10 * t) * c2 == 10 * (t * c)) by (nonlinear_arith)
            requires
                c2 == c,
        ;
    }
    assert(c2 > 0);
    assert(rho * c2 == 10 * r * c);
    assert(d * b2 <= rho < (d + 1) * b2) by (nonlinear_arith)
        requires
            d * (b2 * c2) <= rho * c2,
            rho * c2 < (d + 1) * (b2 * c2),
            c2 > 0,
    ;
    let r2 = rho - d * b2;
    assert(a2 == (10 * q + d) * b2 + r2) by (nonlinear_arith)
        requires
            a2 == 10 * q * b2 + rho,
            r2 == rho - d * b2,
    ;
    assert(0 <= r2 < b2) by (nonlinear_arith)
        requires
            r2 == rho - d * b2,
            d * b2 <= rho,
            rho < (d + 1) * b2,
    ;
    lemma_fundamental_div_mod_converse(a2, b2, 10 * q + d, r2);
    assert(r2 * c2 == rho * c2 - d * (b2 * c2)) by (nonlinear_arith)
        requires
            r2 == rho - d * b2,
    ;
}

/// At the greatest power nothing has been taken yet.
proof fn the_first_power(f: Format, k: int)
    requires
        0 < k < infinity(f),
    ensures
        scaled(f, k, FAR as int) / grain(f, FAR as int) == 0,
        (scaled(f, k, FAR as int) % grain(f, FAR as int)) * factor(FAR as int) == value_at(f, k),
        grain(f, FAR as int) * factor(FAR as int) == pow2(unit(f)) * ten_to(FAR as int),
        ten_to(-(FAR as int)) * factor(FAR as int) == 1,
{
    let p = FAR as int;
    steps(f, k);
    far_beats_middle(f, k);
    ten_is_more(FAR as nat);
    lemma_pow2_pos(unit(f));
    let u = pow2(unit(f)) as int;
    let t = ten_to(p) as int;
    assert(pow2(1200) * u <= u * t) by (nonlinear_arith)
        requires
            pow2(1200) <= t,
            u > 0,
    ;
    let a = scaled(f, k, p);
    let v = value_at(f, k);
    assert(ten_to(-p) == 1);
    assert(a == v) by (nonlinear_arith)
        requires
            a == v * 1,
    ;
    assert(ten_to(0) == 1);
    assert(factor(p) == 1);
    let b = grain(f, p);
    lemma_fundamental_div_mod_converse(a, b, 0, a);
    assert(v * 1 == v);
    assert(b * 1 == b);
}

impl Format {
    /// The shortest decimal that reads as the value at an index: its digits,
    /// and the power of ten they are multiplied by.
    #[verifier::rlimit(60)]
    pub fn shortest_of(self, k: u64) -> (r: (Vec<char>, i64))
        requires
            0 < k < infinity(self),
        ensures
            r.0@ == decimal(shortest(self, k as int).0),
            r.1 == shortest(self, k as int).1,
    {
        let (lead, shift) = self.parts(k);
        let (_, shift_below) = self.parts(k - 1);
        let whole = Big::new(1).tenfold(FAR as u128).doubled(self.halvings());
        let mut rest = Big::new(1).times_long(2 * lead).doubled(shift);
        let mut down = Big::new(1).doubled(shift_below);
        let mut up = Big::new(1).doubled(shift);
        let mut digits: Vec<char> = Vec::new();
        let mut p: i64 = FAR as i64;
        let ghost key = k as int;
        proof {
            the_first_power(self, key);
            let u = pow2(unit(self));
            let t = ten_to(FAR as int);
            assert(1 * t * u == u * t) by (nonlinear_arith);
            let m = (2 * lead) as nat;
            let s = pow2(shift as nat);
            assert(1 * m * s == m * s) by (nonlinear_arith);
            let a = pow2(shift_below as nat);
            assert(1 * a == a) by (nonlinear_arith);
            assert(1 * s == s) by (nonlinear_arith);
            let o = ten_to(-(FAR as int)) * factor(FAR as int);
            assert(a * o == a) by (nonlinear_arith)
                requires
                    o == 1,
            ;
            assert(s * o == s) by (nonlinear_arith)
                requires
                    o == 1,
            ;
        }
        loop
            invariant
                0 < key < infinity(self),
                key == k,
                -unit(self) <= p <= FAR,
                coarsest(self, key, FAR as int) == coarsest(self, key, p as int),
                digits@ == row((scaled(self, key, p as int) / grain(self, p as int)) as nat),
                scaled(self, key, p as int) / grain(self, p as int) >= 0,
                whole@ == grain(self, p as int) * factor(p as int),
                rest@ == (scaled(self, key, p as int) % grain(self, p as int)) * factor(p as int),
                down@ == pow2(shift_at(self, key - 1)) * (ten_to(-(p as int)) * factor(p as int)),
                up@ == pow2(shift_at(self, key)) * (ten_to(-(p as int)) * factor(p as int)),
            decreases p + unit(self),
        {
            let ghost q = scaled(self, key, p as int) / grain(self, p as int);
            let ghost r = scaled(self, key, p as int) % grain(self, p as int);
            let even = k % 2 == 0;
            let low = match rest.side(&down) {
                Side::Less => true,
                Side::Same => even,
                Side::More => false,
            };
            let high = match whole.side(&rest.plus(&up)) {
                Side::Less => true,
                Side::Same => even,
                Side::More => false,
            };
            proof {
                neighbours_read(self, key, p as int);
                scale_is_positive(self, p as int);
                factor_is_positive(p as int);
                let c = factor(p as int);
                let b = grain(self, p as int);
                let t = ten_to(-(p as int)) as int;
                let gl = pow2(shift_at(self, key - 1)) as int;
                let gh = pow2(shift_at(self, key)) as int;
                assert(down@ == (gl * t) * c) by (nonlinear_arith)
                    requires
                        down@ == gl * (t * c),
                ;
                assert(up@ == (gh * t) * c) by (nonlinear_arith)
                    requires
                        up@ == gh * (t * c),
                ;
                same_order(r, gl * t, c);
                assert((b - r) * c == b * c - r * c) by (nonlinear_arith);
                same_order(b - r, gh * t, c);
                same_order(2 * r, b, c);
                same_order(r, b, c);
                lemma_mod_bound(scaled(self, key, p as int), b);
                assert((2 * r) * c == 2 * (r * c)) by (nonlinear_arith);
                if low || high {
                    assert(multiple_reads(self, key, p as int));
                } else if multiple_reads(self, key, p as int) {
                    a_neighbour_reads(self, key, p as int);
                }
            }
            if low || high {
                assert(shortest(self, key).1 == p);
                let less = match rest.times(2, 0).side(&whole) {
                    Side::Less => true,
                    _ => false,
                };
                proof {
                    the_shortest_reads(self, key);
                }
                if low && (!high || less) {
                    return (digits, p);
                } else {
                    return (successor(digits, Ghost(q as nat)), p);
                }
            }
            proof {
                if p == -unit(self) {
                    enough_places_are_exact(self, key);
                }
            }
            let (digit, left) = digit_of(&rest.times(10, 0), &whole);
            proof {
                let c = factor(p as int);
                let rc = rest@;
                assert(10 * r * c == rc * 10) by (nonlinear_arith)
                    requires
                        rc == r * c,
                ;
                grain_keeps(self, p as int);
                one_digit_further(self, key, p as int, digit as int);
                ten_to_positive(-(p as int));
            }
            let ghost before = digits@;
            if digits.len() > 0 || digit > 0 {
                proof {
                    if q == 0 {
                        assert(before.len() == 0);
                    } else {
                        decimal_reads_back(q as nat);
                    }
                    row_grows(q as nat, digit as nat);
                }
                let c: char = (48 + digit) as char;
                digits.push(c);
            } else {
                proof {
                    if q > 0 {
                        decimal_reads_back(q as nat);
                    }
                }
            }
            proof {
                let z = ten_to(-(p as int)) * factor(p as int);
                let gl = pow2(shift_at(self, key - 1)) as int;
                let gh = pow2(shift_at(self, key)) as int;
                assert(gl * (10 * z) == (gl * z) * 10) by (nonlinear_arith);
                assert(gh * (10 * z) == (gh * z) * 10) by (nonlinear_arith);
            }
            rest = left;
            down = down.times(10, 0);
            up = up.times(10, 0);
            p = p - 1;
        }
    }
}

proof fn factor_is_positive(p: int)
    ensures
        factor(p) > 0,
{
    ten_to_positive(FAR - p);
    ten_to_positive(FAR as int);
}

/// The step and its factor stay the same from one power to the next.
proof fn grain_keeps(f: Format, p: int)
    requires
        p <= FAR,
    ensures
        grain(f, p - 1) * factor(p - 1) == grain(f, p) * factor(p),
{
    let u = pow2(unit(f)) as int;
    if p >= 1 {
        let w = ten_to(p - 1) as int;
        let c = factor(p);
        assert(ten_to(p) == 10 * w);
        assert(ten_to(FAR - (p - 1)) == 10 * ten_to(FAR - p));
        assert((u * w) * (10 * c) == (u * (10 * w)) * c) by (nonlinear_arith);
    }
}

/// A common factor keeps the order.
pub proof fn same_order(a: int, b: int, c: int)
    requires
        c > 0,
    ensures
        a < b <==> a * c < b * c,
        a == b <==> a * c == b * c,
{
    if a < b {
        assert(a * c < b * c) by (nonlinear_arith)
            requires
                a < b,
                c > 0,
        ;
    } else if a > b {
        assert(a * c > b * c) by (nonlinear_arith)
            requires
                a > b,
                c > 0,
        ;
    }
}

/// How often `whole` goes into `rest`, which is below ten times as much, and
/// what is left.
fn digit_of(rest: &Big, whole: &Big) -> (r: (u8, Big))
    requires
        rest@ < 10 * whole@,
    ensures
        r.0 < 10,
        r.0 * whole@ <= rest@ < (r.0 + 1) * whole@,
        r.1@ == rest@ - r.0 * whole@,
{
    let mut left = rest.copy();
    let mut d: u8 = 0;
    assert(0 * whole@ == 0) by (nonlinear_arith);
    while left.side(whole) != Side::Less
        invariant
            rest@ < 10 * whole@,
            d < 10,
            left@ == rest@ - d * whole@,
        decreases 10 - d,
    {
        proof {
            let w = whole@ as int;
            assert((d + 1) * w == d * w + w) by (nonlinear_arith);
            if d == 9 {
                assert(9 * w + w == 10 * w);
            }
        }
        left = left.minus(whole);
        d = d + 1;
    }
    proof {
        let w = whole@ as int;
        assert((d + 1) * w == d * w + w) by (nonlinear_arith);
        assert(d * w <= rest@);
    }
    (d, left)
}

} // verus!
