//! Whole numbers of any size, as far as exact rounding needs them.

use vstd::arithmetic::power2::{lemma2_to64, lemma_pow2_adds, pow2};
use vstd::prelude::*;

verus! {

/// What one place of a large number counts up to.
pub const BASE: u64 = 0x1_0000_0000;

/// What the place at `k` is worth.
pub open spec fn base_to(k: int) -> nat
    decreases k,
{
    if k <= 0 {
        1
    } else {
        BASE as nat * base_to(k - 1)
    }
}

/// The place at `i`; the places past the end are 0.
pub open spec fn limb_at(limbs: Seq<u32>, i: int) -> nat {
    if 0 <= i < limbs.len() {
        limbs[i] as nat
    } else {
        0
    }
}

/// What the first `n` places are worth together.
pub open spec fn upto(limbs: Seq<u32>, n: int) -> nat
    decreases n,
{
    if n <= 0 {
        0
    } else {
        upto(limbs, n - 1) + limb_at(limbs, n - 1) * base_to(n - 1)
    }
}

/// Ten to the power `k`.
pub open spec fn ten_to(k: int) -> nat
    decreases k,
{
    if k <= 0 {
        1
    } else {
        10 * ten_to(k - 1)
    }
}

/// A whole number of any size, its lowest place first.
pub struct Big {
    limbs: Vec<u32>,
}

impl View for Big {
    type V = nat;

    closed spec fn view(&self) -> nat {
        upto(self.limbs@, self.limbs@.len() as int)
    }
}

/// How one number compares with another.
#[derive(Copy, Clone, Debug, PartialEq, Eq, Structural)]
pub enum Side {
    Less,
    Same,
    More,
}

proof fn zeros_above(limbs: Seq<u32>, n: int)
    requires
        n >= limbs.len(),
    ensures
        upto(limbs, n) == upto(limbs, limbs.len() as int),
    decreases n,
{
    if n > limbs.len() {
        zeros_above(limbs, n - 1);
    }
}

proof fn below_the_next(limbs: Seq<u32>, n: int)
    requires
        n >= 0,
    ensures
        upto(limbs, n) < base_to(n),
    decreases n,
{
    if n > 0 {
        below_the_next(limbs, n - 1);
        let l = limb_at(limbs, n - 1);
        let b = base_to(n - 1);
        assert(l * b + b <= BASE * b) by (nonlinear_arith)
            requires
                l + 1 <= BASE,
        ;
    }
}

proof fn first_places_agree(a: Seq<u32>, b: Seq<u32>, n: int)
    requires
        forall|i: int| 0 <= i < n ==> limb_at(a, i) == limb_at(b, i),
    ensures
        upto(a, n) == upto(b, n),
    decreases n,
{
    if n > 0 {
        first_places_agree(a, b, n - 1);
        assert(limb_at(a, n - 1) == limb_at(b, n - 1));
    }
}

proof fn pushed(limbs: Seq<u32>, limb: u32)
    ensures
        upto(limbs.push(limb), limbs.len() as int + 1) == upto(limbs, limbs.len() as int) + limb
            * base_to(limbs.len() as int),
{
    first_places_agree(limbs.push(limb), limbs, limbs.len() as int);
}

impl Big {
    /// A small number.
    pub fn new(n: u32) -> (r: Self)
        ensures
            r@ == n,
    {
        let mut limbs: Vec<u32> = Vec::new();
        proof {
            pushed(limbs@, n);
            assert(upto(limbs@, 0) == 0);
            assert(n * base_to(0) == n) by (nonlinear_arith)
                requires
                    base_to(0) == 1,
            ;
        }
        limbs.push(n);
        Big { limbs }
    }

    fn limb(&self, i: usize) -> (r: u64)
        ensures
            r == limb_at(self.limbs@, i as int),
            r < BASE,
    {
        if i < self.limbs.len() {
            self.limbs[i] as u64
        } else {
            0
        }
    }

    /// This many times as much, and `add` more.
    pub fn times(&self, by: u32, add: u32) -> (r: Self)
        ensures
            r@ == self@ * by + add,
    {
        let mut out: Vec<u32> = Vec::new();
        let mut carry: u64 = add as u64;
        proof {
            assert(carry * base_to(0) == carry) by (nonlinear_arith)
                requires
                    base_to(0) == 1,
            ;
            assert(upto(self.limbs@, 0) * by == 0) by (nonlinear_arith)
                requires
                    upto(self.limbs@, 0) == 0,
            ;
        }
        for i in 0..self.limbs.len()
            invariant
                out.len() == i,
                carry < BASE,
                upto(out@, i as int) + carry * base_to(i as int) == upto(self.limbs@, i as int) * by
                    + add,
        {
            let limb: u64 = self.limbs[i] as u64;
            assert(limb * by <= 0xFFFF_FFFF * 0xFFFF_FFFF) by (nonlinear_arith)
                requires
                    limb <= 0xFFFF_FFFF,
                    by <= 0xFFFF_FFFF,
            ;
            let t: u64 = limb * (by as u64) + carry;
            let low: u32 = (t % BASE) as u32;
            proof {
                pushed(out@, low);
                let b = base_to(i as int);
                let c = (t / BASE) as int;
                let u = upto(self.limbs@, i as int);
                assert(low * b + c * (BASE * b) == t * b) by (nonlinear_arith)
                    requires
                        t == low + c * BASE,
                ;
                assert(t * b == limb * by * b + carry * b) by (nonlinear_arith)
                    requires
                        t == limb * by + carry,
                ;
                assert((u + limb * b) * by == u * by + limb * by * b) by (nonlinear_arith);
            }
            out.push(low);
            carry = t / BASE;
        }
        proof {
            pushed(out@, carry as u32);
        }
        out.push(carry as u32);
        Big { limbs: out }
    }

    /// How this compares with another.
    pub fn side(&self, other: &Self) -> (r: Side)
        ensures
            r == (if self@ < other@ {
                Side::Less
            } else if self@ == other@ {
                Side::Same
            } else {
                Side::More
            }),
    {
        let mut n: usize = if self.limbs.len() > other.limbs.len() {
            self.limbs.len()
        } else {
            other.limbs.len()
        };
        proof {
            zeros_above(self.limbs@, n as int);
            zeros_above(other.limbs@, n as int);
        }
        while n > 0
            invariant
                self@ - other@ == upto(self.limbs@, n as int) - upto(other.limbs@, n as int),
            decreases n,
        {
            let a = self.limb(n - 1);
            let b = other.limb(n - 1);
            if a != b {
                proof {
                    below_the_next(self.limbs@, n - 1);
                    below_the_next(other.limbs@, n - 1);
                    let w = base_to(n - 1);
                    assert(a < b ==> a * w + w <= b * w) by (nonlinear_arith);
                    assert(b < a ==> b * w + w <= a * w) by (nonlinear_arith);
                }
                return if a < b { Side::Less } else { Side::More };
            }
            n = n - 1;
        }
        Side::Same
    }

    /// What is left when `other`, which is no more, is taken away.
    pub fn minus(&self, other: &Self) -> (r: Self)
        requires
            other@ <= self@,
        ensures
            r@ == self@ - other@,
    {
        let n: usize = if self.limbs.len() > other.limbs.len() {
            self.limbs.len()
        } else {
            other.limbs.len()
        };
        let mut out: Vec<u32> = Vec::new();
        let mut borrow: u64 = 0;
        for i in 0..n
            invariant
                out.len() == i,
                borrow <= 1,
                upto(out@, i as int) + upto(other.limbs@, i as int) == upto(self.limbs@, i as int)
                    + borrow * base_to(i as int),
        {
            let a = self.limb(i);
            let b = other.limb(i);
            let less = a < b + borrow;
            let t: u64 = if less { a + BASE - b - borrow } else { a - b - borrow };
            proof {
                pushed(out@, t as u32);
                let w = base_to(i as int);
                let up: u64 = if less { 1 } else { 0 };
                assert(t * w + b * w + borrow * w == a * w + up * (BASE * w)) by (nonlinear_arith)
                    requires
                        t + b + borrow == a + up * BASE,
                ;
            }
            out.push(t as u32);
            borrow = if less { 1 } else { 0 };
        }
        proof {
            zeros_above(self.limbs@, n as int);
            zeros_above(other.limbs@, n as int);
            below_the_next(out@, n as int);
            let w = base_to(n as int);
            assert(borrow * w == (if borrow == 1 { w as int } else { 0 })) by (nonlinear_arith)
                requires
                    borrow <= 1,
            ;
        }
        Big { limbs: out }
    }

    /// The two together.
    pub fn plus(&self, other: &Self) -> (r: Self)
        ensures
            r@ == self@ + other@,
    {
        let n: usize = if self.limbs.len() > other.limbs.len() {
            self.limbs.len()
        } else {
            other.limbs.len()
        };
        let mut out: Vec<u32> = Vec::new();
        let mut carry: u64 = 0;
        for i in 0..n
            invariant
                out.len() == i,
                carry <= 1,
                upto(out@, i as int) + carry * base_to(i as int) == upto(self.limbs@, i as int)
                    + upto(other.limbs@, i as int),
        {
            let a = self.limb(i);
            let b = other.limb(i);
            let t: u64 = a + b + carry;
            let low: u32 = (t % BASE) as u32;
            proof {
                pushed(out@, low);
                let w = base_to(i as int);
                let c = (t / BASE) as int;
                assert(low * w + c * (BASE * w) == a * w + b * w + carry * w) by (nonlinear_arith)
                    requires
                        a + b + carry == low + c * BASE,
                ;
            }
            out.push(low);
            carry = t / BASE;
        }
        proof {
            zeros_above(self.limbs@, n as int);
            zeros_above(other.limbs@, n as int);
            pushed(out@, carry as u32);
        }
        out.push(carry as u32);
        Big { limbs: out }
    }

    /// The same number again.
    pub fn copy(&self) -> (r: Self)
        ensures
            r@ == self@,
    {
        self.times(1, 0)
    }

    /// This many times as much.
    pub fn times_long(&self, by: u64) -> (r: Self)
        ensures
            r@ == self@ * by,
    {
        let high: u32 = (by / BASE) as u32;
        let low: u32 = (by % BASE) as u32;
        let upper = self.times(high, 0).times(0x8000_0000, 0).times(2, 0);
        proof {
            let n = self@;
            assert(n * high * 0x8000_0000 * 2 + n * low == n * by) by (nonlinear_arith)
                requires
                    by == high * 0x1_0000_0000 + low,
            ;
        }
        upper.plus(&self.times(low, 0))
    }

    /// Doubled `by` times over.
    pub fn doubled(&self, by: u32) -> (r: Self)
        ensures
            r@ == self@ * pow2(by as nat),
    {
        let mut out = self.copy();
        let mut done: u32 = 0;
        proof {
            lemma2_to64();
        }
        while done < by
            invariant
                done <= by,
                out@ == self@ * pow2(done as nat),
            decreases by - done,
        {
            let step: u32 = if by - done >= 31 { 31 } else { 1 };
            let factor: u32 = if step == 31 { 0x8000_0000 } else { 2 };
            proof {
                lemma2_to64();
                lemma_pow2_adds(done as nat, step as nat);
                let n = self@;
                let p = pow2(done as nat);
                let q = pow2(step as nat);
                assert(n * p * q == n * (p * q)) by (nonlinear_arith);
            }
            out = out.times(factor, 0);
            done = done + step;
        }
        out
    }

    /// Ten times as much, `by` times over.
    pub fn tenfold(&self, by: u128) -> (r: Self)
        ensures
            r@ == self@ * ten_to(by as int),
    {
        let mut out = self.copy();
        assert(self@ * ten_to(0) == self@) by (nonlinear_arith)
            requires
                ten_to(0) == 1,
        ;
        for i in 0..by
            invariant
                out@ == self@ * ten_to(i as int),
        {
            proof {
                let n = self@;
                let t = ten_to(i as int);
                assert(n * t * 10 == n * (10 * t)) by (nonlinear_arith);
            }
            out = out.times(10, 0);
        }
        out
    }
}

} // verus!
