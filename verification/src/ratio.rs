//! Exact non-negative rational arithmetic on `u64` numerator/denominator
//! pairs kept in lowest terms, with overflow promoted to an explicit error.

use vstd::arithmetic::div_mod::{
    lemma_fundamental_div_mod, lemma_add_mod_noop, lemma_mod_self_0, lemma_small_mod,
};
use vstd::prelude::*;

use crate::errors::ResolveError;

verus! {

/// Mathematical model of a rational: an integer numerator/denominator pair.
#[verifier::ext_equal]
pub struct Rat {
    pub num: int,
    pub den: int,
}

/// Greatest common divisor by the subtractive Euclidean scheme.
pub open spec fn spec_gcd(a: nat, b: nat) -> nat
    decreases a + b,
{
    if a == 0 {
        b
    } else if b == 0 {
        a
    } else if a == b {
        a
    } else if a < b {
        spec_gcd(a, (b - a) as nat)
    } else {
        spec_gcd((a - b) as nat, b)
    }
}

pub proof fn lemma_gcd_pos(a: nat, b: nat)
    requires
        a > 0 || b > 0,
    ensures
        spec_gcd(a, b) > 0,
    decreases a + b,
{
    if a == 0 || b == 0 || a == b {
    } else if a < b {
        lemma_gcd_pos(a, (b - a) as nat);
    } else {
        lemma_gcd_pos((a - b) as nat, b);
    }
}

/// The gcd divides both of its arguments.
pub proof fn lemma_gcd_divides(a: nat, b: nat)
    requires
        a + b > 0,
    ensures
        spec_gcd(a, b) > 0,
        a % spec_gcd(a, b) == 0,
        b % spec_gcd(a, b) == 0,
    decreases a + b,
{
    lemma_gcd_pos(a, b);
    let g = spec_gcd(a, b) as int;
    if a == 0 {
        lemma_small_mod(0, b);
        lemma_mod_self_0(b as int);
    } else if b == 0 {
        lemma_small_mod(0, a);
        lemma_mod_self_0(a as int);
    } else if a == b {
        lemma_mod_self_0(a as int);
    } else if a < b {
        lemma_gcd_divides(a, (b - a) as nat);
        lemma_add_mod_noop(a as int, b - a, g);
        lemma_small_mod(0, g as nat);
    } else {
        lemma_gcd_divides((a - b) as nat, b);
        lemma_add_mod_noop(a - b, b as int, g);
        lemma_small_mod(0, g as nat);
    }
}

/// Scaling both arguments scales the gcd.
pub proof fn lemma_gcd_scale(k: nat, a: nat, b: nat)
    requires
        k > 0,
    ensures
        spec_gcd(k * a, k * b) == k * spec_gcd(a, b),
    decreases a + b,
{
    if a == 0 {
        assert(k * a == 0) by (nonlinear_arith)
            requires a == 0;
    } else if b == 0 {
        assert(k * b == 0) by (nonlinear_arith)
            requires b == 0;
    } else if a == b {
        assert(k * a > 0 && k * a == k * b) by (nonlinear_arith)
            requires k > 0 && a > 0 && a == b;
    } else if a < b {
        assert(0 < k * a && k * a < k * b && k * b - k * a == k * (b - a)) by (nonlinear_arith)
            requires k > 0 && 0 < a && a < b;
        lemma_gcd_scale(k, a, (b - a) as nat);
    } else {
        assert(0 < k * b && k * b < k * a && k * a - k * b == k * (a - b)) by (nonlinear_arith)
            requires k > 0 && 0 < b && b < a;
        lemma_gcd_scale(k, (a - b) as nat, b);
    }
}

pub proof fn lemma_gcd_one(a: nat)
    ensures
        spec_gcd(a, 1) == 1,
    decreases a,
{
    if a > 1 {
        lemma_gcd_one((a - 1) as nat);
    }
}

/// Dividing a pair by its gcd yields an exact, coprime pair.
pub proof fn lemma_gcd_reduce(n: nat, d: nat)
    requires
        d > 0,
    ensures
        spec_gcd(n, d) > 0,
        n % spec_gcd(n, d) == 0,
        d % spec_gcd(n, d) == 0,
        spec_gcd(n, d) * (n as int / spec_gcd(n, d) as int) == n,
        spec_gcd(n, d) * (d as int / spec_gcd(n, d) as int) == d,
        d as int / spec_gcd(n, d) as int > 0,
        spec_gcd((n as int / spec_gcd(n, d) as int) as nat, (d as int / spec_gcd(n, d) as int) as nat) == 1,
{
    lemma_gcd_divides(n, d);
    let g = spec_gcd(n, d) as int;
    lemma_fundamental_div_mod(n as int, g);
    lemma_fundamental_div_mod(d as int, g);
    let qn = n as int / g;
    let qd = d as int / g;
    assert(qn >= 0 && qd > 0) by (nonlinear_arith)
        requires g > 0 && g * qn == n && g * qd == d && n >= 0 && d > 0;
    lemma_gcd_scale(g as nat, qn as nat, qd as nat);
    assert(g * qn == g as nat * qn as nat && g * qd == g as nat * qd as nat) by (nonlinear_arith)
        requires g > 0 && qn >= 0 && qd > 0;
    assert(spec_gcd(qn as nat, qd as nat) == 1) by (nonlinear_arith)
        requires g > 0 && g as nat * spec_gcd(qn as nat, qd as nat) == g;
}

/// The pair reduced to lowest terms.
pub open spec fn norm(n: int, d: int) -> Rat
    recommends
        0 <= n,
        0 < d,
{
    let g = spec_gcd(n as nat, d as nat) as int;
    Rat { num: n / g, den: d / g }
}

/// A well-formed rational value: non-negative, positive denominator,
/// and in lowest terms.
pub open spec fn wf_rat(r: Rat) -> bool {
    0 <= r.num && 0 < r.den && spec_gcd(r.num as nat, r.den as nat) == 1
}

pub open spec fn rat_int(n: int) -> Rat {
    Rat { num: n, den: 1 }
}

pub open spec fn rat_one() -> Rat {
    rat_int(1)
}

/// Exact sum of two rational values, in lowest terms.
pub open spec fn add_rat(a: Rat, b: Rat) -> Rat {
    norm(a.num * b.den + b.num * a.den, a.den * b.den)
}

/// Exact product of two rational values, in lowest terms.
pub open spec fn mul_rat(a: Rat, b: Rat) -> Rat {
    norm(a.num * b.num, a.den * b.den)
}

/// Exact quotient of two rational values, in lowest terms.
pub open spec fn div_rat(a: Rat, b: Rat) -> Rat {
    norm(a.num * b.den, a.den * b.num)
}

/// Whether the intermediate products of an addition stay within `u64`.
pub open spec fn add_ok(a: Rat, b: Rat) -> bool {
    &&& a.num * b.den <= u64::MAX
    &&& b.num * a.den <= u64::MAX
    &&& a.num * b.den + b.num * a.den <= u64::MAX
    &&& a.den * b.den <= u64::MAX
}

/// Whether the intermediate products of a multiplication stay within `u64`.
pub open spec fn mul_ok(a: Rat, b: Rat) -> bool {
    &&& a.num * b.num <= u64::MAX
    &&& a.den * b.den <= u64::MAX
}

/// Whether the intermediate products of a division stay within `u64`.
pub open spec fn div_ok(a: Rat, b: Rat) -> bool {
    &&& a.num * b.den <= u64::MAX
    &&& a.den * b.num <= u64::MAX
}

/// Normalizing preserves the rational value: `norm(n, d) == n / d`.
pub proof fn lemma_norm_value(n: int, d: int)
    requires
        0 <= n,
        0 < d,
    ensures
        wf_rat(norm(n, d)),
        norm(n, d).num * d == n * norm(n, d).den,
        norm(n, d).num <= n,
        0 < norm(n, d).den <= d,
{
    lemma_gcd_reduce(n as nat, d as nat);
    let g = spec_gcd(n as nat, d as nat) as int;
    let qn = n / g;
    let qd = d / g;
    assert(qn >= 0 && 0 < qd && qn * d == n * qd && qn <= n && qd <= d) by (nonlinear_arith)
        requires g > 0 && g * qn == n && g * qd == d && 0 <= n && 0 < d;
}

/// Multiplying a reduced rational by one leaves it unchanged.
pub proof fn lemma_mul_rat_one(v: Rat)
    requires
        wf_rat(v),
    ensures
        mul_rat(v, rat_one()) == v,
{
    vstd::arithmetic::div_mod::lemma_div_basics(v.num);
    vstd::arithmetic::div_mod::lemma_div_basics(v.den);
}

/// Dividing a reduced rational by one leaves it unchanged.
pub proof fn lemma_div_rat_one(v: Rat)
    requires
        wf_rat(v),
    ensures
        div_rat(v, rat_one()) == v,
{
    vstd::arithmetic::div_mod::lemma_div_basics(v.num);
    vstd::arithmetic::div_mod::lemma_div_basics(v.den);
}

/// A quotient of well-formed rationals is well-formed and no larger than
/// the cross products it reduces.
pub proof fn lemma_div_rat_wf(a: Rat, b: Rat)
    requires
        wf_rat(a),
        wf_rat(b),
        b.num > 0,
    ensures
        wf_rat(div_rat(a, b)),
        div_rat(a, b).num <= a.num * b.den,
        div_rat(a, b).den <= a.den * b.num,
{
    assert(a.den * b.num > 0 && a.num * b.den >= 0) by (nonlinear_arith)
        requires a.den > 0 && b.num > 0 && a.num >= 0 && b.den > 0;
    lemma_norm_value(a.num * b.den, a.den * b.num);
}

/// An exact fraction of `u64` numerator and denominator, kept in lowest
/// terms with a positive denominator.
#[derive(Clone, Copy, Debug, Hash, PartialEq, Eq, Structural)]
pub struct Ratio {
    pub num: u64,
    pub den: u64,
}

impl View for Ratio {
    type V = Rat;

    open spec fn view(&self) -> Rat {
        Rat { num: self.num as int, den: self.den as int }
    }
}

/// Subtractive Euclidean greatest common divisor on positive integers.
pub fn gcd(a: u64, b: u64) -> (r: u64)
    requires
        a > 0,
        b > 0,
    ensures
        r == spec_gcd(a as nat, b as nat),
    decreases a + b,
{
    if a == b {
        a
    } else if a < b {
        gcd(a, b - a)
    } else {
        gcd(a - b, b)
    }
}

/// Builds the reduced ratio `n / d`.
fn reduce(n: u64, d: u64) -> (r: Ratio)
    requires
        d > 0,
    ensures
        r.wf(),
        r@ == norm(n as int, d as int),
{
    proof {
        lemma_gcd_reduce(n as nat, d as nat);
    }
    if n == 0 {
        assert(norm(0, d as int) == (Rat { num: 0int, den: 1int })) by {
            vstd::arithmetic::div_mod::lemma_div_by_self(d as int);
            vstd::arithmetic::div_mod::lemma_div_of0(d as int);
        }
        proof {
            lemma_gcd_one(0);
        }
        Ratio { num: 0, den: 1 }
    } else {
        let g = gcd(n, d);
        Ratio { num: n / g, den: d / g }
    }
}

impl Ratio {
    /// Well-formedness: the stored pair is a reduced positive-denominator
    /// fraction.
    pub open spec fn wf(self) -> bool {
        wf_rat(self@)
    }

    /// The reduced ratio `num / den`.
    pub fn new(num: u64, den: u64) -> (r: Ratio)
        requires
            den > 0,
        ensures
            r.wf(),
            r@ == norm(num as int, den as int),
    {
        reduce(num, den)
    }

    /// The whole number `n`, as a ratio.
    pub fn from_int(n: u64) -> (r: Ratio)
        ensures
            r.wf(),
            r@ == rat_int(n as int),
    {
        proof {
            lemma_gcd_one(n as nat);
        }
        Ratio { num: n, den: 1 }
    }

    /// The ratio one.
    pub fn one() -> (r: Ratio)
        ensures
            r.wf(),
            r@ == rat_one(),
    {
        Ratio::from_int(1)
    }

    /// Exact sum; fails rather than wrap when an intermediate product
    /// leaves `u64`.
    pub fn add(self, other: Ratio) -> (r: Result<Ratio, ResolveError>)
        requires
            self.wf(),
            other.wf(),
        ensures
            match r {
                Ok(v) => add_ok(self@, other@) && v.wf() && v@ == add_rat(self@, other@),
                Err(e) => !add_ok(self@, other@) && e == ResolveError::ArithmeticOverflow,
            },
    {
        let n1 = match self.num.checked_mul(other.den) {
            Some(v) => v,
            None => {
                return Err(ResolveError::ArithmeticOverflow);
            },
        };
        let n2 = match other.num.checked_mul(self.den) {
            Some(v) => v,
            None => {
                return Err(ResolveError::ArithmeticOverflow);
            },
        };
        let n = match n1.checked_add(n2) {
            Some(v) => v,
            None => {
                return Err(ResolveError::ArithmeticOverflow);
            },
        };
        let d = match self.den.checked_mul(other.den) {
            Some(v) => v,
            None => {
                return Err(ResolveError::ArithmeticOverflow);
            },
        };
        assert(d > 0) by (nonlinear_arith)
            requires d == self.den * other.den && self.den > 0 && other.den > 0;
        Ok(reduce(n, d))
    }

    /// Exact product; fails rather than wrap when an intermediate product
    /// leaves `u64`.
    pub fn mul(self, other: Ratio) -> (r: Result<Ratio, ResolveError>)
        requires
            self.wf(),
            other.wf(),
        ensures
            match r {
                Ok(v) => mul_ok(self@, other@) && v.wf() && v@ == mul_rat(self@, other@),
                Err(e) => !mul_ok(self@, other@) && e == ResolveError::ArithmeticOverflow,
            },
    {
        let n = match self.num.checked_mul(other.num) {
            Some(v) => v,
            None => {
                return Err(ResolveError::ArithmeticOverflow);
            },
        };
        let d = match self.den.checked_mul(other.den) {
            Some(v) => v,
            None => {
                return Err(ResolveError::ArithmeticOverflow);
            },
        };
        assert(d > 0) by (nonlinear_arith)
            requires d == self.den * other.den && self.den > 0 && other.den > 0;
        Ok(reduce(n, d))
    }

    /// Exact quotient by a positive ratio; fails rather than wrap when an
    /// intermediate product leaves `u64`.
    pub fn div(self, other: Ratio) -> (r: Result<Ratio, ResolveError>)
        requires
            self.wf(),
            other.wf(),
            other@.num > 0,
        ensures
            match r {
                Ok(v) => div_ok(self@, other@) && v.wf() && v@ == div_rat(self@, other@),
                Err(e) => !div_ok(self@, other@) && e == ResolveError::ArithmeticOverflow,
            },
    {
        let n = match self.num.checked_mul(other.den) {
            Some(v) => v,
            None => {
                return Err(ResolveError::ArithmeticOverflow);
            },
        };
        let d = match self.den.checked_mul(other.num) {
            Some(v) => v,
            None => {
                return Err(ResolveError::ArithmeticOverflow);
            },
        };
        assert(d > 0) by (nonlinear_arith)
            requires d == self.den * other.num && self.den > 0 && other.num > 0;
        Ok(reduce(n, d))
    }
}

} // verus!
