//! Exact rational time.
//!
//! An instant or a span is a count of ticks over a positive tick rate
//! (ticks per second).  All arithmetic is exact: encode pipelines run for
//! arbitrarily long, and floating-point timestamps would drift.  Converting
//! an instant into an integer tick count of another base rounds toward
//! negative infinity (floor); floor rounding is monotone, so rounding the
//! two boundaries of adjacent intervals can never produce overlapping or
//! negative-length rounded intervals.

use vstd::prelude::*;
use vstd::arithmetic::div_mod::{
    lemma_fundamental_div_mod, lemma_fundamental_div_mod_converse, lemma_div_is_ordered,
    lemma_div_multiples_vanish,
};

verus! {

/// A rational number `num / den`, the mathematical model of [`MediaTime`]
/// and [`MediaDuration`].  Well-formed values have `den > 0`.
pub ghost struct Rat {
    pub num: int,
    pub den: int,
}

impl Rat {
    pub open spec fn wf(self) -> bool {
        self.den > 0
    }

    pub open spec fn zero() -> Rat {
        Rat { num: 0, den: 1 }
    }

    /// Exact sum.
    pub open spec fn plus(self, other: Rat) -> Rat {
        Rat {
            num: self.num * other.den + other.num * self.den,
            den: self.den * other.den,
        }
    }

    /// Exact difference.
    pub open spec fn minus(self, other: Rat) -> Rat {
        Rat {
            num: self.num * other.den - other.num * self.den,
            den: self.den * other.den,
        }
    }

    /// Value equality (`self == other` as rationals).
    pub open spec fn eq_r(self, other: Rat) -> bool {
        self.num * other.den == other.num * self.den
    }

    pub open spec fn le_r(self, other: Rat) -> bool {
        self.num * other.den <= other.num * self.den
    }

    pub open spec fn lt_r(self, other: Rat) -> bool {
        self.num * other.den < other.num * self.den
    }

    /// The integer tick count of this value in `base`, rounded toward
    /// negative infinity.
    pub open spec fn floor_ticks(self, base: int) -> int {
        (self.num * base) / self.den
    }
}

/// `<=` on rationals is transitive.
pub proof fn lemma_le_r_trans(a: Rat, b: Rat, c: Rat)
    requires
        a.wf(),
        b.wf(),
        c.wf(),
        a.le_r(b),
        b.le_r(c),
    ensures
        a.le_r(c),
{
    assert(a.num * c.den <= c.num * a.den) by (nonlinear_arith)
        requires
            a.den > 0,
            b.den > 0,
            c.den > 0,
            a.num * b.den <= b.num * a.den,
            b.num * c.den <= c.num * b.den,
    ;
}

/// Adding a positive span moves an instant strictly forward.
pub proof fn lemma_plus_lt(t: Rat, d: Rat)
    requires
        t.wf(),
        d.wf(),
        d.num > 0,
    ensures
        t.plus(d).wf(),
        t.lt_r(t.plus(d)),
{
    assert(t.den * d.den > 0 && t.num * (t.den * d.den) < (t.num * d.den + d.num * t.den)
        * t.den) by (nonlinear_arith)
        requires
            t.den > 0,
            d.den > 0,
            d.num > 0,
    ;
}

/// Equal rationals compare equally against any third value.
pub proof fn lemma_eq_r_le_r_compat(a: Rat, a2: Rat, b: Rat)
    requires
        a.wf(),
        a2.wf(),
        b.wf(),
        a.eq_r(a2),
    ensures
        a.le_r(b) <==> a2.le_r(b),
        b.le_r(a) <==> b.le_r(a2),
        a.lt_r(b) <==> a2.lt_r(b),
        b.lt_r(a) <==> b.lt_r(a2),
{
    assert((a.num * b.den <= b.num * a.den <==> a2.num * b.den <= b.num * a2.den)
        && (b.num * a.den <= a.num * b.den <==> b.num * a2.den <= a2.num * b.den)
        && (a.num * b.den < b.num * a.den <==> a2.num * b.den < b.num * a2.den)
        && (b.num * a.den < a.num * b.den <==> b.num * a2.den < a2.num * b.den))
        by (nonlinear_arith)
        requires
            a.den > 0,
            a2.den > 0,
            b.den > 0,
            a.num * a2.den == a2.num * a.den,
    ;
}

/// Value equality is transitive.
pub proof fn lemma_eq_r_trans(a: Rat, b: Rat, c: Rat)
    requires
        a.wf(),
        b.wf(),
        c.wf(),
        a.eq_r(b),
        b.eq_r(c),
    ensures
        a.eq_r(c),
{
    assert(a.num * c.den == c.num * a.den) by (nonlinear_arith)
        requires
            a.den > 0,
            b.den > 0,
            c.den > 0,
            a.num * b.den == b.num * a.den,
            b.num * c.den == c.num * b.den,
    ;
}

/// Adding the same span to equal instants gives equal instants.
pub proof fn lemma_plus_eq_compat(a: Rat, b: Rat, d: Rat)
    requires
        a.wf(),
        b.wf(),
        d.wf(),
        a.eq_r(b),
    ensures
        a.plus(d).eq_r(b.plus(d)),
{
    assert((a.num * d.den + d.num * a.den) * (b.den * d.den) == (b.num * d.den + d.num * b.den)
        * (a.den * d.den)) by (nonlinear_arith)
        requires
            a.den > 0,
            b.den > 0,
            d.den > 0,
            a.num * b.den == b.num * a.den,
    ;
}

/// `b + (a - b) == a`: closing a gap up to `a` lands exactly on `a`.
pub proof fn lemma_minus_plus_cancel(a: Rat, b: Rat)
    requires
        a.wf(),
        b.wf(),
    ensures
        b.plus(a.minus(b)).eq_r(a),
{
    assert((b.num * (a.den * b.den) + (a.num * b.den - b.num * a.den) * b.den) * a.den
        == a.num * (b.den * (a.den * b.den))) by (nonlinear_arith)
        requires
            a.den > 0,
            b.den > 0,
    ;
}

/// Floor rounding into a fixed base is monotone.
pub proof fn lemma_floor_mono(a: Rat, b: Rat, base: int)
    requires
        a.wf(),
        b.wf(),
        base >= 1,
        a.le_r(b),
    ensures
        a.floor_ticks(base) <= b.floor_ticks(base),
{
    let x = a.num * base;
    let p = a.den;
    let y = b.num * base;
    let q = b.den;
    assert(x * q <= y * p) by (nonlinear_arith)
        requires
            p > 0,
            q > 0,
            base >= 1,
            a.num * b.den <= b.num * a.den,
            x == a.num * base,
            y == b.num * base,
            p == a.den,
            q == b.den,
    ;
    let qa = x / p;
    lemma_fundamental_div_mod(x, p);
    assert(qa * q <= y) by (nonlinear_arith)
        requires
            p > 0,
            q > 0,
            x == p * qa + x % p,
            0 <= x % p,
            x * q <= y * p,
    ;
    lemma_div_multiples_vanish(qa, q);
    lemma_div_is_ordered(qa * q, y, q);
}

/// All elements are well-formed rationals.
pub open spec fn rats_wf(s: Seq<Rat>) -> bool {
    forall|i: int| 0 <= i < s.len() ==> (#[trigger] s[i]).wf()
}

/// The elements are non-decreasing as rational values.
pub open spec fn sorted_rats(s: Seq<Rat>) -> bool {
    forall|i: int, j: int| 0 <= i <= j < s.len() ==> #[trigger] s[i].le_r(#[trigger] s[j])
}

/// The exact sum of a sequence of rationals.
pub open spec fn rat_sum(s: Seq<Rat>) -> Rat
    decreases s.len(),
{
    if s.len() == 0 {
        Rat::zero()
    } else {
        rat_sum(s.drop_last()).plus(s.last())
    }
}

/// A sum of well-formed rationals is well-formed.
pub proof fn lemma_rat_sum_wf(s: Seq<Rat>)
    requires
        rats_wf(s),
    ensures
        rat_sum(s).wf(),
    decreases s.len(),
{
    if s.len() > 0 {
        assert(rats_wf(s.drop_last()));
        lemma_rat_sum_wf(s.drop_last());
        assert(rat_sum(s.drop_last()).den * s.last().den > 0) by (nonlinear_arith)
            requires
                rat_sum(s.drop_last()).den > 0,
                s.last().den > 0,
        ;
    }
}

/// Sums and differences of well-formed rationals are well-formed.
pub proof fn lemma_plus_minus_wf(a: Rat, b: Rat)
    requires
        a.wf(),
        b.wf(),
    ensures
        a.plus(b).wf(),
        a.minus(b).wf(),
{
    assert(a.den * b.den > 0) by (nonlinear_arith)
        requires
            a.den > 0,
            b.den > 0,
    ;
}

/// With a common denominator, ordering is ordering of the numerators.
pub proof fn lemma_same_base_le(a: Rat, b: Rat)
    requires
        a.wf(),
        b.wf(),
        a.den == b.den,
    ensures
        a.le_r(b) <==> a.num <= b.num,
        a.lt_r(b) <==> a.num < b.num,
{
    assert((a.num * b.den <= b.num * a.den <==> a.num <= b.num) && (a.num * b.den < b.num
        * a.den <==> a.num < b.num)) by (nonlinear_arith)
        requires
            a.den > 0,
            a.den == b.den,
    ;
}

/// With a common denominator, addition adds the numerators.
pub proof fn lemma_same_den_plus(a: int, b: int, den: int)
    requires
        den > 0,
    ensures
        (Rat { num: a, den }).plus(Rat { num: b, den }).eq_r(Rat { num: a + b, den }),
        (Rat { num: a, den }).plus(Rat { num: b, den }).wf(),
{
    assert((a * den + b * den) * den == (a + b) * (den * den) && den * den > 0)
        by (nonlinear_arith)
        requires
            den > 0,
    ;
}

/// Appending an element at or above the last keeps a sorted sequence
/// sorted.
pub proof fn lemma_sorted_push(s: Seq<Rat>, x: Rat)
    requires
        sorted_rats(s),
        rats_wf(s),
        x.wf(),
        s.len() > 0 ==> s.last().le_r(x),
    ensures
        sorted_rats(s.push(x)),
        rats_wf(s.push(x)),
{
    let t = s.push(x);
    assert forall|i: int, j: int| 0 <= i <= j < t.len() implies #[trigger] t[i].le_r(
        #[trigger] t[j]) by {
        if j < s.len() {
            assert(s[i].le_r(s[j]));
        } else if i < s.len() {
            assert(s[i].le_r(s.last()));
            lemma_le_r_trans(s[i], s.last(), x);
        } else {
            assert(t[i] == x);
            assert(x.le_r(x));
        }
    }
}

/// Does `x` fit in an `i64`?
pub open spec fn in_i64(x: int) -> bool {
    i64::MIN <= x <= i64::MAX
}

/// The representation [`MediaTime::add_duration`] produces for an exact
/// sum: ticks are added directly over a shared base; otherwise the two
/// values are cross-multiplied onto the product base.
pub open spec fn sum_repr(a: Rat, b: Rat) -> Rat {
    if a.den == b.den {
        Rat { num: a.num + b.num, den: a.den }
    } else {
        a.plus(b)
    }
}

/// Whether that representation fits in an `i64` pair — exactly the cases
/// in which [`MediaTime::add_duration`] succeeds.
pub open spec fn sum_fits(a: Rat, b: Rat) -> bool {
    if a.den == b.den {
        in_i64(a.num + b.num)
    } else {
        in_i64(a.plus(b).num) && in_i64(a.plus(b).den)
    }
}

/// The chosen sum representation has the exact sum's value.
pub proof fn lemma_sum_repr_eq(a: Rat, b: Rat)
    requires
        a.wf(),
        b.wf(),
    ensures
        sum_repr(a, b).wf(),
        sum_repr(a, b).eq_r(a.plus(b)),
{
    if a.den == b.den {
        assert((a.num + b.num) * (a.den * b.den) == (a.num * b.den + b.num * a.den) * a.den)
            by (nonlinear_arith)
            requires
                a.den == b.den,
        ;
    } else {
        lemma_plus_minus_wf(a, b);
    }
}

/// An exact instant: `ticks / base` seconds from the track origin.
#[derive(Clone, Copy, Debug, PartialEq, Eq, Structural)]
pub struct MediaTime {
    pub ticks: i64,
    pub base: i64,
}

/// An exact span: the difference of two instants of the same track.
#[derive(Clone, Copy, Debug, PartialEq, Eq, Structural)]
pub struct MediaDuration {
    pub ticks: i64,
    pub base: i64,
}

impl View for MediaTime {
    type V = Rat;

    open spec fn view(&self) -> Rat {
        Rat { num: self.ticks as int, den: self.base as int }
    }
}

impl View for MediaDuration {
    type V = Rat;

    open spec fn view(&self) -> Rat {
        Rat { num: self.ticks as int, den: self.base as int }
    }
}

impl MediaTime {
    pub fn new(ticks: i64, base: i64) -> (r: MediaTime)
        requires
            base >= 1,
        ensures
            r@ == (Rat { num: ticks as int, den: base as int }),
            r@.wf(),
    {
        MediaTime { ticks, base }
    }

    pub fn ticks(&self) -> (r: i64)
        ensures
            r as int == self@.num,
    {
        self.ticks
    }

    pub fn base(&self) -> (r: i64)
        ensures
            r as int == self@.den,
    {
        self.base
    }
}

/// The product of an `i64` by a positive `i64` stays well inside `i128`:
/// its magnitude is at most `2^63 * (2^63 - 1) == 2^126 - 2^63`.
proof fn lemma_prod_bound(a: int, b: int)
    requires
        -0x8000000000000000 <= a <= 0x7fffffffffffffff,
        1 <= b <= 0x7fffffffffffffff,
    ensures
        -0x3fffffffffffffff8000000000000000 <= a * b <= 0x3fffffffffffffff8000000000000000,
{
    assert(-0x3fffffffffffffff8000000000000000 <= a * b <= 0x3fffffffffffffff8000000000000000)
        by (nonlinear_arith)
        requires
            -0x8000000000000000 <= a <= 0x7fffffffffffffff,
            1 <= b <= 0x7fffffffffffffff,
    ;
}

/// `x * y` exactly, in the wider type.
fn mul_i64(x: i64, y: i64) -> (r: i128)
    ensures
        r as int == x as int * y as int,
{
    proof {
        assert(i128::MIN <= x as int * y as int <= i128::MAX) by (nonlinear_arith)
            requires
                i64::MIN <= x as int <= i64::MAX,
                i64::MIN <= y as int <= i64::MAX,
        ;
    }
    (x as i128) * (y as i128)
}

/// Euclidean (floor, for a positive divisor) division in `i128`.
fn floor_div_i128(a: i128, b: i128) -> (r: i128)
    requires
        b >= 1,
        a > i128::MIN,
    ensures
        r as int == a as int / b as int,
{
    let bu: u128 = b as u128;
    if a >= 0 {
        let q: u128 = (a as u128) / bu;
        proof {
            assert(q == a as int / b as int);
        }
        q as i128
    } else {
        let m: u128 = (-a) as u128;
        let q: u128 = (m + bu - 1) / bu;
        proof {
            let mi = m as int;
            let bi = b as int;
            let c = (mi + bi - 1) / bi;
            lemma_fundamental_div_mod(mi + bi - 1, bi);
            // c * b lies in [m, m + b - 1], so -m == (-c) * b + (c * b - m)
            // with a remainder in [0, b).
            assert(c * bi >= mi && c * bi <= mi + bi - 1) by (nonlinear_arith)
                requires
                    bi >= 1,
                    mi + bi - 1 == bi * c + (mi + bi - 1) % bi,
                    0 <= (mi + bi - 1) % bi < bi,
            ;
            assert(-mi == (-c) * bi + (c * bi - mi)) by (nonlinear_arith);
            lemma_fundamental_div_mod_converse(-mi, bi, -c, c * bi - mi);
            assert(mi >= 1);
            assert(c <= mi) by (nonlinear_arith)
                requires
                    bi >= 1,
                    mi >= 1,
                    c * bi <= mi + bi - 1,
            ;
            assert(q <= m);
        }
        -(q as i128)
    }
}

impl MediaTime {
    /// `self < other`, comparing the exact rational values.
    pub fn earlier_than(&self, other: &MediaTime) -> (r: bool)
        requires
            self@.wf(),
            other@.wf(),
        ensures
            r == self@.lt_r(other@),
    {
        mul_i64(self.ticks, other.base) < mul_i64(other.ticks, self.base)
    }

    /// `self <= other`, comparing the exact rational values.
    pub fn at_or_before(&self, other: &MediaTime) -> (r: bool)
        requires
            self@.wf(),
            other@.wf(),
        ensures
            r == self@.le_r(other@),
    {
        mul_i64(self.ticks, other.base) <= mul_i64(other.ticks, self.base)
    }

    /// The exact sum `self + d`.  `None` exactly when the sum has no `i64`
    /// representation at the combined base (the one machine limit of this
    /// type); the value itself is never approximated.
    pub fn add_duration(&self, d: &MediaDuration) -> (r: Option<MediaTime>)
        requires
            self@.wf(),
            d@.wf(),
        ensures
            (r matches Some(t) ==> t@.wf() && t@ == sum_repr(self@, d@)
                && t@.eq_r(self@.plus(d@))),
            (r is None) <==> !sum_fits(self@, d@),
    {
        proof {
            lemma_sum_repr_eq(self@, d@);
        }
        if self.base == d.base {
            let s: i128 = self.ticks as i128 + d.ticks as i128;
            if i64::MIN as i128 <= s && s <= i64::MAX as i128 {
                let t = MediaTime { ticks: s as i64, base: self.base };
                proof {
                    let a = self.ticks as int;
                    let b = d.ticks as int;
                    let bs = self.base as int;
                    assert((a + b) * (bs * bs) == (a * bs + b * bs) * bs) by (nonlinear_arith);
                    assert(t@.eq_r(self@.plus(d@)));
                }
                Some(t)
            } else {
                None
            }
        } else {
            let p1: i128 = mul_i64(self.ticks, d.base);
            let p2: i128 = mul_i64(d.ticks, self.base);
            proof {
                lemma_prod_bound(self.ticks as int, d.base as int);
                lemma_prod_bound(d.ticks as int, self.base as int);
            }
            let num: i128 = p1 + p2;
            let den: i128 = mul_i64(self.base, d.base);
            proof {
                assert(den >= 1) by (nonlinear_arith)
                    requires
                        den as int == self.base as int * d.base as int,
                        self.base >= 1,
                        d.base >= 1,
                ;
            }
            if i64::MIN as i128 <= num && num <= i64::MAX as i128 && den <= i64::MAX as i128 {
                Some(MediaTime { ticks: num as i64, base: den as i64 })
            } else {
                None
            }
        }
    }

    /// The exact difference `self - earlier`, as a duration.  `None` exactly
    /// when the difference has no `i64` representation at the combined base.
    pub fn sub_time(&self, earlier: &MediaTime) -> (r: Option<MediaDuration>)
        requires
            self@.wf(),
            earlier@.wf(),
        ensures
            (r matches Some(t) ==> t@.wf() && t@.eq_r(self@.minus(earlier@))),
            self.base == earlier.base ==> (r matches Some(t) ==> t.ticks as int == self.ticks
                - earlier.ticks && t.base == self.base),
            self.base != earlier.base ==> (r matches Some(t) ==> t.ticks as int
                == self@.minus(earlier@).num && t.base as int == self@.minus(earlier@).den),
            self.base == earlier.base ==> ((r is None) <==> !in_i64(self.ticks - earlier.ticks)),
            self.base != earlier.base ==> ((r is None) <==> !(in_i64(self@.minus(earlier@).num)
                && in_i64(self@.minus(earlier@).den))),
    {
        if self.base == earlier.base {
            let s: i128 = self.ticks as i128 - earlier.ticks as i128;
            if i64::MIN as i128 <= s && s <= i64::MAX as i128 {
                let t = MediaDuration { ticks: s as i64, base: self.base };
                proof {
                    let a = self.ticks as int;
                    let b = earlier.ticks as int;
                    let bs = self.base as int;
                    assert((a - b) * (bs * bs) == (a * bs - b * bs) * bs) by (nonlinear_arith);
                    assert(t@.eq_r(self@.minus(earlier@)));
                }
                Some(t)
            } else {
                None
            }
        } else {
            let p1: i128 = mul_i64(self.ticks, earlier.base);
            let p2: i128 = mul_i64(earlier.ticks, self.base);
            proof {
                lemma_prod_bound(self.ticks as int, earlier.base as int);
                lemma_prod_bound(earlier.ticks as int, self.base as int);
            }
            let num: i128 = p1 - p2;
            let den: i128 = mul_i64(self.base, earlier.base);
            proof {
                assert(den >= 1) by (nonlinear_arith)
                    requires
                        den as int == self.base as int * earlier.base as int,
                        self.base >= 1,
                        earlier.base >= 1,
                ;
            }
            if i64::MIN as i128 <= num && num <= i64::MAX as i128 && den <= i64::MAX as i128 {
                Some(MediaDuration { ticks: num as i64, base: den as i64 })
            } else {
                None
            }
        }
    }

    /// The tick count of this instant in `target_base`, rounded toward
    /// negative infinity.  `None` exactly when that count overflows `i64`.
    pub fn round_to_base(&self, target_base: i64) -> (r: Option<i64>)
        requires
            self@.wf(),
            target_base >= 1,
        ensures
            (r matches Some(t) ==> t as int == self@.floor_ticks(target_base as int)),
            (r is None) <==> !in_i64(self@.floor_ticks(target_base as int)),
    {
        let num: i128 = mul_i64(self.ticks, target_base);
        proof {
            lemma_prod_bound(self.ticks as int, target_base as int);
        }
        let q: i128 = floor_div_i128(num, self.base as i128);
        if i64::MIN as i128 <= q && q <= i64::MAX as i128 {
            Some(q as i64)
        } else {
            None
        }
    }
}

impl MediaDuration {
    pub fn new(ticks: i64, base: i64) -> (r: MediaDuration)
        requires
            base >= 1,
        ensures
            r@ == (Rat { num: ticks as int, den: base as int }),
            r@.wf(),
    {
        MediaDuration { ticks, base }
    }

    pub fn ticks(&self) -> (r: i64)
        ensures
            r as int == self@.num,
    {
        self.ticks
    }

    pub fn base(&self) -> (r: i64)
        ensures
            r as int == self@.den,
    {
        self.base
    }
}

} // verus!
