//! Numbers and vectors.

use std::cmp::Ordering;
use std::ops::Neg;
use vstd::arithmetic::power2::{lemma_pow2_pos, lemma_pow2_strictly_increases, lemma_pow2_unfold, pow2};
use vstd::prelude::*;
use vstd::std_specs::cmp::{PartialEqSpecImpl, PartialOrdSpecImpl};
use vstd::std_specs::ops::NegSpecImpl;

verus! {

/// Bit pattern above which the magnitude of a double is no number.
pub const INFINITY_BITS: u64 = 0x7ff0_0000_0000_0000;

/// The bit that carries the sign of a double.
pub const SIGN_BIT: u64 = 0x8000_0000_0000_0000;

/// The weight of the lowest bit of the exponent: two to the power 52.
pub const EXPONENT_UNIT: u64 = 0x0010_0000_0000_0000;

/// The bit pattern of the number one.
pub const ONE_BITS: u64 = 0x3ff0_0000_0000_0000;

/// A double-precision number, held by its bit pattern.
#[derive(Clone, Copy, Debug)]
pub struct Scalar {
    pub bits: u64,
}

impl View for Scalar {
    type V = Option<int>;

    /// The place of the number in the order of the doubles, `None` for what is
    /// no number. Both zeros stand at 0, the positive numbers above it in
    /// rising order up to infinity, the negative numbers mirrored below.
    open spec fn view(&self) -> Option<int> {
        if self.is_nan() {
            None
        } else if self.bits >= SIGN_BIT {
            Some(-(self.bits - SIGN_BIT))
        } else {
            Some(self.bits as int)
        }
    }
}

impl Scalar {
    /// The bits without the sign.
    pub open spec fn magnitude(self) -> int {
        if self.bits >= SIGN_BIT {
            self.bits - SIGN_BIT
        } else {
            self.bits as int
        }
    }

    /// Whether the bits encode no number: the exponent is all ones and the
    /// fraction is not zero.
    pub open spec fn is_nan(self) -> bool {
        self.magnitude() > INFINITY_BITS
    }

    /// Whether the bits encode a number that is not infinite.
    pub open spec fn is_finite(self) -> bool {
        self.magnitude() < INFINITY_BITS
    }

    /// The size of a finite number, counted in steps of the smallest
    /// positive double, two to the power -1074. With `e` the exponent field
    /// and `m` the fraction field, a subnormal number (`e` is 0) measures `m`
    /// steps, and a normal one two to the power 52 plus `m`, doubled `e - 1`
    /// times.
    pub open spec fn steps(self) -> int {
        let e = self.magnitude() / (EXPONENT_UNIT as int);
        let m = self.magnitude() % (EXPONENT_UNIT as int);
        if e == 0 {
            m
        } else {
            (EXPONENT_UNIT + m) * pow2((e - 1) as nat)
        }
    }

    /// The value of a finite number in steps of two to the power -1074.
    pub open spec fn value(self) -> int {
        if self.bits >= SIGN_BIT {
            -self.steps()
        } else {
            self.steps()
        }
    }

    /// `self < other` as doubles compare: false where either is no number.
    pub open spec fn lt(self, other: Scalar) -> bool {
        self@ is Some && other@ is Some && self@->0 < other@->0
    }

    /// `self == other` as doubles compare: false where either is no number,
    /// true of the two zeros.
    pub open spec fn same(self, other: Scalar) -> bool {
        self@ is Some && other@ is Some && self@->0 == other@->0
    }

    /// `self >= other` as doubles compare: false where either is no number.
    pub open spec fn ge(self, other: Scalar) -> bool {
        self@ is Some && other@ is Some && self@->0 >= other@->0
    }

    /// Positive zero.
    pub open spec fn zero() -> Scalar {
        Scalar { bits: 0 }
    }

    /// Positive zero.
    pub fn new_zero() -> (r: Scalar)
        ensures
            r == Scalar::zero(),
    {
        Scalar { bits: 0 }
    }

    /// The number with the sign turned: the same bits but for the sign bit.
    pub open spec fn negated(self) -> Scalar {
        if self.bits >= SIGN_BIT {
            Scalar { bits: (self.bits - SIGN_BIT) as u64 }
        } else {
            Scalar { bits: (self.bits + SIGN_BIT) as u64 }
        }
    }

    /// The number one.
    pub open spec fn one() -> Scalar {
        Scalar { bits: ONE_BITS }
    }

    /// The sign of the number as a number: one where the sign bit is clear,
    /// zero included, and minus one where it is set. What is no number is
    /// its own sign.
    pub open spec fn sign(self) -> Scalar {
        if self.is_nan() {
            self
        } else if self.bits >= SIGN_BIT {
            Scalar::one().negated()
        } else {
            Scalar::one()
        }
    }

    /// The sign of the number: one or minus one, never zero.
    pub fn signum(self) -> (r: Scalar)
        ensures
            r == self.sign(),
    {
        let negative: bool = self.bits >= SIGN_BIT;
        let magnitude: u64 = if negative {
            self.bits - SIGN_BIT
        } else {
            self.bits
        };
        if magnitude > INFINITY_BITS {
            self
        } else if negative {
            Scalar { bits: ONE_BITS + SIGN_BIT }
        } else {
            Scalar { bits: ONE_BITS }
        }
    }

    /// The larger of two places in the order, where one that is missing
    /// gives way to the other.
    pub open spec fn larger(a: Option<int>, b: Option<int>) -> Option<int> {
        match (a, b) {
            (Some(x), Some(y)) => Some(
                if x < y {
                    y
                } else {
                    x
                },
            ),
            (Some(_), None) => a,
            (None, _) => b,
        }
    }

    /// The larger of two numbers. What is no number gives way to the other;
    /// of two equal numbers the first is returned.
    pub fn max(self, other: Scalar) -> (r: Scalar)
        ensures
            r@ == Scalar::larger(self@, other@),
            r == (if self@ is Some && (other@ is None || !self.lt(other)) {
                self
            } else {
                other
            }),
    {
        match (self.rank(), other.rank()) {
            (Some(a), Some(b)) => if a < b {
                other
            } else {
                self
            },
            (Some(_), None) => self,
            (None, _) => other,
        }
    }

    /// The number with the given bit pattern.
    pub fn from_bits(bits: u64) -> (r: Scalar)
        ensures
            r.bits == bits,
    {
        Scalar { bits }
    }

    /// The bit pattern of the number.
    pub fn to_bits(self) -> (r: u64)
        ensures
            r == self.bits,
    {
        self.bits
    }

    /// The place of the number in the order, where it is one.
    pub fn rank(self) -> (r: Option<i64>)
        ensures
            match r {
                Some(k) => self@ == Some(k as int),
                None => self@ is None,
            },
    {
        let negative: bool = self.bits >= SIGN_BIT;
        let magnitude: u64 = if negative {
            self.bits - SIGN_BIT
        } else {
            self.bits
        };
        if magnitude > INFINITY_BITS {
            None
        } else if negative {
            Some(-(magnitude as i64))
        } else {
            Some(magnitude as i64)
        }
    }
}

impl PartialEq for Scalar {
    fn eq(&self, other: &Scalar) -> (r: bool) {
        match (self.rank(), other.rank()) {
            (Some(a), Some(b)) => a == b,
            _ => false,
        }
    }
}

impl PartialEqSpecImpl for Scalar {
    open spec fn obeys_eq_spec() -> bool {
        true
    }

    open spec fn eq_spec(&self, other: &Scalar) -> bool {
        self.same(*other)
    }
}

impl PartialOrd for Scalar {
    fn partial_cmp(&self, other: &Scalar) -> (r: Option<Ordering>) {
        match (self.rank(), other.rank()) {
            (Some(a), Some(b)) => {
                if a < b {
                    Some(Ordering::Less)
                } else if a == b {
                    Some(Ordering::Equal)
                } else {
                    Some(Ordering::Greater)
                }
            },
            _ => None,
        }
    }
}

impl PartialOrdSpecImpl for Scalar {
    open spec fn obeys_partial_cmp_spec() -> bool {
        true
    }

    open spec fn partial_cmp_spec(&self, other: &Scalar) -> Option<Ordering> {
        if self@ is None || other@ is None {
            None
        } else if self@->0 < other@->0 {
            Some(Ordering::Less)
        } else if self@->0 == other@->0 {
            Some(Ordering::Equal)
        } else {
            Some(Ordering::Greater)
        }
    }
}

impl Neg for Scalar {
    type Output = Scalar;

    fn neg(self) -> (r: Scalar) {
        if self.bits >= SIGN_BIT {
            Scalar { bits: self.bits - SIGN_BIT }
        } else {
            Scalar { bits: self.bits + SIGN_BIT }
        }
    }
}

impl NegSpecImpl for Scalar {
    open spec fn obeys_neg_spec() -> bool {
        true
    }

    open spec fn neg_req(self) -> bool {
        true
    }

    open spec fn neg_spec(self) -> Scalar {
        self.negated()
    }
}

/// The numbers are totally ordered: of two numbers either one is below the
/// other or they are equal, never two of these at once, and what is below
/// a number is below all that the number is below.
pub proof fn lemma_order_total(a: Scalar, b: Scalar, c: Scalar)
    requires
        a@ is Some,
        b@ is Some,
        c@ is Some,
    ensures
        a.lt(b) || a.same(b) || b.lt(a),
        !(a.lt(b) && b.lt(a)),
        !(a.lt(b) && a.same(b)),
        a.lt(b) && b.lt(c) ==> a.lt(c),
        a.ge(b) <==> !a.lt(b),
        a.same(a),
{
}

/// What is no number is neither below, nor equal to, nor above anything,
/// itself included.
pub proof fn lemma_nan_unordered(a: Scalar, b: Scalar)
    requires
        a@ is None,
    ensures
        !a.lt(b),
        !b.lt(a),
        !a.same(b),
        !a.ge(b),
        !b.ge(a),
{
}

/// Of two finite numbers without their signs, the one with the larger bit
/// pattern is the larger.
proof fn lemma_steps_increase(a: Scalar, b: Scalar)
    requires
        a.magnitude() < b.magnitude(),
    ensures
        a.steps() < b.steps(),
{
    let unit = EXPONENT_UNIT as int;
    let (ea, ma) = (a.magnitude() / unit, a.magnitude() % unit);
    let (eb, mb) = (b.magnitude() / unit, b.magnitude() % unit);
    assert(0 <= ea <= eb && 0 <= ma < unit && 0 <= mb < unit);
    assert(ea == eb ==> ma < mb);
    if eb > 0 {
        let pb = pow2((eb - 1) as nat);
        lemma_pow2_pos((eb - 1) as nat);
        assert(unit * pb <= (unit + mb) * pb) by (nonlinear_arith)
            requires
                0 < unit,
                0 <= mb,
                0 < pb,
        ;
        if ea == eb {
            assert((unit + ma) * pb < (unit + mb) * pb) by (nonlinear_arith)
                requires
                    ma < mb,
                    0 < pb,
            ;
        } else if ea == 0 {
            assert(unit <= unit * pb) by (nonlinear_arith)
                requires
                    0 < unit,
                    0 < pb,
            ;
        } else {
            let pa = pow2((ea - 1) as nat);
            lemma_pow2_pos((ea - 1) as nat);
            lemma_pow2_unfold(ea as nat);
            if ea < eb - 1 {
                lemma_pow2_strictly_increases(ea as nat, (eb - 1) as nat);
            }
            assert(2 * pa <= pb);
            assert((unit + ma) * pa < unit * pb) by (nonlinear_arith)
                requires
                    0 <= ma < unit,
                    0 < pa,
                    2 * pa <= pb,
            ;
        }
    }
}

/// The order of the numbers is the order of their values: of two finite
/// numbers one stands below the other exactly where its value is smaller,
/// and at the same place exactly where the values are equal. Minus
/// infinity stands below every finite number and infinity above.
pub proof fn lemma_order_is_by_value(a: Scalar, b: Scalar)
    requires
        a.is_finite(),
        b.is_finite(),
    ensures
        a.lt(b) <==> a.value() < b.value(),
        a.same(b) <==> a.value() == b.value(),
        a.lt(Scalar { bits: INFINITY_BITS }),
        (Scalar { bits: (INFINITY_BITS + SIGN_BIT) as u64 }).lt(a),
        Scalar::zero().value() == 0,
        Scalar::one().value() == pow2(1074),
{
    if a.magnitude() < b.magnitude() {
        lemma_steps_increase(a, b);
    } else if b.magnitude() < a.magnitude() {
        lemma_steps_increase(b, a);
    }
    let nought = Scalar { bits: 0 };
    if 0 < a.magnitude() {
        lemma_steps_increase(nought, a);
    }
    if 0 < b.magnitude() {
        lemma_steps_increase(nought, b);
    }
    assert(nought.steps() == 0);
    assert(Scalar::one().magnitude() / (EXPONENT_UNIT as int) == 1023);
    assert(Scalar::one().magnitude() % (EXPONENT_UNIT as int) == 0);
    assert(Scalar::one().steps() == EXPONENT_UNIT * pow2(1022));
    assert(EXPONENT_UNIT == pow2(52)) by {
        vstd::arithmetic::power2::lemma2_to64_rest();
    }
    vstd::arithmetic::power2::lemma_pow2_adds(52, 1022);
}

/// Turning the sign of a number mirrors its place in the order about zero,
/// leaves what is no number no number, and is undone by turning it again.
pub proof fn lemma_negated(a: Scalar)
    ensures
        a.negated()@ == (match a@ {
            Some(k) => Some(-k),
            None => None,
        }),
        a.negated().negated() == a,
{
}

/// The sign of a number is one or minus one, and no number has the sign
/// zero: positive zero has the sign one. The sign of a number and the
/// number never lie on opposite sides of zero.
pub proof fn lemma_sign(a: Scalar)
    requires
        a@ is Some,
    ensures
        a.sign() == Scalar::one() || a.sign() == Scalar::one().negated(),
        !a.sign().same(Scalar::zero()),
        Scalar::zero().sign() == Scalar::one(),
        Scalar::zero().lt(a) ==> a.sign() == Scalar::one(),
        a.lt(Scalar::zero()) ==> a.sign() == Scalar::one().negated(),
{
}

/// Construction from one value or from several.
pub trait New<T>: Sized {
    fn new(v: T) -> Self;
}

/// A vector of three numbers.
#[derive(Clone, Copy, Debug)]
pub struct Vec3 {
    pub x: Scalar,
    pub y: Scalar,
    pub z: Scalar,
}

impl New<Scalar> for Vec3 {
    /// The vector whose three components are all `v`.
    fn new(v: Scalar) -> (r: Vec3)
        ensures
            r == (Vec3 { x: v, y: v, z: v }),
    {
        Vec3 { x: v, y: v, z: v }
    }
}

impl New<(Scalar, Scalar, Scalar)> for Vec3 {
    /// The vector with the components `v.0`, `v.1`, `v.2`.
    fn new(v: (Scalar, Scalar, Scalar)) -> (r: Vec3)
        ensures
            r == (Vec3 { x: v.0, y: v.1, z: v.2 }),
    {
        Vec3 { x: v.0, y: v.1, z: v.2 }
    }
}

impl Default for Vec3 {
    /// The vector of three positive zeros.
    fn default() -> (r: Vec3)
        ensures
            r == (Vec3 { x: Scalar { bits: 0 }, y: Scalar { bits: 0 }, z: Scalar { bits: 0 } }),
    {
        Vec3 { x: Scalar { bits: 0 }, y: Scalar { bits: 0 }, z: Scalar { bits: 0 } }
    }
}

impl Vec3 {
    /// The vector of three positive zeros.
    pub open spec fn zero() -> Vec3 {
        Vec3 { x: Scalar::zero(), y: Scalar::zero(), z: Scalar::zero() }
    }

    /// The vector with the sign of each component turned.
    pub open spec fn negated(self) -> Vec3 {
        Vec3 { x: self.x.negated(), y: self.y.negated(), z: self.z.negated() }
    }

    /// Component by component equality of doubles: no tolerance, the two
    /// zeros equal, and nothing equal to what is no number.
    pub open spec fn same(self, other: Vec3) -> bool {
        self.x.same(other.x) && self.y.same(other.y) && self.z.same(other.z)
    }
}

impl Neg for Vec3 {
    type Output = Vec3;

    fn neg(self) -> (r: Vec3) {
        Vec3 { x: self.x.neg(), y: self.y.neg(), z: self.z.neg() }
    }
}

impl NegSpecImpl for Vec3 {
    open spec fn obeys_neg_spec() -> bool {
        true
    }

    open spec fn neg_req(self) -> bool {
        true
    }

    open spec fn neg_spec(self) -> Vec3 {
        self.negated()
    }
}

impl PartialEq for Vec3 {
    fn eq(&self, other: &Vec3) -> (r: bool) {
        self.x == other.x && self.y == other.y && self.z == other.z
    }
}

impl PartialEqSpecImpl for Vec3 {
    open spec fn obeys_eq_spec() -> bool {
        true
    }

    open spec fn eq_spec(&self, other: &Vec3) -> bool {
        self.same(*other)
    }
}

} // verus!
