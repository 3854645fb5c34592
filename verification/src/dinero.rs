//! Fixed-point amounts: `Money` and `Decimal4` hold an `i64` scaled by ten thousand, so
//! `1.5` is stored as `15_000`. Every operation either gives the exact scaled result or reports an
//! overflow; nothing is ever computed in floating point.

use vstd::prelude::*;
use crate::texto::{escribir_escalado, texto_escalado};

verus! {

/// Ten thousand: four decimal places.
pub const ESCALA: i64 = 10_000;

/// Whether a mathematical integer fits in an `i64`.
pub open spec fn cabe_i64(x: int) -> bool {
    i64::MIN <= x <= i64::MAX
}

/// Division of `n` by a positive `d`, rounding half away from zero.
pub open spec fn div_redondeo(n: int, d: int) -> int
    recommends
        d > 0,
{
    if n >= 0 {
        n / d + if 2 * (n % d) >= d { 1int } else { 0int }
    } else {
        -((-n) / d + if 2 * ((-n) % d) >= d { 1int } else { 0int })
    }
}

/// The bound within which scaled products are computed on `i128`.
pub open spec fn cota_i128() -> int {
    0x4000_0000_0000_0000_0000_0000_0000_0000
}

/// The error of an arithmetic operation on amounts.
#[derive(Debug, Clone, Copy, PartialEq, Eq, Structural)]
pub enum DomainError {
    /// The exact result does not fit in the scaled `i64`.
    MoneyOverflow,
    /// A division by zero was asked for.
    DivisionPorCero,
}

/// An amount of money with four decimal places.
#[derive(Debug, Clone, Copy, PartialEq, Eq, Structural)]
pub struct Money {
    pub raw: i64,
}

/// A dimensionless quantity with four decimal places: percentages, day counts, multipliers.
#[derive(Debug, Clone, Copy, PartialEq, Eq, Structural)]
pub struct Decimal4 {
    pub raw: i64,
}

impl View for Money {
    type V = int;

    open spec fn view(&self) -> int {
        self.raw as int
    }
}

impl View for Decimal4 {
    type V = int;

    open spec fn view(&self) -> int {
        self.raw as int
    }
}

/// `a * b`, both scaled, back at scale: the exact product rounded half away from zero.
pub open spec fn producto_escalado(a: int, b: int) -> int {
    div_redondeo(a * b, ESCALA as int)
}

/// `a` percent of `b`, both scaled: `b * a / 100`, rounded half away from zero.
pub open spec fn porcentaje_de(monto: int, pct: int) -> int {
    div_redondeo(monto * pct, 100 * ESCALA as int)
}

/// The scaled quotient `a / b`, rounded half away from zero (`b` nonzero).
pub open spec fn cociente_escalado(a: int, b: int) -> int
    recommends
        b != 0,
{
    if b > 0 {
        div_redondeo(a * ESCALA as int, b)
    } else {
        div_redondeo(-a * ESCALA as int, -b)
    }
}

/// The sum of a sequence of scaled amounts.
pub open spec fn suma(s: Seq<int>) -> int
    decreases s.len(),
{
    if s.len() == 0 {
        0
    } else {
        suma(s.drop_last()) + s.last()
    }
}

/// The scaled values of a sequence of amounts.
pub open spec fn valores(s: Seq<Money>) -> Seq<int> {
    s.map_values(|m: Money| m@)
}

/// The checked sum: nothing when it leaves the `i64` range.
pub open spec fn suma_chk(a: int, b: int) -> Option<int> {
    if cabe_i64(a + b) {
        Some(a + b)
    } else {
        None
    }
}

/// The checked difference.
pub open spec fn resta_chk(a: int, b: int) -> Option<int> {
    if cabe_i64(a - b) {
        Some(a - b)
    } else {
        None
    }
}

/// The checked scaled product, rounded half away from zero.
pub open spec fn mul_chk(a: int, b: int) -> Option<int> {
    if cabe_i64(producto_escalado(a, b)) {
        Some(producto_escalado(a, b))
    } else {
        None
    }
}

/// The checked percentage `pct` of `monto`.
pub open spec fn pct_chk(monto: int, pct: int) -> Option<int> {
    if cabe_i64(porcentaje_de(monto, pct)) {
        Some(porcentaje_de(monto, pct))
    } else {
        None
    }
}

/// The checked sum of a sequence, accumulated left to right: nothing as soon as a partial sum
/// leaves the `i64` range.
pub open spec fn suma_chk_seq(s: Seq<int>) -> Option<int>
    decreases s.len(),
{
    if s.len() == 0 {
        Some(0)
    } else {
        match suma_chk_seq(s.drop_last()) {
            Some(x) => suma_chk(x, s.last()),
            None => None,
        }
    }
}

/// `div_redondeo` computed on `i128`.
pub fn dividir_redondeando(n: i128, d: i128) -> (r: i128)
    requires
        d > 0,
        -cota_i128() <= n <= cota_i128(),
        d <= 0x1_0000_0000_0000_0000,
    ensures
        r == div_redondeo(n as int, d as int),
{
    if n >= 0 {
        let q = n / d;
        let m = n % d;
        assert(q <= n) by (nonlinear_arith)
            requires
                q == n / d,
                n >= 0,
                d > 0,
        ;
        if 2 * m >= d {
            q + 1
        } else {
            q
        }
    } else {
        let a = -n;
        let q = a / d;
        let m = a % d;
        assert(q <= a) by (nonlinear_arith)
            requires
                q == a / d,
                a >= 0,
                d > 0,
        ;
        if 2 * m >= d {
            -(q + 1)
        } else {
            -q
        }
    }
}

/// The exact product of two `i64` values, which always fits in the `i128` bound.
pub fn producto_i128(a: i64, b: i64) -> (p: i128)
    ensures
        p == a as int * b as int,
        -cota_i128() <= p <= cota_i128(),
{
    assert(-cota_i128() <= a as int * b as int <= cota_i128()) by (nonlinear_arith)
        requires
            i64::MIN <= a <= i64::MAX,
            i64::MIN <= b <= i64::MAX,
    ;
    a as i128 * b as i128
}

impl Money {
    pub fn zero() -> (m: Money)
        ensures
            m@ == 0,
    {
        Money { raw: 0 }
    }

    pub fn from_raw(raw: i64) -> (m: Money)
        ensures
            m@ == raw,
    {
        Money { raw }
    }

    /// Whole units: `from_units(3)` is `3.0000`.
    pub fn from_units(units: i64) -> (r: Result<Money, DomainError>)
        ensures
            cabe_i64(units * ESCALA) ==> r == Ok::<Money, DomainError>(Money { raw: (units * ESCALA) as i64 }),
            !cabe_i64(units * ESCALA) ==> r == Err::<Money, DomainError>(DomainError::MoneyOverflow),
    {
        let p: i128 = producto_i128(units, ESCALA);
        if p < i64::MIN as i128 || p > i64::MAX as i128 {
            Err(DomainError::MoneyOverflow)
        } else {
            Ok(Money { raw: p as i64 })
        }
    }

    pub fn raw(&self) -> (r: i64)
        ensures
            r == self.raw,
    {
        self.raw
    }

    /// The amount with its four decimals, as `1500.0000`.
    pub fn to_decimal_string(&self) -> (s: String)
        ensures
            s@ == texto_escalado(self@),
    {
        escribir_escalado(self.raw)
    }

    pub fn is_zero(&self) -> (b: bool)
        ensures
            b == (self.raw == 0),
    {
        self.raw == 0
    }

    pub fn is_positive(&self) -> (b: bool)
        ensures
            b == (self.raw > 0),
    {
        self.raw > 0
    }

    pub fn is_negative(&self) -> (b: bool)
        ensures
            b == (self.raw < 0),
    {
        self.raw < 0
    }

    pub fn checked_add(&self, other: Money) -> (r: Result<Money, DomainError>)
        ensures
            cabe_i64(self@ + other@) ==> r == Ok::<Money, DomainError>(Money { raw: (self@ + other@) as i64 }),
            !cabe_i64(self@ + other@) ==> r == Err::<Money, DomainError>(DomainError::MoneyOverflow),
    {
        match self.raw.checked_add(other.raw) {
            Some(v) => Ok(Money { raw: v }),
            None => Err(DomainError::MoneyOverflow),
        }
    }

    pub fn checked_sub(&self, other: Money) -> (r: Result<Money, DomainError>)
        ensures
            cabe_i64(self@ - other@) ==> r == Ok::<Money, DomainError>(Money { raw: (self@ - other@) as i64 }),
            !cabe_i64(self@ - other@) ==> r == Err::<Money, DomainError>(DomainError::MoneyOverflow),
    {
        match self.raw.checked_sub(other.raw) {
            Some(v) => Ok(Money { raw: v }),
            None => Err(DomainError::MoneyOverflow),
        }
    }

    /// The negated amount; `i64::MIN` has no negation and saturates.
    pub fn neg(&self) -> (r: Money)
        ensures
            self.raw > i64::MIN ==> r@ == -self@,
            self.raw == i64::MIN ==> r@ == i64::MAX,
    {
        if self.raw == i64::MIN {
            Money { raw: i64::MAX }
        } else {
            Money { raw: -self.raw }
        }
    }

    /// The absolute value; `i64::MIN` saturates.
    pub fn abs(&self) -> (r: Money)
        ensures
            self.raw >= 0 ==> r@ == self@,
            i64::MIN < self.raw < 0 ==> r@ == -self@,
            self.raw == i64::MIN ==> r@ == i64::MAX,
    {
        if self.raw >= 0 {
            *self
        } else {
            self.neg()
        }
    }

    pub fn min(&self, other: Money) -> (r: Money)
        ensures
            r@ == if self@ <= other@ { self@ } else { other@ },
    {
        if self.raw <= other.raw {
            *self
        } else {
            other
        }
    }

    /// `pct` percent of this amount, rounded half away from zero.
    pub fn percent(&self, pct: Decimal4) -> (r: Result<Money, DomainError>)
        ensures
            cabe_i64(porcentaje_de(self@, pct@)) ==> r == Ok::<Money, DomainError>(Money { raw: porcentaje_de(self@, pct@) as i64 }),
            !cabe_i64(porcentaje_de(self@, pct@)) ==> r == Err::<Money, DomainError>(DomainError::MoneyOverflow),
    {
        let p: i128 = producto_i128(self.raw, pct.raw);
        let q = dividir_redondeando(p, 100 * ESCALA as i128);
        if q < i64::MIN as i128 || q > i64::MAX as i128 {
            Err(DomainError::MoneyOverflow)
        } else {
            Ok(Money { raw: q as i64 })
        }
    }

    /// This amount times a quantity, rounded half away from zero.
    pub fn checked_mul(&self, factor: Decimal4) -> (r: Result<Money, DomainError>)
        ensures
            cabe_i64(producto_escalado(self@, factor@)) ==> r == Ok::<Money, DomainError>(Money { raw: producto_escalado(self@, factor@) as i64 }),
            !cabe_i64(producto_escalado(self@, factor@)) ==> r == Err::<Money, DomainError>(DomainError::MoneyOverflow),
    {
        let p: i128 = producto_i128(self.raw, factor.raw);
        let q = dividir_redondeando(p, ESCALA as i128);
        if q < i64::MIN as i128 || q > i64::MAX as i128 {
            Err(DomainError::MoneyOverflow)
        } else {
            Ok(Money { raw: q as i64 })
        }
    }

    /// The sum of the amounts, accumulated in order; an overflow as soon as a partial sum leaves
    /// the `i64` range.
    pub fn try_sum(montos: &Vec<Money>) -> (r: Result<Money, DomainError>)
        ensures
            match suma_chk_seq(valores(montos@)) {
                Some(t) => r == Ok::<Money, DomainError>(Money { raw: t as i64 }),
                None => r == Err::<Money, DomainError>(DomainError::MoneyOverflow),
            },
    {
        let mut total: i64 = 0;
        let mut i: usize = 0;
        assert(valores(montos@.take(0)) =~= Seq::<int>::empty());
        while i < montos.len()
            invariant
                i <= montos@.len(),
                suma_chk_seq(valores(montos@.take(i as int))) == Some(total as int),
            decreases montos@.len() - i,
        {
            let ghost antes = valores(montos@.take(i as int));
            assert(valores(montos@.take(i + 1)).drop_last() =~= antes);
            assert(valores(montos@.take(i + 1)).last() == montos@[i as int]@);
            match total.checked_add(montos[i].raw) {
                Some(v) => {
                    total = v;
                },
                None => {
                    proof {
                        assert(valores(montos@).take(i + 1) =~= valores(montos@.take(i + 1)));
                        assert(suma_chk_seq(valores(montos@.take(i + 1))) is None);
                        lema_suma_chk_prefijo(valores(montos@), i + 1);
                    }
                    return Err(DomainError::MoneyOverflow);
                },
            }
            i = i + 1;
        }
        assert(montos@.take(montos@.len() as int) =~= montos@);
        Ok(Money { raw: total })
    }
}

/// Once a prefix overflows, the whole sum does.
pub proof fn lema_suma_chk_prefijo(s: Seq<int>, k: int)
    requires
        0 <= k <= s.len(),
        suma_chk_seq(s.take(k)) is None,
    ensures
        suma_chk_seq(s) is None,
    decreases s.len() - k,
{
    if k < s.len() {
        assert(s.take(k + 1).drop_last() =~= s.take(k));
        lema_suma_chk_prefijo(s, k + 1);
    } else {
        assert(s.take(k) =~= s);
    }
}

impl Decimal4 {
    pub fn zero() -> (d: Decimal4)
        ensures
            d@ == 0,
    {
        Decimal4 { raw: 0 }
    }

    pub fn one() -> (d: Decimal4)
        ensures
            d@ == 10_000,
    {
        Decimal4 { raw: 10_000 }
    }

    pub fn half() -> (d: Decimal4)
        ensures
            d@ == 5_000,
    {
        Decimal4 { raw: 5_000 }
    }

    pub fn hundred() -> (d: Decimal4)
        ensures
            d@ == 1_000_000,
    {
        Decimal4 { raw: 1_000_000 }
    }

    pub fn from_raw(raw: i64) -> (d: Decimal4)
        ensures
            d@ == raw,
    {
        Decimal4 { raw }
    }

    /// Whole units: `from_units(10)` is `10.0000`.
    pub fn from_units(units: i64) -> (r: Result<Decimal4, DomainError>)
        ensures
            cabe_i64(units * ESCALA) ==> r == Ok::<Decimal4, DomainError>(Decimal4 { raw: (units * ESCALA) as i64 }),
            !cabe_i64(units * ESCALA) ==> r == Err::<Decimal4, DomainError>(DomainError::MoneyOverflow),
    {
        let p: i128 = producto_i128(units, ESCALA);
        if p < i64::MIN as i128 || p > i64::MAX as i128 {
            Err(DomainError::MoneyOverflow)
        } else {
            Ok(Decimal4 { raw: p as i64 })
        }
    }

    pub fn raw(&self) -> (r: i64)
        ensures
            r == self.raw,
    {
        self.raw
    }

    /// The quantity with its four decimals, as `60.0000`.
    pub fn to_decimal_string(&self) -> (s: String)
        ensures
            s@ == texto_escalado(self@),
    {
        escribir_escalado(self.raw)
    }

    pub fn is_positive(&self) -> (b: bool)
        ensures
            b == (self.raw > 0),
    {
        self.raw > 0
    }

    /// A percentage between zero and one hundred, both included.
    pub fn is_valid_percentage(&self) -> (b: bool)
        ensures
            b == (0 <= self.raw <= 1_000_000),
    {
        0 <= self.raw && self.raw <= 1_000_000
    }

    pub fn checked_add(&self, other: Decimal4) -> (r: Result<Decimal4, DomainError>)
        ensures
            cabe_i64(self@ + other@) ==> r == Ok::<Decimal4, DomainError>(Decimal4 { raw: (self@ + other@) as i64 }),
            !cabe_i64(self@ + other@) ==> r == Err::<Decimal4, DomainError>(DomainError::MoneyOverflow),
    {
        match self.raw.checked_add(other.raw) {
            Some(v) => Ok(Decimal4 { raw: v }),
            None => Err(DomainError::MoneyOverflow),
        }
    }

    pub fn checked_sub(&self, other: Decimal4) -> (r: Result<Decimal4, DomainError>)
        ensures
            cabe_i64(self@ - other@) ==> r == Ok::<Decimal4, DomainError>(Decimal4 { raw: (self@ - other@) as i64 }),
            !cabe_i64(self@ - other@) ==> r == Err::<Decimal4, DomainError>(DomainError::MoneyOverflow),
    {
        match self.raw.checked_sub(other.raw) {
            Some(v) => Ok(Decimal4 { raw: v }),
            None => Err(DomainError::MoneyOverflow),
        }
    }

    pub fn checked_mul(&self, other: Decimal4) -> (r: Result<Decimal4, DomainError>)
        ensures
            cabe_i64(producto_escalado(self@, other@)) ==> r == Ok::<Decimal4, DomainError>(Decimal4 { raw: producto_escalado(self@, other@) as i64 }),
            !cabe_i64(producto_escalado(self@, other@)) ==> r == Err::<Decimal4, DomainError>(DomainError::MoneyOverflow),
    {
        let p: i128 = producto_i128(self.raw, other.raw);
        let q = dividir_redondeando(p, ESCALA as i128);
        if q < i64::MIN as i128 || q > i64::MAX as i128 {
            Err(DomainError::MoneyOverflow)
        } else {
            Ok(Decimal4 { raw: q as i64 })
        }
    }

    /// The quotient `self / other`, rounded half away from zero.
    pub fn checked_div(&self, other: Decimal4) -> (r: Result<Decimal4, DomainError>)
        ensures
            other.raw == 0 ==> r == Err::<Decimal4, DomainError>(DomainError::DivisionPorCero),
            other.raw != 0 && cabe_i64(cociente_escalado(self@, other@)) ==> r == Ok::<Decimal4, DomainError>(Decimal4 { raw: cociente_escalado(self@, other@) as i64 }),
            other.raw != 0 && !cabe_i64(cociente_escalado(self@, other@)) ==> r == Err::<Decimal4, DomainError>(DomainError::MoneyOverflow),
    {
        if other.raw == 0 {
            return Err(DomainError::DivisionPorCero);
        }
        let n: i128 = producto_i128(self.raw, ESCALA);
        let mut num: i128 = n;
        let mut den: i128 = other.raw as i128;
        if den < 0 {
            num = -n;
            den = -den;
        }
        let q = dividir_redondeando(num, den);
        if q < i64::MIN as i128 || q > i64::MAX as i128 {
            Err(DomainError::MoneyOverflow)
        } else {
            Ok(Decimal4 { raw: q as i64 })
        }
    }
}

} // verus!
