//! Exact rational numbers kept in lowest terms.

use crate::arith::{
    gcd, gcd_u128, lemma_divisor_le, lemma_gcd_divides, lemma_gcd_quotients_coprime,
};
use vstd::arithmetic::div_mod::{lemma_div_basics, lemma_div_non_zero, lemma_div_nonincreasing};
use vstd::prelude::*;

verus! {

/// Absolute value of a mathematical integer, as a natural number.
pub open spec fn nat_abs(x: int) -> nat {
    if x < 0 {
        (-x) as nat
    } else {
        x as nat
    }
}

/// Whether the fraction `n / d` is negative.
pub open spec fn fraction_is_neg(n: int, d: int) -> bool {
    n != 0 && ((n < 0) != (d < 0))
}

/// Magnitude of the numerator of `n / d` in lowest terms.
pub open spec fn reduced_numer_mag(n: int, d: int) -> nat {
    nat_abs(n) / gcd(nat_abs(n), nat_abs(d))
}

/// Magnitude of the denominator of `n / d` in lowest terms.
pub open spec fn reduced_denom_mag(n: int, d: int) -> nat {
    nat_abs(d) / gcd(nat_abs(n), nat_abs(d))
}

/// Numerator of `n / d` in lowest terms, with the sign carried by the
/// numerator and the denominator kept positive.
pub open spec fn reduced_numer(n: int, d: int) -> int {
    if fraction_is_neg(n, d) {
        -(reduced_numer_mag(n, d) as int)
    } else {
        reduced_numer_mag(n, d) as int
    }
}

/// Denominator of `n / d` in lowest terms; always positive when `d != 0`.
pub open spec fn reduced_denom(n: int, d: int) -> int {
    reduced_denom_mag(n, d) as int
}

/// Whether the lowest-terms form of `n / d` fits in the fields of [`Ratio`].
pub open spec fn reduction_fits(n: int, d: int) -> bool {
    reduced_numer_mag(n, d) <= i64::MAX && reduced_denom_mag(n, d) <= i64::MAX
}

/// An exact rational number.
///
/// Values built by [`Ratio::new`] or by the arithmetic methods satisfy
/// [`Ratio::wf`]: the denominator is positive and the two fields share no
/// common factor, so equal rationals are equal field-for-field.
#[derive(Debug, Copy, Clone, Eq, PartialEq, Structural)]
pub struct Ratio {
    /// numerator
    pub numer: i64,
    /// denominator
    pub denom: i64,
}

impl Ratio {
    /// The stored fraction is in lowest terms with a positive denominator,
    /// and its magnitudes leave room for negation.
    pub open spec fn wf(self) -> bool {
        &&& self.denom > 0
        &&& self.numer > i64::MIN
        &&& gcd(nat_abs(self.numer as int), self.denom as nat) == 1
    }

    /// Builds the reduced fraction `numer / denom`.
    ///
    /// The bounds on the arguments keep every intermediate magnitude
    /// representable; the reduced parts then always fit.
    pub fn new(numer: i64, denom: i64) -> (r: Ratio)
        requires
            denom != 0,
            numer > i64::MIN,
            denom > i64::MIN,
        ensures
            r.wf(),
            r.numer as int == reduced_numer(numer as int, denom as int),
            r.denom as int == reduced_denom(numer as int, denom as int),
    {
        let neg = (numer < 0) != (denom < 0);
        let na: u128 = (if numer < 0 {
            -numer
        } else {
            numer
        }) as u128;
        let da: u128 = (if denom < 0 {
            -denom
        } else {
            denom
        }) as u128;
        proof {
            lemma_gcd_divides(na as nat, da as nat);
            lemma_div_nonincreasing(na as int, gcd(na as nat, da as nat) as int);
            lemma_div_nonincreasing(da as int, gcd(na as nat, da as nat) as int);
            assert(nat_abs(numer as int) == na);
            assert(nat_abs(denom as int) == da);
        }
        let r = reduce_mag(neg, na, da);
        r.unwrap()
    }
}

/// A well-formed ratio with numerator zero is exactly `0 / 1`: zero
/// shares a factor with every other denominator.
pub proof fn lemma_zero_has_unit_denominator(r: Ratio)
    requires
        r.wf(),
        r.numer == 0,
    ensures
        r.denom == 1,
{
    let d = r.denom as nat;
    vstd::arithmetic::div_mod::lemma_small_mod(0nat, d);
    assert(gcd(0nat, d) == gcd(d, 0nat % d));
}

/// An integer fraction `n / 1` is already in lowest terms.
pub proof fn lemma_reduce_int(n: int)
    ensures
        reduced_numer_mag(n, 1) == nat_abs(n),
        reduced_denom_mag(n, 1) == 1,
        reduced_numer(n, 1) == n,
        reduced_denom(n, 1) == 1,
{
    crate::arith::lemma_gcd_one(nat_abs(n));
    lemma_div_basics(nat_abs(n) as int);
    lemma_div_basics(1);
}

/// Bound on a product of two values from the fields of well-formed ratios.
proof fn lemma_field_prod_bound(a: int, b: int)
    requires
        -(i64::MAX as int) <= a <= i64::MAX as int,
        -(i64::MAX as int) <= b <= i64::MAX as int,
    ensures
        -0x3FFF_FFFF_FFFF_FFFF_0000_0000_0000_0001 <= a * b
            <= 0x3FFF_FFFF_FFFF_FFFF_0000_0000_0000_0001,
{
    assert(-0x3FFF_FFFF_FFFF_FFFF_0000_0000_0000_0001 <= a * b
        <= 0x3FFF_FFFF_FFFF_FFFF_0000_0000_0000_0001) by (nonlinear_arith)
        requires
            -0x7FFF_FFFF_FFFF_FFFF <= a <= 0x7FFF_FFFF_FFFF_FFFF,
            -0x7FFF_FFFF_FFFF_FFFF <= b <= 0x7FFF_FFFF_FFFF_FFFF,
    ;
}

/// Bound on the product of a well-formed field and an arbitrary `i64`.
proof fn lemma_scalar_prod_bound(a: int, b: int)
    requires
        -(i64::MAX as int) <= a <= i64::MAX as int,
        i64::MIN as int <= b <= i64::MAX as int,
    ensures
        -0x4000_0000_0000_0000_0000_0000_0000_0000 <= a * b
            <= 0x4000_0000_0000_0000_0000_0000_0000_0000,
{
    assert(-0x4000_0000_0000_0000_0000_0000_0000_0000 <= a * b
        <= 0x4000_0000_0000_0000_0000_0000_0000_0000) by (nonlinear_arith)
        requires
            -0x7FFF_FFFF_FFFF_FFFF <= a <= 0x7FFF_FFFF_FFFF_FFFF,
            -0x8000_0000_0000_0000 <= b <= 0x7FFF_FFFF_FFFF_FFFF,
    ;
}

impl Ratio {
    /// Sum in lowest terms; `None` exactly when the reduced result does not
    /// fit in the field type.
    pub fn checked_add(self, rhs: Ratio) -> (r: Option<Ratio>)
        requires
            self.wf(),
            rhs.wf(),
        ensures
            ({
                let n = self.numer * rhs.denom + rhs.numer * self.denom;
                let d = self.denom * rhs.denom;
                &&& (r is Some <==> reduction_fits(n, d))
                &&& (r matches Some(v) ==> v.wf() && v.numer as int == reduced_numer(n, d)
                    && v.denom as int == reduced_denom(n, d))
            }),
    {
        let n1 = self.numer as i128;
        let d1 = self.denom as i128;
        let n2 = rhs.numer as i128;
        let d2 = rhs.denom as i128;
        proof {
            lemma_field_prod_bound(n1 as int, d2 as int);
            lemma_field_prod_bound(n2 as int, d1 as int);
            lemma_field_prod_bound(d1 as int, d2 as int);
        }
        let n = n1 * d2 + n2 * d1;
        let d = d1 * d2;
        proof {
            assert(d > 0) by (nonlinear_arith)
                requires
                    d1 > 0,
                    d2 > 0,
                    d == d1 * d2,
            ;
        }
        reduce_signed(n, d)
    }

    /// Difference in lowest terms; `None` exactly when the reduced result
    /// does not fit in the field type.
    pub fn checked_sub(self, rhs: Ratio) -> (r: Option<Ratio>)
        requires
            self.wf(),
            rhs.wf(),
        ensures
            ({
                let n = self.numer * rhs.denom - rhs.numer * self.denom;
                let d = self.denom * rhs.denom;
                &&& (r is Some <==> reduction_fits(n, d))
                &&& (r matches Some(v) ==> v.wf() && v.numer as int == reduced_numer(n, d)
                    && v.denom as int == reduced_denom(n, d))
            }),
    {
        let n1 = self.numer as i128;
        let d1 = self.denom as i128;
        let n2 = rhs.numer as i128;
        let d2 = rhs.denom as i128;
        proof {
            lemma_field_prod_bound(n1 as int, d2 as int);
            lemma_field_prod_bound(n2 as int, d1 as int);
            lemma_field_prod_bound(d1 as int, d2 as int);
        }
        let n = n1 * d2 - n2 * d1;
        let d = d1 * d2;
        proof {
            assert(d > 0) by (nonlinear_arith)
                requires
                    d1 > 0,
                    d2 > 0,
                    d == d1 * d2,
            ;
        }
        reduce_signed(n, d)
    }

    /// Product in lowest terms; `None` exactly when the reduced result does
    /// not fit in the field type.
    pub fn checked_mul(self, rhs: Ratio) -> (r: Option<Ratio>)
        requires
            self.wf(),
            rhs.wf(),
        ensures
            ({
                let n = self.numer * rhs.numer;
                let d = self.denom * rhs.denom;
                &&& (r is Some <==> reduction_fits(n, d))
                &&& (r matches Some(v) ==> v.wf() && v.numer as int == reduced_numer(n, d)
                    && v.denom as int == reduced_denom(n, d))
            }),
    {
        let n1 = self.numer as i128;
        let d1 = self.denom as i128;
        let n2 = rhs.numer as i128;
        let d2 = rhs.denom as i128;
        proof {
            lemma_field_prod_bound(n1 as int, n2 as int);
            lemma_field_prod_bound(d1 as int, d2 as int);
        }
        let n = n1 * n2;
        let d = d1 * d2;
        proof {
            assert(d > 0) by (nonlinear_arith)
                requires
                    d1 > 0,
                    d2 > 0,
                    d == d1 * d2,
            ;
        }
        reduce_signed(n, d)
    }

    /// Product with an integer, in lowest terms; `None` exactly when the
    /// reduced result does not fit in the field type.
    pub fn checked_mul_scalar(self, rhs: i64) -> (r: Option<Ratio>)
        requires
            self.wf(),
        ensures
            ({
                let n = self.numer * rhs;
                let d = self.denom as int;
                &&& (r is Some <==> reduction_fits(n, d))
                &&& (r matches Some(v) ==> v.wf() && v.numer as int == reduced_numer(n, d)
                    && v.denom as int == reduced_denom(n, d))
            }),
    {
        let n1 = self.numer as i128;
        proof {
            lemma_scalar_prod_bound(n1 as int, rhs as int);
        }
        let n = n1 * (rhs as i128);
        reduce_signed(n, self.denom as i128)
    }

    /// Quotient in lowest terms. `None` when the divisor's numerator is
    /// zero, or when the reduced result does not fit in the field type.
    pub fn checked_div(self, rhs: Ratio) -> (r: Option<Ratio>)
        requires
            self.wf(),
            rhs.wf(),
        ensures
            ({
                let n = self.numer * rhs.denom;
                let d = self.denom * rhs.numer;
                &&& (r is Some <==> rhs.numer != 0 && reduction_fits(n, d))
                &&& (r matches Some(v) ==> v.wf() && v.numer as int == reduced_numer(n, d)
                    && v.denom as int == reduced_denom(n, d))
            }),
    {
        if rhs.numer == 0 {
            return None;
        }
        let n1 = self.numer as i128;
        let d1 = self.denom as i128;
        let n2 = rhs.numer as i128;
        let d2 = rhs.denom as i128;
        proof {
            lemma_field_prod_bound(n1 as int, d2 as int);
            lemma_field_prod_bound(d1 as int, n2 as int);
        }
        let n = n1 * d2;
        let d = d1 * n2;
        proof {
            assert(d != 0) by (nonlinear_arith)
                requires
                    d1 > 0,
                    n2 != 0,
                    d == d1 * n2,
            ;
        }
        reduce_signed(n, d)
    }

    /// Sum in lowest terms, on arguments whose reduced sum is representable.
    pub fn add(self, rhs: Ratio) -> (r: Ratio)
        requires
            self.wf(),
            rhs.wf(),
            reduction_fits(
                self.numer * rhs.denom + rhs.numer * self.denom,
                self.denom * rhs.denom,
            ),
        ensures
            r.wf(),
            r.numer as int == reduced_numer(
                self.numer * rhs.denom + rhs.numer * self.denom,
                self.denom * rhs.denom,
            ),
            r.denom as int == reduced_denom(
                self.numer * rhs.denom + rhs.numer * self.denom,
                self.denom * rhs.denom,
            ),
    {
        self.checked_add(rhs).unwrap()
    }

    /// Difference in lowest terms, on arguments whose reduced difference is
    /// representable.
    pub fn sub(self, rhs: Ratio) -> (r: Ratio)
        requires
            self.wf(),
            rhs.wf(),
            reduction_fits(
                self.numer * rhs.denom - rhs.numer * self.denom,
                self.denom * rhs.denom,
            ),
        ensures
            r.wf(),
            r.numer as int == reduced_numer(
                self.numer * rhs.denom - rhs.numer * self.denom,
                self.denom * rhs.denom,
            ),
            r.denom as int == reduced_denom(
                self.numer * rhs.denom - rhs.numer * self.denom,
                self.denom * rhs.denom,
            ),
    {
        self.checked_sub(rhs).unwrap()
    }

    /// Product in lowest terms, on arguments whose reduced product is
    /// representable.
    pub fn mul(self, rhs: Ratio) -> (r: Ratio)
        requires
            self.wf(),
            rhs.wf(),
            reduction_fits(self.numer * rhs.numer, self.denom * rhs.denom),
        ensures
            r.wf(),
            r.numer as int == reduced_numer(self.numer * rhs.numer, self.denom * rhs.denom),
            r.denom as int == reduced_denom(self.numer * rhs.numer, self.denom * rhs.denom),
    {
        self.checked_mul(rhs).unwrap()
    }

    /// Product with an integer, in lowest terms, when the reduced result is
    /// representable.
    pub fn mul_scalar(self, rhs: i64) -> (r: Ratio)
        requires
            self.wf(),
            reduction_fits(self.numer * rhs, self.denom as int),
        ensures
            r.wf(),
            r.numer as int == reduced_numer(self.numer * rhs, self.denom as int),
            r.denom as int == reduced_denom(self.numer * rhs, self.denom as int),
    {
        self.checked_mul_scalar(rhs).unwrap()
    }

    /// Quotient in lowest terms: `None` exactly when the divisor's numerator
    /// is zero, so that the quotient's denominator would vanish.
    pub fn div(self, rhs: Ratio) -> (r: Option<Ratio>)
        requires
            self.wf(),
            rhs.wf(),
            rhs.numer != 0 ==> reduction_fits(
                self.numer * rhs.denom,
                self.denom * rhs.numer,
            ),
        ensures
            r is Some <==> rhs.numer != 0,
            (r matches Some(v) ==> v.wf()
                && v.numer as int == reduced_numer(
                self.numer * rhs.denom,
                self.denom * rhs.numer,
            ) && v.denom as int == reduced_denom(
                self.numer * rhs.denom,
                self.denom * rhs.numer,
            )),
    {
        self.checked_div(rhs)
    }

    /// Whether the fields satisfy [`Ratio::wf`], decided at run time.
    pub fn is_reduced(&self) -> (b: bool)
        ensures
            b == self.wf(),
    {
        if self.denom <= 0 || self.numer == i64::MIN {
            return false;
        }
        let na: u128 = (if self.numer < 0 {
            -self.numer
        } else {
            self.numer
        }) as u128;
        proof {
            assert(nat_abs(self.numer as int) == na as nat);
        }
        gcd_u128(na, self.denom as u128) == 1
    }

    /// The display form: the integer alone when the denominator is one,
    /// else `numer/denom`.
    pub open spec fn display_spec(self) -> Seq<char> {
        if self.denom == 1 {
            crate::decimal::int_string(self.numer as int)
        } else {
            crate::decimal::int_string(self.numer as int) + seq!['/']
                + crate::decimal::int_string(self.denom as int)
        }
    }

    /// Renders the ratio for display: the integer alone when the
    /// denominator is one, else `numer/denom`.
    pub fn to_display_string(&self) -> (r: String)
        requires
            self.numer > i64::MIN,
            self.denom > i64::MIN,
        ensures
            r@ == self.display_spec(),
    {
        let mut out = String::new();
        if self.numer < 0 {
            proof {
                reveal_strlit("-");
            }
            out.append("-");
            crate::decimal::push_digits((-self.numer) as u64, &mut out);
        } else {
            crate::decimal::push_digits(self.numer as u64, &mut out);
        }
        if self.denom != 1 {
            proof {
                reveal_strlit("/");
            }
            out.append("/");
            if self.denom < 0 {
                proof {
                    reveal_strlit("-");
                }
                out.append("-");
                crate::decimal::push_digits((-self.denom) as u64, &mut out);
            } else {
                crate::decimal::push_digits(self.denom as u64, &mut out);
            }
        }
        proof {
            assert(out@ =~= self.display_spec());
        }
        out
    }

    /// The integer `v` as a ratio with denominator one.
    pub fn from_int(v: i64) -> (r: Ratio)
        requires
            v > i64::MIN,
        ensures
            r.wf(),
            r.numer == v,
            r.denom == 1,
    {
        proof {
            crate::arith::lemma_gcd_one(nat_abs(v as int));
        }
        Ratio { numer: v, denom: 1 }
    }
}

/// Reduces a fraction given with a signed numerator and a nonzero signed
/// denominator, returning `None` when the reduced parts overflow an `i64`.
fn reduce_signed(n: i128, d: i128) -> (r: Option<Ratio>)
    requires
        d != 0,
        n > i128::MIN,
        d > i128::MIN,
    ensures
        r is Some <==> reduction_fits(n as int, d as int),
        (r matches Some(v) ==> v.wf() && v.numer as int == reduced_numer(n as int, d as int)
            && v.denom as int == reduced_denom(n as int, d as int)),
{
    let neg = (n < 0) != (d < 0);
    let na: u128 = (if n < 0 {
        -n
    } else {
        n
    }) as u128;
    let da: u128 = (if d < 0 {
        -d
    } else {
        d
    }) as u128;
    proof {
        assert(nat_abs(n as int) == na as nat);
        assert(nat_abs(d as int) == da as nat);
    }
    reduce_mag(if na == 0 {
        false
    } else {
        neg
    }, na, da)
}

/// Reduces the fraction whose sign is `neg` and whose magnitudes are
/// `na / da`, returning `None` when the reduced parts overflow an `i64`.
fn reduce_mag(neg: bool, na: u128, da: u128) -> (r: Option<Ratio>)
    requires
        da > 0,
    ensures
        ({
            let n: int = if neg {
                -(na as int)
            } else {
                na as int
            };
            let d: int = da as int;
            &&& (r is Some <==> reduction_fits(n, d))
            &&& (r matches Some(v) ==> v.wf() && v.numer as int == reduced_numer(n, d)
                && v.denom as int == reduced_denom(n, d))
        }),
{
    let g = gcd_u128(na, da);
    proof {
        lemma_gcd_divides(na as nat, da as nat);
        lemma_gcd_quotients_coprime(na as nat, da as nat);
        lemma_divisor_le(g as nat, da as nat);
        lemma_div_non_zero(da as int, g as int);
    }
    let rn = na / g;
    let rd = da / g;
    proof {
        let n: int = if neg {
            -(na as int)
        } else {
            na as int
        };
        assert(nat_abs(n) == na as nat);
        assert(reduced_numer_mag(n, da as int) == rn as nat);
        assert(reduced_denom_mag(n, da as int) == rd as nat);
    }
    if rn <= i64::MAX as u128 && rd <= i64::MAX as u128 {
        let numer: i64 = if neg {
            -(rn as i64)
        } else {
            rn as i64
        };
        Some(Ratio { numer, denom: rd as i64 })
    } else {
        None
    }
}

} // verus!
