//! Exact fixed-point amounts with four decimal places.

use rust_decimal::Decimal;
use vstd::prelude::*;

verus! {

/// Number of decimal places every [`Amount`] carries.
pub const SCALE: u32 = 4;

/// How many units of an [`Amount`] make one whole.
pub const UNITS_PER_WHOLE: i128 = 10000;

/// Largest magnitude of a decimal mantissa: ninety-six bits, all set.
pub const MAX_MANTISSA: i128 = 0xFFFF_FFFF_FFFF_FFFF_FFFF_FFFF;

/// Largest number of decimal places a decimal value can carry.
pub const MAX_SCALE: u32 = 28;

/// Ten to the power `e`.
pub open spec fn pow10(e: nat) -> int
    decreases e,
{
    if e == 0 {
        1
    } else {
        10 * pow10((e - 1) as nat)
    }
}

/// Whether `mantissa / 10^scale` is a value a 96-bit decimal can hold.
pub open spec fn is_decimal(mantissa: int, scale: nat) -> bool {
    -MAX_MANTISSA <= mantissa <= MAX_MANTISSA && scale <= MAX_SCALE
}

/// The value `mantissa / 10^scale`, with `scale <= 4`, counted in
/// ten-thousandths.
pub open spec fn units_of(mantissa: int, scale: nat) -> int {
    mantissa * pow10((SCALE - scale) as nat)
}

/// Mantissa and scale of the decimal `mantissa / 10^scale` after it has been
/// brought to `target` decimal places by `rust_decimal`.
pub uninterp spec fn rescaled(mantissa: int, scale: nat, target: nat) -> (int, nat);

/// Calls `rust_decimal::Decimal::rescale` on the decimal built from
/// `mantissa` and `scale` by `Decimal::from_i128_with_scale`, and reads the
/// outcome back with `Decimal::mantissa` and `Decimal::scale`.
///
/// Trusted: the outcome is [`rescaled`] of the arguments; it is again a
/// 96-bit decimal; a value that had at least `target` places ends with exactly
/// `target`, and one that had fewer ends with no fewer than it had and no
/// more than `target` (scaling up stops where the mantissa would outgrow
/// ninety-six bits).
#[verifier::external_body]
fn rescale_parts(mantissa: i128, scale: u32, target: u32) -> (r: (i128, u32))
    requires
        is_decimal(mantissa as int, scale as nat),
        target <= MAX_SCALE,
    ensures
        (r.0 as int, r.1 as nat) == rescaled(mantissa as int, scale as nat, target as nat),
        is_decimal(r.0 as int, r.1 as nat),
        scale >= target ==> r.1 == target,
        scale <= target ==> scale <= r.1 <= target,
{
    let mut d = Decimal::from_i128_with_scale(mantissa, scale);
    d.rescale(target);
    (d.mantissa(), d.scale())
}

/// An amount of money, counted exactly in ten-thousandths of a unit.
///
/// Balances may be negative; the amount a transaction moves may not.
#[derive(Clone, Copy, Debug, PartialEq, Eq, Structural)]
pub struct Amount {
    /// The amount in ten-thousandths.
    pub units: i128,
}

impl View for Amount {
    type V = int;

    open spec fn view(&self) -> int {
        self.units as int
    }
}

/// Whether `v` ten-thousandths can be held in an [`Amount`].
pub open spec fn representable(v: int) -> bool {
    i128::MIN <= v <= i128::MAX
}

/// The [`Amount`] of `v` ten-thousandths.
pub open spec fn amount_of(v: int) -> Amount {
    Amount { units: v as i128 }
}

impl Amount {
    /// The amount zero.
    pub fn zero() -> (a: Amount)
        ensures
            a@ == 0,
    {
        Amount { units: 0 }
    }

    /// The amount of `units` ten-thousandths.
    pub fn from_units(units: i128) -> (a: Amount)
        ensures
            a@ == units,
    {
        Amount { units }
    }

    /// The amount of `whole` whole units.
    pub fn from_whole(whole: i64) -> (a: Amount)
        ensures
            a@ == whole * UNITS_PER_WHOLE,
    {
        let w: i128 = whole as i128;
        Amount { units: w * UNITS_PER_WHOLE }
    }

    /// This amount in ten-thousandths.
    pub fn units(&self) -> (u: i128)
        ensures
            u == self@,
    {
        self.units
    }

    /// The amount that a decimal with at most four places stands for:
    /// `mantissa / 10^scale`, exactly.
    pub fn from_rescaled(mantissa: i128, scale: u32) -> (a: Amount)
        requires
            -MAX_MANTISSA <= mantissa <= MAX_MANTISSA,
            scale <= SCALE,
        ensures
            a@ == units_of(mantissa as int, scale as nat),
    {
        proof {
            reveal_with_fuel(pow10, 5);
        }
        let units: i128 = if scale == 0 {
            mantissa * 10000
        } else if scale == 1 {
            mantissa * 1000
        } else if scale == 2 {
            mantissa * 100
        } else if scale == 3 {
            mantissa * 10
        } else {
            mantissa
        };
        Amount { units }
    }

    /// Brings the decimal `mantissa / 10^scale` to four places and returns it
    /// as an amount. Rounding, where places are dropped, is `rust_decimal`'s.
    ///
    /// `None` exactly when the arguments are no 96-bit decimal.
    pub fn from_decimal_parts(mantissa: i128, scale: u32) -> (r: Option<Amount>)
        ensures
            is_decimal(mantissa as int, scale as nat) <==> r is Some,
            r matches Some(a) ==> a@ == normalized(mantissa as int, scale as nat),
    {
        if mantissa < -MAX_MANTISSA || mantissa > MAX_MANTISSA || scale > MAX_SCALE {
            return None;
        }
        let (m, s) = rescale_parts(mantissa, scale, SCALE);
        Some(Amount::from_rescaled(m, s))
    }
}

/// The decimal `mantissa / 10^scale` brought to four places, in
/// ten-thousandths.
pub open spec fn normalized(mantissa: int, scale: nat) -> int {
    let r = rescaled(mantissa, scale, SCALE as nat);
    units_of(r.0, r.1)
}

} // verus!
