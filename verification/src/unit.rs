//! Mass units and their conversions.
//!
//! The four units convert through grams as the canonical unit.  Each
//! factor is held exactly, in tenths of a milligram (10^-4 g), so the
//! conversion of a fixed-point amount is one multiplication and one
//! rounded division.

use vstd::prelude::*;

use crate::decimal::{round_div, round_div_i128, Decimal, MAX_AMOUNT_MICROS};
use crate::decimal::lemma_round_div_err;
use crate::decimal::{dec_to_string, spec_dec_str};
use crate::text::{spec_to_lower, str_eq, str_eq_ignore_case};

verus! {

/// Why a mass unit or amount was rejected.
#[derive(Debug)]
pub enum MassUnitError {
    /// The string names no unit of the closed enumeration.
    InvalidUnit(String),
    /// The amount lies outside the supported fixed-point range.
    InvalidAmount(Decimal),
}

impl MassUnitError {
    /// What this failure says.
    pub open spec fn spec_message(self) -> Seq<char> {
        match self {
            MassUnitError::InvalidUnit(s) => ("Invalid mass unit: ")@ + s@,
            MassUnitError::InvalidAmount(d) => ("Invalid mass amount: ")@ + spec_dec_str(d.val()),
        }
    }

    /// Writes this failure out for a feedback notice.
    pub fn message(&self) -> (r: String)
        ensures
            r@ == self.spec_message(),
    {
        let mut out = String::new();
        match self {
            MassUnitError::InvalidUnit(s) => {
                out.append("Invalid mass unit: ");
                out.append(s.as_str());
            },
            MassUnitError::InvalidAmount(d) => {
                out.append("Invalid mass amount: ");
                let astr = dec_to_string(d);
                out.append(astr.as_str());
            },
        }
        proof {
            assert(out@ =~= self.spec_message());
        }
        out
    }
}

/// The closed enumeration of mass units.
#[derive(Clone, Copy, PartialEq, Eq, Structural, Debug)]
pub enum MassUnit {
    G,
    Kg,
    Oz,
    Lb,
}

impl MassUnit {
    /// Grams per unit, in tenths of a milligram: g=1, kg=1000,
    /// oz=28.3495, lb=453.592 grams, each scaled by 10^4.
    pub open spec fn spec_factor_e4(self) -> int {
        match self {
            MassUnit::G => 10_000,
            MassUnit::Kg => 10_000_000,
            MassUnit::Oz => 283_495,
            MassUnit::Lb => 4_535_920,
        }
    }

    /// Grams per unit, scaled by 10^4.
    pub fn factor_e4(&self) -> (r: u32)
        ensures
            r == self.spec_factor_e4(),
    {
        match self {
            MassUnit::G => 10_000,
            MassUnit::Kg => 10_000_000,
            MassUnit::Oz => 283_495,
            MassUnit::Lb => 4_535_920,
        }
    }

    /// The unit a name denotes, matched exactly.
    pub open spec fn spec_unit_of(s: Seq<char>) -> Option<MassUnit> {
        if s == ("g")@ {
            Some(MassUnit::G)
        } else if s == ("kg")@ {
            Some(MassUnit::Kg)
        } else if s == ("oz")@ {
            Some(MassUnit::Oz)
        } else if s == ("lb")@ {
            Some(MassUnit::Lb)
        } else {
            None
        }
    }

    /// Parses a unit name, matched exactly.
    pub fn from_str(s: &str) -> (r: Result<MassUnit, MassUnitError>)
        ensures
            match r {
                Ok(u) => Self::spec_unit_of(s@) == Some(u),
                Err(e) => Self::spec_unit_of(s@) is None && (e matches
                    MassUnitError::InvalidUnit(o) && o@ == s@),
            },
    {
        if str_eq(s, "g") {
            Ok(MassUnit::G)
        } else if str_eq(s, "kg") {
            Ok(MassUnit::Kg)
        } else if str_eq(s, "oz") {
            Ok(MassUnit::Oz)
        } else if str_eq(s, "lb") {
            Ok(MassUnit::Lb)
        } else {
            Err(MassUnitError::InvalidUnit(s.to_owned()))
        }
    }

    /// Parses a unit name after folding it to lower case.
    pub fn from_str_lower(s: &str) -> (r: Option<MassUnit>)
        ensures
            r == Self::spec_unit_of(spec_to_lower(s@)),
    {
        proof {
            reveal_strlit("g");
            reveal_strlit("kg");
            reveal_strlit("oz");
            reveal_strlit("lb");
            assert(spec_to_lower(("g")@) =~= ("g")@);
            assert(spec_to_lower(("kg")@) =~= ("kg")@);
            assert(spec_to_lower(("oz")@) =~= ("oz")@);
            assert(spec_to_lower(("lb")@) =~= ("lb")@);
        }
        if str_eq_ignore_case(s, "g") {
            Some(MassUnit::G)
        } else if str_eq_ignore_case(s, "kg") {
            Some(MassUnit::Kg)
        } else if str_eq_ignore_case(s, "oz") {
            Some(MassUnit::Oz)
        } else if str_eq_ignore_case(s, "lb") {
            Some(MassUnit::Lb)
        } else {
            None
        }
    }

    /// The label this unit shows in keys and messages.
    pub open spec fn spec_label(self) -> Seq<char> {
        match self {
            MassUnit::G => ("g")@,
            MassUnit::Kg => ("kg")@,
            MassUnit::Oz => ("oz")@,
            MassUnit::Lb => ("lb")@,
        }
    }

    /// Writes the unit's name.
    pub fn label(&self) -> (r: String)
        ensures
            r@ == self.spec_label(),
    {
        match self {
            MassUnit::G => "g".to_owned(),
            MassUnit::Kg => "kg".to_owned(),
            MassUnit::Oz => "oz".to_owned(),
            MassUnit::Lb => "lb".to_owned(),
        }
    }

    /// The amount `amount` of this unit, expressed in grams and scaled
    /// by 10^4, exactly.
    pub open spec fn spec_amount_in_grams_e4(self, amount: int) -> int {
        amount * self.spec_factor_e4()
    }

    /// Converts `amount` of this unit into tenths of milligrams (an
    /// exact product; only amounts within the fixed-point range are
    /// accepted, others are rejected as the amount being invalid).
    pub fn amount_in_grams(&self, amount: &Decimal) -> (r: Result<i128, MassUnitError>)
        ensures
            match r {
                Ok(v) => amount.in_range() && v == self.spec_amount_in_grams_e4(amount.val()),
                Err(e) => !amount.in_range() && (e matches MassUnitError::InvalidAmount(a)
                    && a == *amount),
            },
    {
        if amount.micros < -MAX_AMOUNT_MICROS || amount.micros > MAX_AMOUNT_MICROS {
            return Err(MassUnitError::InvalidAmount(*amount));
        }
        proof {
            assert(-10_000_000 * (MAX_AMOUNT_MICROS as int) <= amount.val()
                * self.spec_factor_e4() <= 10_000_000 * (MAX_AMOUNT_MICROS as int))
                by (nonlinear_arith)
                requires
                    -MAX_AMOUNT_MICROS <= amount.val() <= MAX_AMOUNT_MICROS,
                    10_000 <= self.spec_factor_e4() <= 10_000_000,
            {
            }
        }
        Ok((amount.micros as i128) * (self.factor_e4() as i128))
    }
}

/// `amount` of `from_unit`, expressed in `to_unit`: scaled through the
/// gram factors and rounded to the nearest micro-unit.
pub open spec fn spec_convert_mass(amount: int, from_unit: MassUnit, to_unit: MassUnit) -> int {
    round_div(amount * from_unit.spec_factor_e4(), to_unit.spec_factor_e4())
}

/// Bound under which every intermediate of a conversion fits.
pub const CONVERT_INPUT_LIMIT: i128 = 1_000_000_000_000_000_000_000;

/// Converts a raw micro-unit count between mass units.
pub fn convert_mass_micros(amount: i128, from_unit: &MassUnit, to_unit: &MassUnit) -> (r: i128)
    requires
        -CONVERT_INPUT_LIMIT <= amount <= CONVERT_INPUT_LIMIT,
    ensures
        r == spec_convert_mass(amount as int, *from_unit, *to_unit),
        -1000 * CONVERT_INPUT_LIMIT <= r <= 1000 * CONVERT_INPUT_LIMIT,
        amount >= 0 ==> 0 <= r <= 1000 * amount + 1,
        amount < 0 ==> 1000 * amount - 1 <= r <= 0,
{
    proof {
        assert(-10_000_000 * CONVERT_INPUT_LIMIT <= amount * from_unit.spec_factor_e4()
            <= 10_000_000 * CONVERT_INPUT_LIMIT) by (nonlinear_arith)
            requires
                -CONVERT_INPUT_LIMIT <= amount <= CONVERT_INPUT_LIMIT,
                10_000 <= from_unit.spec_factor_e4() <= 10_000_000,
        {
        }
    }
    let num = amount * (from_unit.factor_e4() as i128);
    let den = to_unit.factor_e4() as i128;
    let r = round_div_i128(num, den);
    proof {
        lemma_round_div_err(num as int, den as int);
        assert(r * den <= num + den && num - den <= r * den);
        assert(-1000 * CONVERT_INPUT_LIMIT <= r <= 1000 * CONVERT_INPUT_LIMIT)
            by (nonlinear_arith)
            requires
                r == round_div(num as int, den as int),
                den * r <= num + den,
                num - den <= den * r,
                10_000 <= den <= 10_000_000,
                -10_000_000 * CONVERT_INPUT_LIMIT <= num <= 10_000_000 * CONVERT_INPUT_LIMIT,
        {
        }
        assert(from_unit.spec_factor_e4() <= 1000 * to_unit.spec_factor_e4());
        if amount >= 0 {
            assert(0 <= r <= 1000 * amount + 1) by (nonlinear_arith)
                requires
                    r == round_div(num as int, den as int),
                    num == amount * from_unit.spec_factor_e4(),
                    den == to_unit.spec_factor_e4(),
                    den * r <= num + den,
                    den > 0,
                    amount >= 0,
                    from_unit.spec_factor_e4() >= 0,
                    from_unit.spec_factor_e4() <= 1000 * den,
            {
            }
        } else {
            assert(1000 * amount - 1 <= r <= 0) by (nonlinear_arith)
                requires
                    r == round_div(num as int, den as int),
                    num == amount * from_unit.spec_factor_e4(),
                    den == to_unit.spec_factor_e4(),
                    num - den <= den * r,
                    den > 0,
                    amount < 0,
                    from_unit.spec_factor_e4() >= 0,
                    from_unit.spec_factor_e4() <= 1000 * den,
            {
            }
        }
    }
    r
}

/// Converts an amount between mass units, rounding to the nearest
/// micro-unit.
pub fn convert_mass(amount: &Decimal, from_unit: &MassUnit, to_unit: &MassUnit) -> (r: Decimal)
    requires
        amount.in_range(),
    ensures
        r.val() == spec_convert_mass(amount.val(), *from_unit, *to_unit),
{
    let v = convert_mass_micros(amount.micros as i128, from_unit, to_unit);
    proof {
        let num = amount.val() * from_unit.spec_factor_e4();
        let den = to_unit.spec_factor_e4();
        lemma_round_div_err(num, den);
        assert(-1_000_000_000_000_000_000 <= v <= 1_000_000_000_000_000_000)
            by (nonlinear_arith)
            requires
                v == round_div(num, den),
                den * v <= num + den,
                num - den <= den * v,
                10_000 <= den <= 10_000_000,
                -10_000_000 * (MAX_AMOUNT_MICROS as int) <= num
                    <= 10_000_000 * (MAX_AMOUNT_MICROS as int),
        {
        }
    }
    Decimal { micros: v as i64 }
}

/// Converting an amount to another unit and back lands within half a
/// micro-unit of each gram-factor step: the round trip differs from the
/// starting amount by at most `(fu + fv) / (2 fu)` micro-units, where
/// `fu` and `fv` are the gram factors of the two units.
pub proof fn lemma_convert_round_trip(amount: int, u: MassUnit, v: MassUnit)
    ensures
        -(u.spec_factor_e4() + v.spec_factor_e4()) <= 2 * u.spec_factor_e4() * (
        spec_convert_mass(spec_convert_mass(amount, u, v), v, u) - amount)
            <= u.spec_factor_e4() + v.spec_factor_e4(),
{
    let fu = u.spec_factor_e4();
    let fv = v.spec_factor_e4();
    let c1 = spec_convert_mass(amount, u, v);
    let c2 = spec_convert_mass(c1, v, u);
    lemma_round_div_err(amount * fu, fv);
    lemma_round_div_err(c1 * fv, fu);
    assert(-fv <= 2 * (c1 * fv - amount * fu) <= fv);
    assert(-fu <= 2 * (c2 * fu - c1 * fv) <= fu);
    assert(2 * fu * (c2 - amount) == 2 * (c2 * fu - c1 * fv) + 2 * (c1 * fv - amount * fu))
        by (nonlinear_arith);
}

} // verus!
