//! Money arithmetic for the order engine.
//!
//! Every money result is an integer count of cents, produced by one
//! exact rational expression rounded half away from zero, and is kept
//! within a fixed range so that later arithmetic cannot overflow.

use vstd::prelude::*;

use crate::decimal::{round_div, round_div_i128, Decimal, MAX_AMOUNT_MICROS};
use crate::unit::{convert_mass_micros, spec_convert_mass, MassUnit, CONVERT_INPUT_LIMIT};

verus! {

/// Largest magnitude, in cents, that a computed money amount may have.
pub const MAX_MONEY_CENTS: i64 = 100_000_000_000_000;

/// Largest magnitude, in micro-units, of a total ordered quantity.
pub const MAX_TOTAL_QTY_MICROS: i128 = 100_000_000_000_000_000;

/// The subtotal, in cents: the ordered quantity converted into the
/// tier's unit, priced at `price_amount` per `price_qty_amount`, and
/// rounded half away from zero.
pub open spec fn spec_subtotal_cents(
    total_qty: int,
    qty_unit: MassUnit,
    price_amount: int,
    price_qty_amount: int,
    price_unit: MassUnit,
) -> int
    recommends
        price_qty_amount > 0,
{
    round_div(
        100 * price_amount * spec_convert_mass(total_qty, qty_unit, price_unit),
        price_qty_amount * 1_000_000,
    )
}

/// Whether a cent amount lies in the supported money range.
pub open spec fn money_in_range(c: int) -> bool {
    -MAX_MONEY_CENTS <= c <= MAX_MONEY_CENTS
}

/// Computes the rounded total price of an order, in cents: the ordered
/// mass (`quantity_amount` of `quantity_unit`, `quantity_count` times)
/// converted into the tier's unit and priced at the tier's rate.
/// `None` where the tier's quantity is not positive, the ordered mass
/// or the result leaves the supported range.
#[verifier::rlimit(30)]
pub fn calculate_total_price(
    quantity_amount: &Decimal,
    quantity_unit: &MassUnit,
    quantity_count: u32,
    price_amount: &Decimal,
    price_quantity_amount: &Decimal,
    price_quantity_unit: &MassUnit,
) -> (r: Option<i64>)
    requires
        quantity_amount.in_range(),
        price_amount.in_range(),
        price_quantity_amount.in_range(),
    ensures
        ({
            let total_qty = quantity_amount.val() * quantity_count;
            let sub = spec_subtotal_cents(
                total_qty,
                *quantity_unit,
                price_amount.val(),
                price_quantity_amount.val(),
                *price_quantity_unit,
            );
            match r {
                Some(c) => price_quantity_amount.val() > 0 && -MAX_TOTAL_QTY_MICROS <= total_qty
                    <= MAX_TOTAL_QTY_MICROS && c == sub && money_in_range(c as int),
                None => price_quantity_amount.val() <= 0 || total_qty > MAX_TOTAL_QTY_MICROS
                    || total_qty < -MAX_TOTAL_QTY_MICROS || !money_in_range(sub),
            }
        }),
{
    if price_quantity_amount.micros <= 0 {
        return None;
    }
    proof {
        assert(-(MAX_AMOUNT_MICROS as int) * (u32::MAX as int) <= quantity_amount.val()
            * (quantity_count as int) <= (MAX_AMOUNT_MICROS as int) * (u32::MAX as int))
            by (nonlinear_arith)
            requires
                -MAX_AMOUNT_MICROS <= quantity_amount.val() <= MAX_AMOUNT_MICROS,
                0 <= quantity_count <= u32::MAX,
        {
        }
    }
    let total_qty: i128 = (quantity_amount.micros as i128) * (quantity_count as i128);
    if total_qty > MAX_TOTAL_QTY_MICROS || total_qty < -MAX_TOTAL_QTY_MICROS {
        return None;
    }
    let conv = convert_mass_micros(total_qty, quantity_unit, price_quantity_unit);
    proof {
        assert(-100_000_000_000_000_000_001 <= conv <= 100_000_000_000_000_000_001);
        assert(-10_000_000_000_000_000_000_000_000_000_000_000_000 <= 100
            * (price_amount.micros as int) * (conv as int)
            <= 10_000_000_000_000_000_000_000_000_000_000_000_000) by (nonlinear_arith)
            requires
                -MAX_AMOUNT_MICROS <= price_amount.micros <= MAX_AMOUNT_MICROS,
                -100_000_000_000_000_000_001 <= conv <= 100_000_000_000_000_000_001,
        {
        }
    }
    let num: i128 = 100 * (price_amount.micros as i128) * (conv as i128);
    let den: i128 = (price_quantity_amount.micros as i128) * 1_000_000;
    let c = round_div_i128(num, den);
    if c > MAX_MONEY_CENTS as i128 || c < -(MAX_MONEY_CENTS as i128) {
        return None;
    }
    Some(c as i64)
}

/// Amount of a subtotal discount, in cents: `round2(subtotal * value /
/// 100)` for a percentage, `round2(value)` for a flat amount.
pub open spec fn spec_subtotal_discount_cents(subtotal_cents: int, value: int, is_percent: bool) -> int {
    if is_percent {
        round_div(subtotal_cents * value, 100_000_000)
    } else {
        round_div(value, 10_000)
    }
}

/// Computes a subtotal discount; `None` where the result leaves the
/// supported money range.
pub fn subtotal_discount_cents(subtotal_cents: i64, value: &Decimal, is_percent: bool) -> (r:
    Option<i64>)
    requires
        money_in_range(subtotal_cents as int),
        value.in_range(),
    ensures
        ({
            let d = spec_subtotal_discount_cents(subtotal_cents as int, value.val(), is_percent);
            match r {
                Some(c) => c == d && money_in_range(c as int),
                None => !money_in_range(d),
            }
        }),
{
    let c: i128 = if is_percent {
        proof {
            assert(-10_000_000_000_000_000_000_000_000_000 <= (subtotal_cents as int) * (
            value.micros as int) <= 10_000_000_000_000_000_000_000_000_000) by (nonlinear_arith)
                requires
                    -MAX_MONEY_CENTS <= subtotal_cents <= MAX_MONEY_CENTS,
                    -MAX_AMOUNT_MICROS <= value.micros <= MAX_AMOUNT_MICROS,
            {
            }
        }
        round_div_i128((subtotal_cents as i128) * (value.micros as i128), 100_000_000)
    } else {
        round_div_i128(value.micros as i128, 10_000)
    };
    if c > MAX_MONEY_CENTS as i128 || c < -(MAX_MONEY_CENTS as i128) {
        return None;
    }
    Some(c as i64)
}

/// Amount of a mass discount, in cents: the ordered quantity expressed
/// in the discount unit times the rate per unit, rounded.
pub open spec fn spec_mass_discount_cents(qty_in_discount_unit: int, per_unit: int) -> int {
    round_div(qty_in_discount_unit * per_unit, 10_000_000_000)
}

/// Computes a mass discount; `None` where the result leaves the
/// supported money range.
pub fn mass_discount_cents(qty_in_discount_unit: i128, per_unit: &Decimal) -> (r: Option<i64>)
    requires
        -1000 * MAX_TOTAL_QTY_MICROS - 1 <= qty_in_discount_unit <= 1000 * MAX_TOTAL_QTY_MICROS
            + 1,
        per_unit.in_range(),
    ensures
        ({
            let d = spec_mass_discount_cents(qty_in_discount_unit as int, per_unit.val());
            match r {
                Some(c) => c == d && money_in_range(c as int),
                None => !money_in_range(d),
            }
        }),
{
    proof {
        assert(-11_000_000_000_000_000_000_000_000_000_000_000 <= (qty_in_discount_unit as int) * (
        per_unit.micros as int) <= 11_000_000_000_000_000_000_000_000_000_000_000)
            by (nonlinear_arith)
            requires
                -1000 * MAX_TOTAL_QTY_MICROS - 1 <= qty_in_discount_unit <= 1000
                    * MAX_TOTAL_QTY_MICROS + 1,
                -MAX_AMOUNT_MICROS <= per_unit.micros <= MAX_AMOUNT_MICROS,
        {
        }
    }
    let c = round_div_i128(qty_in_discount_unit * (per_unit.micros as i128), 10_000_000_000);
    if c > MAX_MONEY_CENTS as i128 || c < -(MAX_MONEY_CENTS as i128) {
        return None;
    }
    Some(c as i64)
}

/// Amount of a quantity discount, in cents: the rate per package times
/// the ordered package count, rounded.
pub open spec fn spec_qty_discount_cents(per_unit: int, count: int) -> int {
    round_div(per_unit * count, 10_000)
}

/// Computes a quantity discount; `None` where the result leaves the
/// supported money range.
pub fn qty_discount_cents(per_unit: &Decimal, count: u32) -> (r: Option<i64>)
    requires
        per_unit.in_range(),
    ensures
        ({
            let d = spec_qty_discount_cents(per_unit.val(), count as int);
            match r {
                Some(c) => c == d && money_in_range(c as int),
                None => !money_in_range(d),
            }
        }),
{
    proof {
        assert(-1_000_000_000_000_000_000_000_000 <= (per_unit.micros as int) * (count as int)
            <= 1_000_000_000_000_000_000_000_000) by (nonlinear_arith)
            requires
                -MAX_AMOUNT_MICROS <= per_unit.micros <= MAX_AMOUNT_MICROS,
                0 <= count <= u32::MAX,
        {
        }
    }
    let c = round_div_i128((per_unit.micros as i128) * (count as i128), 10_000);
    if c > MAX_MONEY_CENTS as i128 || c < -(MAX_MONEY_CENTS as i128) {
        return None;
    }
    Some(c as i64)
}

} // verus!
