//! The computed order: the caller's quantity and matched price tier
//! echoed back, the discounts that applied, and the subtotal and total
//! blocks.

use vstd::prelude::*;

use crate::decimal::Decimal;

verus! {

/// The packaging the caller ordered, echoed back.
#[derive(Clone, Debug, PartialEq)]
pub struct OrderClassifiedQuantity {
    pub amount: Decimal,
    pub unit: String,
    pub label: String,
}

/// The price tier the order matched, echoed back.
#[derive(Clone, Debug, PartialEq)]
pub struct OrderClassifiedPrice {
    pub amount: Decimal,
    pub currency: String,
    pub quantity_amount: Decimal,
    pub quantity_unit: String,
}

/// One discount that applied, with its computed amount.
#[derive(Clone, Debug, PartialEq)]
pub struct OrderClassifiedDiscount {
    pub discount_type: String,
    pub threshold: Option<Decimal>,
    pub threshold_unit: Option<String>,
    pub discount_per_unit: Option<Decimal>,
    pub discount_unit: Option<String>,
    pub discount_percent: Option<Decimal>,
    pub discount_amount: Decimal,
    pub currency: String,
}

/// What an applied discount says, with strings read as character
/// sequences.
pub struct OrderClassifiedDiscountV {
    pub discount_type: Seq<char>,
    pub threshold: Option<Decimal>,
    pub threshold_unit: Option<Seq<char>>,
    pub discount_per_unit: Option<Decimal>,
    pub discount_unit: Option<Seq<char>>,
    pub discount_percent: Option<Decimal>,
    pub discount_amount: Decimal,
    pub currency: Seq<char>,
}

impl View for OrderClassifiedDiscount {
    type V = OrderClassifiedDiscountV;

    open spec fn view(&self) -> OrderClassifiedDiscountV {
        OrderClassifiedDiscountV {
            discount_type: self.discount_type@,
            threshold: self.threshold,
            threshold_unit: match self.threshold_unit {
                Some(s) => Some(s@),
                None => None,
            },
            discount_per_unit: self.discount_per_unit,
            discount_unit: match self.discount_unit {
                Some(s) => Some(s@),
                None => None,
            },
            discount_percent: self.discount_percent,
            discount_amount: self.discount_amount,
            currency: self.currency@,
        }
    }
}

/// A money total over a quantity: the subtotal and total blocks.
#[derive(Clone, Debug, PartialEq)]
pub struct OrderClassifiedTotal {
    pub price_amount: Decimal,
    pub price_currency: String,
    pub quantity_amount: Decimal,
    pub quantity_unit: String,
}

/// The full computed order.
#[derive(Clone, Debug, PartialEq)]
pub struct OrderClassifiedResult {
    pub quantity: OrderClassifiedQuantity,
    pub price: OrderClassifiedPrice,
    pub discounts: Vec<OrderClassifiedDiscount>,
    pub subtotal: OrderClassifiedTotal,
    pub total: OrderClassifiedTotal,
}

} // verus!
