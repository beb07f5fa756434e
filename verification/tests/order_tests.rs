use rhi::decimal::parse_decimal;
use rhi::event_classified::EventClassified;
use rhi::job_request_order::{
    JobRequestOrderDataOrder, JobRequestOrderDataPrice, JobRequestOrderDataQuantity,
    JobRequestOrderError,
};
use rhi::tags::{EventData, Tag};

fn tag(parts: &[&str]) -> Tag {
    Tag(parts.iter().map(|s| s.to_string()).collect())
}

fn listing(tags: Vec<Tag>) -> EventClassified {
    EventClassified::from_event(&EventData {
        id: "listing-id".to_string(),
        pubkey: "author".to_string(),
        kind: 30402,
        created_at: 0,
        content: String::new(),
        tags,
    })
}

fn order(
    price_amount: &str,
    currency: &str,
    price_qty: &str,
    price_unit: &str,
    qty_amount: &str,
    qty_unit: &str,
    count: u32,
    label: &str,
) -> JobRequestOrderDataOrder {
    JobRequestOrderDataOrder {
        price: JobRequestOrderDataPrice {
            amount: parse_decimal(price_amount).unwrap(),
            currency: currency.to_string(),
            quantity_amount: parse_decimal(price_qty).unwrap(),
            quantity_unit: price_unit.to_string(),
        },
        quantity: JobRequestOrderDataQuantity {
            amount: parse_decimal(qty_amount).unwrap(),
            unit: qty_unit.to_string(),
            count,
            mass_g: parse_decimal("0").unwrap(),
            label: label.to_string(),
        },
    }
}

fn unsatisfiable(r: Result<rhi::order_classified::OrderClassifiedResult, JobRequestOrderError>)
    -> String {
    match r {
        Err(JobRequestOrderError::Unsatisfiable(m)) => m,
        Err(_) => panic!("every order failure is unsatisfiable"),
        Ok(_) => panic!("the order should not be satisfiable"),
    }
}

#[test]
fn happy_path_totals_with_percent_discount() {
    let ec = listing(vec![
        tag(&["quantity", "1", "kg", "bag"]),
        tag(&["price", "10", "usd", "1", "kg"]),
        tag(&["price-discount-subtotal", "5", "usd", "10", "%"]),
    ]);
    let res = ec.calculate_order(&order("10", "usd", "1", "kg", "1", "kg", 2, "bag")).unwrap();
    // total quantity 2 kg, subtotal 20.00, 10% discount 2.00, total 18.00
    assert_eq!(res.subtotal.price_amount.micros, 20_000_000);
    assert_eq!(res.subtotal.price_currency, "usd");
    assert_eq!(res.subtotal.quantity_amount.micros, 2_000_000);
    assert_eq!(res.subtotal.quantity_unit, "kg");
    assert_eq!(res.discounts.len(), 1);
    assert_eq!(res.discounts[0].discount_type, "subtotal");
    assert_eq!(res.discounts[0].discount_amount.micros, 2_000_000);
    assert_eq!(res.discounts[0].discount_percent.unwrap().micros, 10_000_000);
    assert_eq!(res.total.price_amount.micros, 18_000_000);
    assert_eq!(res.quantity.amount.micros, 1_000_000);
    assert_eq!(res.quantity.unit, "kg");
    assert_eq!(res.quantity.label, "bag");
    assert_eq!(res.price.amount.micros, 10_000_000);
    assert_eq!(res.price.quantity_unit, "kg");
}

#[test]
fn packaging_mismatch_is_unsatisfiable() {
    let ec = listing(vec![
        tag(&["quantity", "1", "kg", "bag"]),
        tag(&["price", "10", "usd", "1", "kg"]),
    ]);
    let m = unsatisfiable(ec.calculate_order(&order("10", "usd", "1", "kg", "500", "g", 1, "bag")));
    assert_eq!(m, "requested packaging 500 g not available");
}

#[test]
fn tier_price_mismatch_cites_both_amounts() {
    let ec = listing(vec![
        tag(&["quantity", "1", "kg", "bag"]),
        tag(&["price", "10", "usd", "1", "kg"]),
    ]);
    let m = unsatisfiable(ec.calculate_order(&order("11", "usd", "1", "kg", "1", "kg", 1, "bag")));
    assert_eq!(m, "price mismatch: expected 10, got 11");
}

#[test]
fn missing_tier_is_unsatisfiable() {
    let ec = listing(vec![
        tag(&["quantity", "1", "kg", "bag"]),
        tag(&["price", "10", "usd", "1", "kg"]),
    ]);
    let m = unsatisfiable(ec.calculate_order(&order("10", "eur", "1", "kg", "1", "kg", 1, "bag")));
    assert_eq!(m, "no matching price tier 1 kg found");
}

#[test]
fn tier_currency_matches_case_insensitively() {
    let ec = listing(vec![
        tag(&["quantity", "1", "kg", "bag"]),
        tag(&["price", "10", "USD", "1", "kg"]),
    ]);
    let res = ec.calculate_order(&order("10", "usd", "1", "kg", "1", "kg", 1, "bag")).unwrap();
    assert_eq!(res.subtotal.price_amount.micros, 10_000_000);
    assert_eq!(res.price.currency, "USD");
}

#[test]
fn invalid_units_fail_first() {
    let ec = listing(vec![
        tag(&["quantity", "1", "kg", "bag"]),
        tag(&["price", "10", "usd", "1", "kg"]),
    ]);
    let m = unsatisfiable(
        ec.calculate_order(&order("10", "usd", "1", "kg", "1", "stone", 1, "bag")),
    );
    assert_eq!(m, "invalid quantity unit");
    let m2 = unsatisfiable(ec.calculate_order(&order("10", "usd", "1", "ton", "1", "kg", 1, "bag")));
    assert_eq!(m2, "invalid price quantity unit");
}

#[test]
fn mass_discount_converts_into_the_discount_unit() {
    let ec = listing(vec![
        tag(&["quantity", "1", "kg", "bag"]),
        tag(&["price", "10", "usd", "1", "kg"]),
        tag(&["price-discount-mass", "g", "1", "kg", "0.01", "usd"]),
    ]);
    let res = ec.calculate_order(&order("10", "usd", "1", "kg", "1", "kg", 2, "bag")).unwrap();
    // 2 kg ordered: threshold 1 kg met; 2000 g * 0.01 = 20.00.
    assert_eq!(res.discounts.len(), 1);
    assert_eq!(res.discounts[0].discount_type, "mass");
    assert_eq!(res.discounts[0].discount_amount.micros, 20_000_000);
    assert_eq!(res.discounts[0].threshold_unit.as_deref(), Some("kg"));
    assert_eq!(res.total.price_amount.micros, 0);
}

#[test]
fn mass_discount_below_threshold_does_not_apply() {
    let ec = listing(vec![
        tag(&["quantity", "250", "g", "pouch"]),
        tag(&["price", "10", "usd", "1", "kg"]),
        tag(&["price-discount-mass", "g", "1", "kg", "0.01", "usd"]),
    ]);
    let res = ec.calculate_order(&order("10", "usd", "1", "kg", "250", "g", 1, "pouch")).unwrap();
    assert_eq!(res.discounts.len(), 0);
    assert_eq!(res.subtotal.price_amount.micros, 2_500_000);
}

#[test]
fn mass_discount_with_unknown_unit_fails_the_order() {
    let ec = listing(vec![
        tag(&["quantity", "1", "kg", "bag"]),
        tag(&["price", "10", "usd", "1", "kg"]),
        tag(&["price-discount-mass", "g", "1", "stone", "0.01", "usd"]),
    ]);
    let m = unsatisfiable(ec.calculate_order(&order("10", "usd", "1", "kg", "1", "kg", 2, "bag")));
    assert_eq!(m, "invalid threshold unit");
}

#[test]
fn quantity_discount_needs_exact_key_and_count() {
    let ec = listing(vec![
        tag(&["quantity", "1", "kg", "bag"]),
        tag(&["price", "10", "usd", "1", "kg"]),
        tag(&["price-discount-quantity", "1-kg-bag", "2", "1.5", "usd"]),
    ]);
    // Count below the minimum: no discount.
    let res1 = ec.calculate_order(&order("10", "usd", "1", "kg", "1", "kg", 1, "bag")).unwrap();
    assert_eq!(res1.discounts.len(), 0);
    // Count at the minimum: 1.5 per package, twice.
    let res2 = ec.calculate_order(&order("10", "usd", "1", "kg", "1", "kg", 2, "bag")).unwrap();
    assert_eq!(res2.discounts.len(), 1);
    assert_eq!(res2.discounts[0].discount_type, "quantity");
    assert_eq!(res2.discounts[0].discount_amount.micros, 3_000_000);
    assert_eq!(res2.discounts[0].threshold.unwrap().micros, 2_000_000);
}

#[test]
fn quantity_discount_never_applies_to_another_label() {
    let ec = listing(vec![
        tag(&["quantity", "1", "kg", "box"]),
        tag(&["price", "10", "usd", "1", "kg"]),
        tag(&["price-discount-quantity", "1-kg-bag", "2", "1.5", "usd"]),
    ]);
    // The ordered packaging derives "1-kg-box": no count makes it match.
    let res = ec.calculate_order(&order("10", "usd", "1", "kg", "1", "kg", 100, "box")).unwrap();
    assert_eq!(res.discounts.len(), 0);
}

#[test]
fn an_upper_case_order_unit_is_invalid() {
    let ec = listing(vec![
        tag(&["quantity", "1", "kg", "bag"]),
        tag(&["price", "10", "usd", "1", "kg"]),
    ]);
    let m = unsatisfiable(ec.calculate_order(&order("10", "usd", "1", "kg", "1", "KG", 1, "bag")));
    assert_eq!(m, "invalid quantity unit");
}

#[test]
fn discounts_may_push_the_total_negative() {
    let ec = listing(vec![
        tag(&["quantity", "1", "kg", "bag"]),
        tag(&["price", "10", "usd", "1", "kg"]),
        tag(&["price-discount-subtotal", "0", "usd", "100", "flat"]),
    ]);
    let res = ec.calculate_order(&order("10", "usd", "1", "kg", "1", "kg", 2, "bag")).unwrap();
    assert_eq!(res.subtotal.price_amount.micros, 20_000_000);
    assert_eq!(res.discounts[0].discount_amount.micros, 100_000_000);
    assert_eq!(res.total.price_amount.micros, -80_000_000);
}

#[test]
fn stacked_discounts_all_apply_in_listing_order() {
    let ec = listing(vec![
        tag(&["quantity", "1", "kg", "bag"]),
        tag(&["price", "10", "usd", "1", "kg"]),
        tag(&["price-discount-mass", "g", "1", "kg", "0.001", "usd"]),
        tag(&["price-discount-subtotal", "5", "usd", "10", "%"]),
        tag(&["price-discount-quantity", "1-kg-bag", "2", "0.25", "usd"]),
    ]);
    let res = ec.calculate_order(&order("10", "usd", "1", "kg", "1", "kg", 2, "bag")).unwrap();
    assert_eq!(res.discounts.len(), 3);
    assert_eq!(res.discounts[0].discount_type, "mass");
    assert_eq!(res.discounts[0].discount_amount.micros, 2_000_000);
    assert_eq!(res.discounts[1].discount_type, "subtotal");
    assert_eq!(res.discounts[1].discount_amount.micros, 2_000_000);
    assert_eq!(res.discounts[2].discount_type, "quantity");
    assert_eq!(res.discounts[2].discount_amount.micros, 500_000);
    // 20.00 - 2.00 - 2.00 - 0.50
    assert_eq!(res.total.price_amount.micros, 15_500_000);
}

#[test]
fn order_error_messages_read_as_feedback() {
    let e = JobRequestOrderError::Unsatisfiable("price mismatch: expected 10, got 11".to_string());
    assert_eq!(e.message(), "Request cannot be satisfied: price mismatch: expected 10, got 11");
    let p = JobRequestOrderError::ParseReference("abc".to_string());
    assert_eq!(p.message(), "Failed to parse reference event: abc");
}
