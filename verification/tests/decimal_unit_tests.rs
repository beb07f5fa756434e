use rhi::decimal::{dec_to_string, parse_decimal, Decimal};
use rhi::price::calculate_total_price;
use rhi::text::parse_u64;
use rhi::unit::{convert_mass, MassUnit, MassUnitError};

fn dec(s: &str) -> Decimal {
    parse_decimal(s).expect("numeral should parse")
}

#[test]
fn parse_whole_numbers() {
    assert_eq!(dec("10").micros, 10_000_000);
    assert_eq!(dec("0").micros, 0);
    assert_eq!(dec("100000000").micros, 100_000_000_000_000);
}

#[test]
fn parse_fractions_and_signs() {
    assert_eq!(dec("1.12").micros, 1_120_000);
    assert_eq!(dec("+0.5").micros, 500_000);
    assert_eq!(dec("-2.5").micros, -2_500_000);
    assert_eq!(dec("5.").micros, 5_000_000);
    assert_eq!(dec(".5").micros, 500_000);
    assert_eq!(dec("1.10").micros, 1_100_000);
    assert_eq!(dec("0.000001").micros, 1);
}

#[test]
fn parse_rejects_bad_shapes() {
    assert_eq!(parse_decimal(""), None);
    assert_eq!(parse_decimal("."), None);
    assert_eq!(parse_decimal("-"), None);
    assert_eq!(parse_decimal("1.2.3"), None);
    assert_eq!(parse_decimal("1e3"), None);
    assert_eq!(parse_decimal("abc"), None);
    assert_eq!(parse_decimal("1.1234567"), None);
    assert_eq!(parse_decimal("100000001"), None);
    assert_eq!(parse_decimal("1 "), None);
}

#[test]
fn precision_counts_meaningful_fraction_digits() {
    assert_eq!(dec("1.1").precision(), 1);
    assert_eq!(dec("1.12").precision(), 2);
    assert_eq!(dec("1.10").precision(), 1);
    assert_eq!(dec("3").precision(), 0);
    assert_eq!(dec("-0.25").precision(), 2);
}

#[test]
fn writes_amounts_back_out() {
    assert_eq!(dec_to_string(&dec("10")), "10");
    assert_eq!(dec_to_string(&dec("1.5")), "1.5");
    assert_eq!(dec_to_string(&dec("0.01")), "0.01");
    assert_eq!(dec_to_string(&dec("-2.25")), "-2.25");
    assert_eq!(dec_to_string(&dec("1.10")), "1.1");
    assert_eq!(dec_to_string(&Decimal { micros: 0 }), "0");
}

#[test]
fn parse_u64_follows_integer_grammar() {
    assert_eq!(parse_u64("42"), Some(42));
    assert_eq!(parse_u64("+7"), Some(7));
    assert_eq!(parse_u64("0"), Some(0));
    assert_eq!(parse_u64("18446744073709551615"), Some(u64::MAX));
    assert_eq!(parse_u64("18446744073709551616"), None);
    assert_eq!(parse_u64("-1"), None);
    assert_eq!(parse_u64(""), None);
    assert_eq!(parse_u64("+"), None);
    assert_eq!(parse_u64("1.0"), None);
}

#[test]
fn unit_names_parse_exactly() {
    assert!(matches!(MassUnit::from_str("g"), Ok(MassUnit::G)));
    assert!(matches!(MassUnit::from_str("kg"), Ok(MassUnit::Kg)));
    assert!(matches!(MassUnit::from_str("oz"), Ok(MassUnit::Oz)));
    assert!(matches!(MassUnit::from_str("lb"), Ok(MassUnit::Lb)));
    match MassUnit::from_str("KG") {
        Err(MassUnitError::InvalidUnit(s)) => assert_eq!(s, "KG"),
        _ => panic!("upper-case name must be invalid here"),
    }
    assert_eq!(MassUnit::Kg.label(), "kg");
}

#[test]
fn conversions_route_through_grams() {
    // 1 kg is exactly 1000 g.
    assert_eq!(convert_mass(&dec("1"), &MassUnit::Kg, &MassUnit::G).micros, 1_000_000_000);
    // 1 lb is exactly 453.592 g.
    assert_eq!(convert_mass(&dec("1"), &MassUnit::Lb, &MassUnit::G).micros, 453_592_000);
    // 1 oz is exactly 28.3495 g.
    assert_eq!(convert_mass(&dec("1"), &MassUnit::Oz, &MassUnit::G).micros, 28_349_500);
    // 500 g is half a kilogram.
    assert_eq!(convert_mass(&dec("500"), &MassUnit::G, &MassUnit::Kg).micros, 500_000);
}

#[test]
fn conversion_round_trips_within_epsilon() {
    // Across the worst unit pair the round trip stays within
    // (fu + fv) / (2 fu) micro-units of the start.
    let a = dec("123.456");
    let back = convert_mass(
        &convert_mass(&a, &MassUnit::G, &MassUnit::Kg),
        &MassUnit::Kg,
        &MassUnit::G,
    );
    assert!((back.micros - a.micros).abs() <= 501);

    let b = dec("2.5");
    let back2 = convert_mass(
        &convert_mass(&b, &MassUnit::Kg, &MassUnit::Oz),
        &MassUnit::Oz,
        &MassUnit::Kg,
    );
    assert!((back2.micros - b.micros).abs() <= 1);

    let c = dec("0.07");
    let back3 = convert_mass(
        &convert_mass(&c, &MassUnit::Lb, &MassUnit::Oz),
        &MassUnit::Oz,
        &MassUnit::Lb,
    );
    assert!((back3.micros - c.micros).abs() <= 1);
}

#[test]
fn amounts_in_grams_are_exact_products() {
    // 2 kg, in tenths of a milligram: 2 * 10^7 scaled by the parser's
    // micro-units.
    let v = MassUnit::Kg.amount_in_grams(&dec("2")).unwrap();
    assert_eq!(v, 2_000_000i128 * 10_000_000i128);
    let too_big = Decimal { micros: i64::MAX };
    assert!(matches!(
        MassUnit::G.amount_in_grams(&too_big),
        Err(MassUnitError::InvalidAmount(_))
    ));
}

#[test]
fn total_price_rounds_to_cents() {
    // 2 bags of 1 kg at 10 per kg: 20.00.
    let c = calculate_total_price(
        &dec("1"),
        &MassUnit::Kg,
        2,
        &dec("10"),
        &dec("1"),
        &MassUnit::Kg,
    );
    assert_eq!(c, Some(2000));
    // 3 pouches of 250 g at 7.99 per kg: round2(0.75 * 7.99) = 5.99.
    let c2 = calculate_total_price(
        &dec("250"),
        &MassUnit::G,
        3,
        &dec("7.99"),
        &dec("1"),
        &MassUnit::Kg,
    );
    assert_eq!(c2, Some(599));
    // A tier with no positive quantity cannot be priced.
    let c3 = calculate_total_price(
        &dec("1"),
        &MassUnit::Kg,
        1,
        &dec("10"),
        &dec("0"),
        &MassUnit::Kg,
    );
    assert_eq!(c3, None);
}
