use rhi::event_classified::{EventClassified, EventClassifiedDiscount};
use rhi::tags::{
    nostr_tag_at_value, nostr_tag_first_value, nostr_tag_relays_parse, nostr_tag_slice,
    nostr_tags_match, EventData, Tag,
};
use rhi::unit::MassUnit;

fn tag(parts: &[&str]) -> Tag {
    Tag(parts.iter().map(|s| s.to_string()).collect())
}

fn event_with(tags: Vec<Tag>) -> EventData {
    EventData {
        id: "listing-id".to_string(),
        pubkey: "author".to_string(),
        kind: 30402,
        created_at: 0,
        content: String::new(),
        tags,
    }
}

#[test]
fn reconstructs_quantities_prices_and_metadata() {
    let ev = event_with(vec![
        tag(&["quantity", "1", "kg", "bag"]),
        tag(&["quantity", "250", "g", "pouch"]),
        tag(&["price", "10", "usd", "1", "KG"]),
        tag(&["key", "k-1"]),
        tag(&["category", "beans"]),
        tag(&["process", "washed"]),
        tag(&["lot", "7"]),
        tag(&["profile", "floral"]),
        tag(&["year", "2025"]),
        tag(&["title", "first title"]),
        tag(&["title", "final title"]),
        tag(&["summary", "a lot of beans"]),
    ]);
    let ec = EventClassified::from_event(&ev);
    assert_eq!(ec.id, "listing-id");
    assert_eq!(ec.quantities.len(), 2);
    assert_eq!(ec.quantities[0].amount.micros, 1_000_000);
    assert_eq!(ec.quantities[0].unit, MassUnit::Kg);
    assert_eq!(ec.quantities[0].label, "bag");
    assert_eq!(ec.quantities[1].amount.micros, 250_000_000);
    assert_eq!(ec.prices.len(), 1);
    assert_eq!(ec.prices[0].amount.micros, 10_000_000);
    assert_eq!(ec.prices[0].currency, "usd");
    // The tier's unit is read after case folding.
    assert_eq!(ec.prices[0].quantity_unit, MassUnit::Kg);
    assert_eq!(ec.listing.key, "k-1");
    assert_eq!(ec.listing.category, "beans");
    assert_eq!(ec.listing.process.as_deref(), Some("washed"));
    assert_eq!(ec.listing.lot.as_deref(), Some("7"));
    assert_eq!(ec.listing.profile.as_deref(), Some("floral"));
    assert_eq!(ec.listing.year.as_deref(), Some("2025"));
    // The last tag of a kind wins.
    assert_eq!(ec.basis.title, "final title");
    assert_eq!(ec.basis.summary, "a lot of beans");
}

#[test]
fn malformed_tags_are_dropped_silently() {
    let ev = event_with(vec![
        tag(&["quantity", "x", "kg", "bag"]),
        tag(&["quantity", "1", "stone", "bag"]),
        tag(&["quantity", "1", "kg"]),
        tag(&["price", "10", "usd", "1", "stone"]),
        tag(&["price", "ten", "usd", "1", "kg"]),
        tag(&["quantity", "2", "g", "ok"]),
    ]);
    let ec = EventClassified::from_event(&ev);
    assert_eq!(ec.quantities.len(), 1);
    assert_eq!(ec.quantities[0].label, "ok");
    assert_eq!(ec.prices.len(), 0);
    assert_eq!(ec.listing.key, "");
    assert_eq!(ec.basis.title, "");
}

#[test]
fn reconstruction_is_idempotent() {
    let ev = event_with(vec![
        tag(&["quantity", "1", "kg", "bag"]),
        tag(&["price", "10", "usd", "1", "kg"]),
        tag(&["price-discount-subtotal", "5", "usd", "10", "%"]),
        tag(&["title", "beans"]),
        tag(&["location", "1 Main St", "Region", "Country"]),
        tag(&["g", "u4pruyd"]),
        tag(&["l", "1.12", "dd.lat"]),
        tag(&["l", "-3.5", "dd.lon"]),
    ]);
    let first = EventClassified::from_event(&ev);
    let second = EventClassified::from_event(&ev);
    assert_eq!(first, second);
}

#[test]
fn geolocation_keeps_the_most_precise_coordinate() {
    // Rising precision replaces the value.
    let ev = event_with(vec![
        tag(&["l", "1.1", "dd.lat"]),
        tag(&["l", "1.12", "dd.lat"]),
        tag(&["l", "2.5", "dd.lon"]),
    ]);
    let ec = EventClassified::from_event(&ev);
    let geo = ec.geolocation.expect("both axes are set");
    assert_eq!(geo.lat.micros, 1_120_000);

    // Falling precision keeps the earlier value.
    let ev2 = event_with(vec![
        tag(&["l", "1.12", "dd.lat"]),
        tag(&["l", "1.1", "dd.lat"]),
        tag(&["l", "2.5", "dd.lon"]),
    ]);
    let ec2 = EventClassified::from_event(&ev2);
    assert_eq!(ec2.geolocation.expect("both axes are set").lat.micros, 1_120_000);

    // Equal precision keeps the first value.
    let ev3 = event_with(vec![
        tag(&["l", "1.12", "dd.lat"]),
        tag(&["l", "9.99", "dd.lat"]),
        tag(&["l", "2.5", "dd.lon"]),
    ]);
    let ec3 = EventClassified::from_event(&ev3);
    assert_eq!(ec3.geolocation.expect("both axes are set").lat.micros, 1_120_000);
}

#[test]
fn whole_number_coordinates_never_enter() {
    let ev = event_with(vec![tag(&["l", "1", "dd.lat"]), tag(&["l", "2", "dd.lon"])]);
    let ec = EventClassified::from_event(&ev);
    assert!(ec.geolocation.is_none());
}

#[test]
fn geohash_alone_is_no_geolocation() {
    let ev = event_with(vec![tag(&["g", "u4pruyd"])]);
    let ec = EventClassified::from_event(&ev);
    assert!(ec.geolocation.is_none());
}

#[test]
fn longer_geohash_wins() {
    let ev = event_with(vec![
        tag(&["g", "u4pruydqqvj"]),
        tag(&["g", "u4p"]),
        tag(&["l", "1.5", "dd.lat"]),
        tag(&["l", "2.5", "dd.lon"]),
    ]);
    let ec = EventClassified::from_event(&ev);
    assert_eq!(
        ec.geolocation.expect("both axes are set").geohash.as_deref(),
        Some("u4pruydqqvj")
    );
}

#[test]
fn location_is_overwritten_as_one_unit() {
    let ev = event_with(vec![
        tag(&["location", "1 Old Rd", "Old Region", "Old Country"]),
        tag(&["location", "2 New Rd", "New Region", "New Country"]),
    ]);
    let ec = EventClassified::from_event(&ev);
    let loc = ec.location.expect("a location tag was seen");
    assert_eq!(loc.address, "2 New Rd");
    assert_eq!(loc.region, "New Region");
    assert_eq!(loc.country, "New Country");

    let none = EventClassified::from_event(&event_with(vec![tag(&["title", "x"])]));
    assert!(none.location.is_none());
}

#[test]
fn discount_tags_reconstruct_with_zero_defaults() {
    let ev = event_with(vec![
        tag(&["price-discount-subtotal", "5", "usd", "10", "%"]),
        tag(&["price-discount-subtotal", "bad", "usd", "2", "flat"]),
        tag(&["price-discount-mass", "g", "1", "kg", "0.01", "usd"]),
        tag(&["price-discount-quantity", "1-kg-bag", "3", "1.5", "usd"]),
        tag(&["price-discount-quantity", "1-kg-bag", "oops", "1.5", "usd"]),
    ]);
    let ec = EventClassified::from_event(&ev);
    assert_eq!(ec.discounts.len(), 5);
    match &ec.discounts[0] {
        EventClassifiedDiscount::Subtotal { threshold, currency, value, is_percent } => {
            assert_eq!(threshold.micros, 5_000_000);
            assert_eq!(currency, "usd");
            assert_eq!(value.micros, 10_000_000);
            assert!(*is_percent);
        },
        _ => panic!("first discount is a subtotal rule"),
    }
    match &ec.discounts[1] {
        EventClassifiedDiscount::Subtotal { threshold, is_percent, .. } => {
            assert_eq!(threshold.micros, 0);
            assert!(!*is_percent);
        },
        _ => panic!("second discount is a subtotal rule"),
    }
    match &ec.discounts[2] {
        EventClassifiedDiscount::Mass { discount_unit, threshold, threshold_unit, discount_per_unit, currency } => {
            assert_eq!(discount_unit, "g");
            assert_eq!(threshold.micros, 1_000_000);
            assert_eq!(threshold_unit, "kg");
            assert_eq!(discount_per_unit.micros, 10_000);
            assert_eq!(currency, "usd");
        },
        _ => panic!("third discount is a mass rule"),
    }
    match &ec.discounts[3] {
        EventClassifiedDiscount::Quantity { product_key, min_count, discount_per_unit, .. } => {
            assert_eq!(product_key, "1-kg-bag");
            assert_eq!(*min_count, 3);
            assert_eq!(discount_per_unit.micros, 1_500_000);
        },
        _ => panic!("fourth discount is a quantity rule"),
    }
    match &ec.discounts[4] {
        EventClassifiedDiscount::Quantity { min_count, .. } => {
            assert_eq!(*min_count, 0);
        },
        _ => panic!("fifth discount is a quantity rule"),
    }
}

#[test]
fn tags_split_into_kind_and_values() {
    let t = tag(&["price", "10", "usd"]);
    let (kind, values) = nostr_tags_match(&t).unwrap();
    assert_eq!(kind, "price");
    assert_eq!(values, vec!["10".to_string(), "usd".to_string()]);
    assert!(nostr_tags_match(&Tag(vec![])).is_none());
    assert_eq!(nostr_tag_first_value(&t, "price").as_deref(), Some("10"));
    assert_eq!(nostr_tag_first_value(&t, "quantity"), None);
    assert_eq!(nostr_tag_at_value(&t, 2).as_deref(), Some("usd"));
    assert_eq!(nostr_tag_at_value(&t, 3), None);
    assert_eq!(nostr_tag_slice(&t, 1).unwrap(), vec!["10".to_string(), "usd".to_string()]);
    assert_eq!(nostr_tag_slice(&t, 4), None);
    let r = tag(&["relays", "wss://a.example"]);
    assert_eq!(nostr_tag_relays_parse(&r).unwrap(), vec!["wss://a.example".to_string()]);
    assert!(nostr_tag_relays_parse(&t).is_none());
}
