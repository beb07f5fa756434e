//! Reconstruction of a classified listing from a message's tags, and
//! the order computation against it.
//!
//! The reconstruction never fails: every tag that does not parse is
//! dropped silently and the rest of the listing still forms.

use vstd::prelude::*;

use crate::decimal::{parse_decimal, spec_parse_dec, spec_precision, Decimal};
use crate::tags::{
    nostr_tag_match_geohash, nostr_tag_match_l, nostr_tag_match_location, nostr_tag_match_summary,
    nostr_tag_match_title, nostr_tag_first_value, spec_tag_first_value, spec_tag_match_l,
    spec_tag_match_location, tag_kind_is, EventData, Tag,
};
use crate::text::{spec_parse_u64, str_eq, parse_u64, spec_to_lower, str_eq_ignore_case, lower_char};
use crate::unit::{convert_mass_micros, spec_convert_mass, MassUnit};
use crate::decimal::{dec_to_string, spec_dec_str};
use crate::price::{
    calculate_total_price, mass_discount_cents, money_in_range, qty_discount_cents,
    spec_mass_discount_cents, spec_qty_discount_cents, spec_subtotal_cents,
    spec_subtotal_discount_cents, subtotal_discount_cents, MAX_MONEY_CENTS, MAX_TOTAL_QTY_MICROS,
};
use crate::order_classified::{
    OrderClassifiedDiscount, OrderClassifiedDiscountV, OrderClassifiedPrice,
    OrderClassifiedQuantity, OrderClassifiedResult, OrderClassifiedTotal,
};
use crate::job_request_order::{JobRequestOrderDataOrder, JobRequestOrderError};
use vstd::string::StrSliceExecFns;

verus! {

/// A listing's coordinates: the most precise latitude and longitude
/// seen, and the longest geohash.
#[derive(Clone, Debug, PartialEq)]
pub struct EventClassifiedGeolocation {
    pub geohash: Option<String>,
    pub lat: Decimal,
    pub lng: Decimal,
}

/// A listing's postal location, set as one atomic unit.
#[derive(Clone, Debug, PartialEq)]
pub struct EventClassifiedLocation {
    pub address: String,
    pub region: String,
    pub country: String,
}

/// One discount rule of a listing.
#[derive(Clone, Debug, PartialEq)]
pub enum EventClassifiedDiscount {
    /// Applies when the subtotal reaches `threshold`.
    Subtotal { threshold: Decimal, currency: String, value: Decimal, is_percent: bool },
    /// Applies when the ordered mass, in `threshold_unit`, reaches
    /// `threshold`; pays `discount_per_unit` per `discount_unit`.
    Mass {
        discount_unit: String,
        threshold: Decimal,
        threshold_unit: String,
        discount_per_unit: Decimal,
        currency: String,
    },
    /// Applies when the ordered packaging's key equals `product_key`
    /// and the count reaches `min_count`.
    Quantity { product_key: String, min_count: u32, discount_per_unit: Decimal, currency: String },
}

/// One purchasable packaging size of a listing.
#[derive(Clone, Debug, PartialEq)]
pub struct EventClassifiedQuantity {
    pub amount: Decimal,
    pub unit: MassUnit,
    pub label: String,
}

/// One price tier of a listing: `amount` of `currency` buys
/// `quantity_amount` of `quantity_unit`.
#[derive(Clone, Debug, PartialEq)]
pub struct EventClassifiedPrice {
    pub amount: Decimal,
    pub currency: String,
    pub quantity_amount: Decimal,
    pub quantity_unit: MassUnit,
}

/// A listing's catalog metadata.
#[derive(Clone, Debug, PartialEq)]
pub struct EventClassifiedListing {
    pub key: String,
    pub category: String,
    pub process: Option<String>,
    pub lot: Option<String>,
    pub profile: Option<String>,
    pub year: Option<String>,
}

/// A listing's title and summary.
#[derive(Clone, Debug, PartialEq)]
pub struct EventClassifiedBasis {
    pub title: String,
    pub summary: String,
}

/// The reconstructed listing.
#[derive(Clone, Debug, PartialEq)]
pub struct EventClassified {
    pub id: String,
    pub basis: EventClassifiedBasis,
    pub listing: EventClassifiedListing,
    pub prices: Vec<EventClassifiedPrice>,
    pub quantities: Vec<EventClassifiedQuantity>,
    pub discounts: Vec<EventClassifiedDiscount>,
    pub location: Option<EventClassifiedLocation>,
    pub geolocation: Option<EventClassifiedGeolocation>,
}

/// The amount a numeral denotes, or zero where it does not parse.
pub open spec fn spec_dec_or_zero(s: Seq<char>) -> Decimal {
    match spec_parse_dec(s) {
        Some(d) => d,
        None => Decimal { micros: 0 },
    }
}

/// The count a numeral denotes, or zero where it does not fit or parse.
pub open spec fn spec_u32_or_zero(s: Seq<char>) -> u32 {
    match spec_parse_u64(s) {
        Some(v) => if v <= u32::MAX as u64 {
            v as u32
        } else {
            0
        },
        None => 0,
    }
}

/// The packaging a `quantity` tag contributes, if any: at least three
/// values, a parsable amount and a known unit.
pub open spec fn spec_qty_of(t: Tag) -> Option<EventClassifiedQuantity> {
    if tag_kind_is(t, ("quantity")@) && t@.len() >= 4 {
        match (spec_parse_dec(t@[1]@), MassUnit::spec_unit_of(t@[2]@)) {
            (Some(a), Some(u)) => Some(
                EventClassifiedQuantity { amount: a, unit: u, label: t@[3] },
            ),
            _ => None,
        }
    } else {
        None
    }
}

/// The price tier a `price` tag contributes, if any: at least four
/// values, parsable amounts, and a unit known after case folding.
pub open spec fn spec_price_of(t: Tag) -> Option<EventClassifiedPrice> {
    if tag_kind_is(t, ("price")@) && t@.len() >= 5 {
        match (
            spec_parse_dec(t@[1]@),
            spec_parse_dec(t@[3]@),
            MassUnit::spec_unit_of(spec_to_lower(t@[4]@)),
        ) {
            (Some(a), Some(qa), Some(u)) => Some(
                EventClassifiedPrice {
                    amount: a,
                    currency: t@[2],
                    quantity_amount: qa,
                    quantity_unit: u,
                },
            ),
            _ => None,
        }
    } else {
        None
    }
}

/// The discount rule a discount tag contributes, if any; numeric fields
/// that do not parse default to zero.
pub open spec fn spec_discount_of(t: Tag) -> Option<EventClassifiedDiscount> {
    if tag_kind_is(t, ("price-discount-subtotal")@) && t@.len() >= 5 {
        Some(
            EventClassifiedDiscount::Subtotal {
                threshold: spec_dec_or_zero(t@[1]@),
                currency: t@[2],
                value: spec_dec_or_zero(t@[3]@),
                is_percent: t@[4]@ == ("%")@,
            },
        )
    } else if tag_kind_is(t, ("price-discount-mass")@) && t@.len() >= 6 {
        Some(
            EventClassifiedDiscount::Mass {
                discount_unit: t@[1],
                threshold: spec_dec_or_zero(t@[2]@),
                threshold_unit: t@[3],
                discount_per_unit: spec_dec_or_zero(t@[4]@),
                currency: t@[5],
            },
        )
    } else if tag_kind_is(t, ("price-discount-quantity")@) && t@.len() >= 5 {
        Some(
            EventClassifiedDiscount::Quantity {
                product_key: t@[1],
                min_count: spec_u32_or_zero(t@[2]@),
                discount_per_unit: spec_dec_or_zero(t@[3]@),
                currency: t@[4],
            },
        )
    } else {
        None
    }
}

/// The packagings of a tag list, in tag order.
pub open spec fn spec_quantities(tags: Seq<Tag>) -> Seq<EventClassifiedQuantity>
    decreases tags.len(),
{
    if tags.len() == 0 {
        Seq::empty()
    } else {
        spec_quantities(tags.drop_last()) + match spec_qty_of(tags.last()) {
            Some(q) => seq![q],
            None => Seq::empty(),
        }
    }
}

/// The price tiers of a tag list, in tag order.
pub open spec fn spec_prices(tags: Seq<Tag>) -> Seq<EventClassifiedPrice>
    decreases tags.len(),
{
    if tags.len() == 0 {
        Seq::empty()
    } else {
        spec_prices(tags.drop_last()) + match spec_price_of(tags.last()) {
            Some(p) => seq![p],
            None => Seq::empty(),
        }
    }
}

/// The discount rules of a tag list, in tag order.
pub open spec fn spec_discounts(tags: Seq<Tag>) -> Seq<EventClassifiedDiscount>
    decreases tags.len(),
{
    if tags.len() == 0 {
        Seq::empty()
    } else {
        spec_discounts(tags.drop_last()) + match spec_discount_of(tags.last()) {
            Some(d) => seq![d],
            None => Seq::empty(),
        }
    }
}

/// The first value of the last tag of kind `key` that carries one.
pub open spec fn spec_last_value(tags: Seq<Tag>, key: Seq<char>) -> Option<String>
    decreases tags.len(),
{
    if tags.len() == 0 {
        None
    } else {
        match spec_tag_first_value(tags.last(), key) {
            Some(v) => Some(v),
            None => spec_last_value(tags.drop_last(), key),
        }
    }
}

/// The location block of the last location tag, if any.
pub open spec fn spec_location(tags: Seq<Tag>) -> Option<EventClassifiedLocation>
    decreases tags.len(),
{
    if tags.len() == 0 {
        None
    } else {
        match spec_tag_match_location(tags.last()) {
            Some(v) => Some(
                EventClassifiedLocation { address: v.0, region: v.1, country: v.2 },
            ),
            None => spec_location(tags.drop_last()),
        }
    }
}

/// The longest geohash seen; the first of equal length stays.
pub open spec fn spec_geohash(tags: Seq<Tag>) -> Option<String>
    decreases tags.len(),
{
    if tags.len() == 0 {
        None
    } else {
        let prev = spec_geohash(tags.drop_last());
        match spec_tag_first_value(tags.last(), ("g")@) {
            Some(g) => match prev {
                Some(cur) => if g@.len() > cur@.len() {
                    Some(g)
                } else {
                    Some(cur)
                },
                None => Some(g),
            },
            None => prev,
        }
    }
}

/// The value of the most precise coordinate tag of the given axis; on
/// equal precision the earlier value stays, and a whole-number value
/// (precision zero) never enters.
pub open spec fn spec_axis(tags: Seq<Tag>, axis: Seq<char>) -> Option<Decimal>
    decreases tags.len(),
{
    if tags.len() == 0 {
        None
    } else {
        let prev = spec_axis(tags.drop_last(), axis);
        match spec_tag_match_l(tags.last()) {
            Some(kv) => if kv.0@ == axis {
                let cur_prec: int = match prev {
                    Some(c) => spec_precision(c.val()),
                    None => 0,
                };
                if spec_precision(kv.1.val()) > cur_prec {
                    Some(kv.1)
                } else {
                    prev
                }
            } else {
                prev
            },
            None => prev,
        }
    }
}

/// The geolocation block: present only when both axes were set.
pub open spec fn spec_geolocation(tags: Seq<Tag>) -> Option<EventClassifiedGeolocation> {
    match (spec_axis(tags, ("dd.lat")@), spec_axis(tags, ("dd.lon")@)) {
        (Some(la), Some(ln)) => Some(
            EventClassifiedGeolocation { geohash: spec_geohash(tags), lat: la, lng: ln },
        ),
        _ => None,
    }
}

/// A string that holds the given value, or stays empty without one.
pub open spec fn str_or_empty(actual: String, v: Option<String>) -> bool {
    match v {
        Some(s) => actual == s,
        None => actual@ == Seq::<char>::empty(),
    }
}

pub open spec fn price_wf(p: EventClassifiedPrice) -> bool {
    p.amount.in_range() && p.quantity_amount.in_range()
}

pub open spec fn qty_wf(q: EventClassifiedQuantity) -> bool {
    q.amount.in_range()
}

pub open spec fn discount_wf(d: EventClassifiedDiscount) -> bool {
    match d {
        EventClassifiedDiscount::Subtotal { threshold, value, .. } => threshold.in_range()
            && value.in_range(),
        EventClassifiedDiscount::Mass { threshold, discount_per_unit, .. } => threshold.in_range()
            && discount_per_unit.in_range(),
        EventClassifiedDiscount::Quantity { discount_per_unit, .. } => discount_per_unit.in_range(),
    }
}

impl EventClassified {
    /// Every amount of the listing lies in the fixed-point range; the
    /// reconstruction establishes this.
    pub open spec fn wf(self) -> bool {
        &&& forall|i: int| 0 <= i < self.prices@.len() ==> price_wf(#[trigger] self.prices@[i])
        &&& forall|i: int|
            0 <= i < self.quantities@.len() ==> qty_wf(#[trigger] self.quantities@[i])
        &&& forall|i: int|
            0 <= i < self.discounts@.len() ==> discount_wf(#[trigger] self.discounts@[i])
    }
}

/// Whether `r` is exactly the listing that `event`'s tags describe:
/// every field of the reconstruction is a function of the message
/// alone.
pub open spec fn spec_reconstructs(r: EventClassified, event: EventData) -> bool {
    &&& r.id == event.id
    &&& r.prices@ == spec_prices(event.tags@)
    &&& r.quantities@ == spec_quantities(event.tags@)
    &&& r.discounts@ == spec_discounts(event.tags@)
    &&& str_or_empty(r.listing.key, spec_last_value(event.tags@, ("key")@))
    &&& str_or_empty(r.listing.category, spec_last_value(event.tags@, ("category")@))
    &&& r.listing.process == spec_last_value(event.tags@, ("process")@)
    &&& r.listing.lot == spec_last_value(event.tags@, ("lot")@)
    &&& r.listing.profile == spec_last_value(event.tags@, ("profile")@)
    &&& r.listing.year == spec_last_value(event.tags@, ("year")@)
    &&& str_or_empty(r.basis.title, spec_last_value(event.tags@, ("title")@))
    &&& str_or_empty(r.basis.summary, spec_last_value(event.tags@, ("summary")@))
    &&& r.location == spec_location(event.tags@)
    &&& r.geolocation == spec_geolocation(event.tags@)
}

/// Reconstructing a listing is idempotent: two listings read from the
/// same message agree on every field.
pub proof fn lemma_reconstruction_deterministic(
    a: EventClassified,
    b: EventClassified,
    event: EventData,
)
    requires
        spec_reconstructs(a, event),
        spec_reconstructs(b, event),
    ensures
        a.id == b.id,
        a.prices@ == b.prices@,
        a.quantities@ == b.quantities@,
        a.discounts@ == b.discounts@,
        a.listing.key@ == b.listing.key@,
        a.listing.category@ == b.listing.category@,
        a.listing.process == b.listing.process,
        a.listing.lot == b.listing.lot,
        a.listing.profile == b.listing.profile,
        a.listing.year == b.listing.year,
        a.basis.title@ == b.basis.title@,
        a.basis.summary@ == b.basis.summary@,
        a.location == b.location,
        a.geolocation == b.geolocation,
{
}

impl EventClassified {
    /// Rebuilds the listing a message's tags describe, in one pass:
    /// packagings, price tiers and discount rules in tag order; the
    /// metadata fields with the last tag of a kind winning; the
    /// location as one atomic unit; coordinates kept only when their
    /// precision strictly grows; the geohash only when its length
    /// strictly grows.  The result is a function of the message alone.
    #[verifier::loop_isolation(false)]
    #[verifier::rlimit(100)]
    pub fn from_event(event: &EventData) -> (r: EventClassified)
        ensures
            spec_reconstructs(r, *event),
            r.wf(),
    {
        let mut prices: Vec<EventClassifiedPrice> = Vec::new();
        let mut quantities: Vec<EventClassifiedQuantity> = Vec::new();
        let mut discounts: Vec<EventClassifiedDiscount> = Vec::new();
        let mut key: Option<String> = None;
        let mut category: Option<String> = None;
        let mut process: Option<String> = None;
        let mut lot: Option<String> = None;
        let mut profile: Option<String> = None;
        let mut year: Option<String> = None;
        let mut title: Option<String> = None;
        let mut summary: Option<String> = None;
        let mut location: Option<EventClassifiedLocation> = None;
        let mut geohash: Option<String> = None;
        let mut lat: Option<Decimal> = None;
        let mut lng: Option<Decimal> = None;

        proof {
            reveal_strlit("dd.lat");
            reveal_strlit("dd.lon");
            assert(("dd.lat")@[4] == 'a');
            assert(("dd.lon")@[4] == 'o');
            assert(("dd.lat")@ != ("dd.lon")@);
        }
        let ghost all = event.tags@;
        let n = event.tags.len();
        let mut i: usize = 0;
        while i < n
            invariant
                0 <= i <= n == all.len(),
                prices@ == spec_prices(all.subrange(0, i as int)),
                quantities@ == spec_quantities(all.subrange(0, i as int)),
                discounts@ == spec_discounts(all.subrange(0, i as int)),
                key == spec_last_value(all.subrange(0, i as int), ("key")@),
                category == spec_last_value(all.subrange(0, i as int), ("category")@),
                process == spec_last_value(all.subrange(0, i as int), ("process")@),
                lot == spec_last_value(all.subrange(0, i as int), ("lot")@),
                profile == spec_last_value(all.subrange(0, i as int), ("profile")@),
                year == spec_last_value(all.subrange(0, i as int), ("year")@),
                title == spec_last_value(all.subrange(0, i as int), ("title")@),
                summary == spec_last_value(all.subrange(0, i as int), ("summary")@),
                location == spec_location(all.subrange(0, i as int)),
                geohash == spec_geohash(all.subrange(0, i as int)),
                lat == spec_axis(all.subrange(0, i as int), ("dd.lat")@),
                lng == spec_axis(all.subrange(0, i as int), ("dd.lon")@),
                lat matches Some(c) ==> c.in_range(),
                lng matches Some(c) ==> c.in_range(),
                forall|t: int| 0 <= t < prices@.len() ==> price_wf(#[trigger] prices@[t]),
                forall|t: int| 0 <= t < quantities@.len() ==> qty_wf(#[trigger] quantities@[t]),
                forall|t: int| 0 <= t < discounts@.len() ==> discount_wf(#[trigger] discounts@[t]),
            decreases n - i,
        {
            proof {
                assert(all.subrange(0, i as int + 1).drop_last() =~= all.subrange(0, i as int));
                assert(all.subrange(0, i as int + 1).last() == all[i as int]);
            }
            let t = &event.tags[i];

            match qty_of(t) {
                Some(q) => {
                    quantities.push(q);
                },
                None => {},
            }
            match price_of(t) {
                Some(p) => {
                    prices.push(p);
                },
                None => {},
            }
            match discount_of(t) {
                Some(d) => {
                    proof {
                        assert(discount_wf(spec_discount_of(all[i as int])->Some_0));
                    }
                    discounts.push(d);
                },
                None => {},
            }
            match nostr_tag_first_value(t, "key") {
                Some(v) => {
                    key = Some(v);
                },
                None => {},
            }
            match nostr_tag_first_value(t, "category") {
                Some(v) => {
                    category = Some(v);
                },
                None => {},
            }
            match nostr_tag_first_value(t, "process") {
                Some(v) => {
                    process = Some(v);
                },
                None => {},
            }
            match nostr_tag_first_value(t, "lot") {
                Some(v) => {
                    lot = Some(v);
                },
                None => {},
            }
            match nostr_tag_first_value(t, "profile") {
                Some(v) => {
                    profile = Some(v);
                },
                None => {},
            }
            match nostr_tag_first_value(t, "year") {
                Some(v) => {
                    year = Some(v);
                },
                None => {},
            }
            match nostr_tag_match_l(t) {
                Some((kind, v)) => {
                    if str_eq(kind.as_str(), "dd.lat") {
                        let newp = v.precision();
                        let curp: u32 = match &lat {
                            Some(c) => c.precision(),
                            None => 0,
                        };
                        if newp > curp {
                            lat = Some(v);
                        }
                    } else if str_eq(kind.as_str(), "dd.lon") {
                        let newp = v.precision();
                        let curp: u32 = match &lng {
                            Some(c) => c.precision(),
                            None => 0,
                        };
                        if newp > curp {
                            lng = Some(v);
                        }
                    }
                },
                None => {},
            }
            match nostr_tag_match_location(t) {
                Some((addr, reg, coun)) => {
                    location = Some(
                        EventClassifiedLocation { address: addr, region: reg, country: coun },
                    );
                },
                None => {},
            }
            match nostr_tag_match_geohash(t) {
                Some(g) => {
                    let replace = match &geohash {
                        Some(cur) => g.as_str().unicode_len() > cur.as_str().unicode_len(),
                        None => true,
                    };
                    if replace {
                        geohash = Some(g);
                    }
                },
                None => {},
            }
            match nostr_tag_match_title(t) {
                Some(v) => {
                    title = Some(v);
                },
                None => {},
            }
            match nostr_tag_match_summary(t) {
                Some(v) => {
                    summary = Some(v);
                },
                None => {},
            }
            i += 1;
        }
        proof {
            assert(all.subrange(0, n as int) =~= all);
        }

        let geolocation: Option<EventClassifiedGeolocation> = match (lat, lng) {
            (Some(la), Some(ln)) => Some(
                EventClassifiedGeolocation { geohash, lat: la, lng: ln },
            ),
            _ => None,
        };
        EventClassified {
            id: event.id.clone(),
            basis: EventClassifiedBasis {
                title: match title {
                    Some(v) => v,
                    None => String::new(),
                },
                summary: match summary {
                    Some(v) => v,
                    None => String::new(),
                },
            },
            listing: EventClassifiedListing {
                key: match key {
                    Some(v) => v,
                    None => String::new(),
                },
                category: match category {
                    Some(v) => v,
                    None => String::new(),
                },
                process,
                lot,
                profile,
                year,
            },
            prices,
            quantities,
            discounts,
            location,
            geolocation,
        }
    }
}

/// The packaging a `quantity` tag contributes, if any.
fn qty_of(t: &Tag) -> (r: Option<EventClassifiedQuantity>)
    ensures
        r == spec_qty_of(*t),
{
    if t.0.len() >= 4 && str_eq(t.0[0].as_str(), "quantity") {
        match (parse_decimal(t.0[1].as_str()), MassUnit::from_str(t.0[2].as_str())) {
            (Some(a), Ok(u)) => Some(
                EventClassifiedQuantity { amount: a, unit: u, label: t.0[3].clone() },
            ),
            _ => None,
        }
    } else {
        None
    }
}

/// The price tier a `price` tag contributes, if any.
fn price_of(t: &Tag) -> (r: Option<EventClassifiedPrice>)
    ensures
        r == spec_price_of(*t),
{
    if t.0.len() >= 5 && str_eq(t.0[0].as_str(), "price") {
        match (
            parse_decimal(t.0[1].as_str()),
            parse_decimal(t.0[3].as_str()),
            MassUnit::from_str_lower(t.0[4].as_str()),
        ) {
            (Some(a), Some(qa), Some(u)) => Some(
                EventClassifiedPrice {
                    amount: a,
                    currency: t.0[2].clone(),
                    quantity_amount: qa,
                    quantity_unit: u,
                },
            ),
            _ => None,
        }
    } else {
        None
    }
}

/// The amount a numeral denotes, or zero where it does not parse.
fn dec_or_zero(s: &str) -> (r: Decimal)
    ensures
        r == spec_dec_or_zero(s@),
        r.in_range(),
{
    match parse_decimal(s) {
        Some(d) => d,
        None => Decimal { micros: 0 },
    }
}

/// The count a numeral denotes, or zero where it does not fit or parse.
fn u32_or_zero(s: &str) -> (r: u32)
    ensures
        r == spec_u32_or_zero(s@),
{
    match parse_u64(s) {
        Some(v) => if v <= u32::MAX as u64 {
            v as u32
        } else {
            0
        },
        None => 0,
    }
}

/// The discount rule a discount tag contributes, if any.
fn discount_of(t: &Tag) -> (r: Option<EventClassifiedDiscount>)
    ensures
        r == spec_discount_of(*t),
{
    if t.0.len() >= 5 && str_eq(t.0[0].as_str(), "price-discount-subtotal") {
        Some(
            EventClassifiedDiscount::Subtotal {
                threshold: dec_or_zero(t.0[1].as_str()),
                currency: t.0[2].clone(),
                value: dec_or_zero(t.0[3].as_str()),
                is_percent: str_eq(t.0[4].as_str(), "%"),
            },
        )
    } else if t.0.len() >= 6 && str_eq(t.0[0].as_str(), "price-discount-mass") {
        Some(
            EventClassifiedDiscount::Mass {
                discount_unit: t.0[1].clone(),
                threshold: dec_or_zero(t.0[2].as_str()),
                threshold_unit: t.0[3].clone(),
                discount_per_unit: dec_or_zero(t.0[4].as_str()),
                currency: t.0[5].clone(),
            },
        )
    } else if t.0.len() >= 5 && str_eq(t.0[0].as_str(), "price-discount-quantity") {
        Some(
            EventClassifiedDiscount::Quantity {
                product_key: t.0[1].clone(),
                min_count: u32_or_zero(t.0[2].as_str()),
                discount_per_unit: dec_or_zero(t.0[3].as_str()),
                currency: t.0[4].clone(),
            },
        )
    } else {
        None
    }
}


/// The key that names an ordered packaging: amount, lower-cased unit
/// and label, dash separated.
pub open spec fn spec_package_key(amount: int, unit: Seq<char>, label: Seq<char>) -> Seq<char> {
    spec_dec_str(amount) + seq!['-'] + spec_to_lower(unit) + seq!['-'] + label
}

/// Whether `product_key` is exactly the ordered packaging's key.
#[verifier::loop_isolation(false)]
#[verifier::rlimit(80)]
fn key_matches(product_key: &str, amount: &Decimal, unit: &str, label: &str) -> (r: bool)
    ensures
        r == (product_key@ == spec_package_key(amount.val(), unit@, label@)),
{
    let a = dec_to_string(amount);
    let ghost kk = spec_package_key(amount.val(), unit@, label@);
    let la = a.as_str().unicode_len();
    let lu = unit.unicode_len();
    let ll = label.unicode_len();
    let lk = product_key.unicode_len();
    proof {
        assert(kk.len() == la + 1 + lu + 1 + ll);
    }
    if lk < la {
        return false;
    }
    let r1 = lk - la;
    if r1 < 1 {
        return false;
    }
    let r2 = r1 - 1;
    if r2 < lu {
        return false;
    }
    let r3 = r2 - lu;
    if r3 < 1 {
        return false;
    }
    let r4 = r3 - 1;
    if r4 != ll {
        return false;
    }
    assert(lk == la + 1 + lu + 1 + ll);
    let mut i: usize = 0;
    while i < la
        invariant
            0 <= i <= la,
            forall|t: int| 0 <= t < i ==> product_key@[t] == kk[t],
        decreases la - i,
    {
        proof {
            assert(kk[i as int] == a@[i as int]);
        }
        if product_key.get_char(i) != a.as_str().get_char(i) {
            return false;
        }
        i += 1;
    }
    proof {
        assert(kk[la as int] == '-');
    }
    if product_key.get_char(la) != '-' {
        return false;
    }
    let mut j: usize = 0;
    while j < lu
        invariant
            0 <= j <= lu,
            forall|t: int| 0 <= t < j ==> #[trigger] product_key@[la + 1 + t] == kk[la + 1 + t],
        decreases lu - j,
    {
        proof {
            assert(kk[la + 1 + j as int] == spec_to_lower(unit@)[j as int]);
        }
        if product_key.get_char(la + 1 + j) != lower_char(unit.get_char(j)) {
            return false;
        }
        j += 1;
    }
    proof {
        assert(kk[la + 1 + lu as int] == '-');
    }
    if product_key.get_char(la + 1 + lu) != '-' {
        return false;
    }
    let mut m: usize = 0;
    while m < ll
        invariant
            0 <= m <= ll,
            forall|t: int| 0 <= t < m ==> #[trigger] product_key@[la + 2 + lu + t] == kk[la + 2 + lu + t],
        decreases ll - m,
    {
        proof {
            assert(kk[la + 2 + lu + m as int] == label@[m as int]);
        }
        if product_key.get_char(la + 2 + lu + m) != label.get_char(m) {
            return false;
        }
        m += 1;
    }
    proof {
        assert forall|t: int| 0 <= t < kk.len() implies product_key@[t] == kk[t] by {
            if t < la {
            } else if t == la {
            } else if t < la + 1 + lu {
                assert(product_key@[la + 1 + (t - la - 1)] == kk[la + 1 + (t - la - 1)]);
            } else if t == la + 1 + lu {
            } else {
                assert(product_key@[la + 2 + lu + (t - la - 2 - lu)] == kk[la + 2 + lu + (t - la
                    - 2 - lu)]);
            }
        }
        assert(product_key@ =~= kk);
    }
    true
}

/// Whether a listed packaging is the ordered one: same unit, equal
/// amount.
pub open spec fn qty_matches(q: EventClassifiedQuantity, unit: MassUnit, amount: Decimal) -> bool {
    q.unit == unit && q.amount.val() == amount.val()
}

/// Whether some listed packaging is the ordered one.
pub open spec fn spec_has_packaging(
    qs: Seq<EventClassifiedQuantity>,
    unit: MassUnit,
    amount: Decimal,
) -> bool {
    exists|i: int| 0 <= i < qs.len() && qty_matches(qs[i], unit, amount)
}

/// Whether a listed tier matches the quoted one: same unit, equal
/// quantity, same currency up to case.
pub open spec fn tier_matches(
    p: EventClassifiedPrice,
    unit: MassUnit,
    qty_amount: Decimal,
    currency_lower: Seq<char>,
) -> bool {
    p.quantity_unit == unit && p.quantity_amount.val() == qty_amount.val() && spec_to_lower(
        p.currency@,
    ) == currency_lower
}

/// Index of the first matching tier.
pub open spec fn spec_tier_index(
    ps: Seq<EventClassifiedPrice>,
    unit: MassUnit,
    qty_amount: Decimal,
    currency_lower: Seq<char>,
) -> Option<int>
    decreases ps.len(),
{
    if ps.len() == 0 {
        None
    } else if tier_matches(ps[0], unit, qty_amount, currency_lower) {
        Some(0)
    } else {
        match spec_tier_index(ps.drop_first(), unit, qty_amount, currency_lower) {
            Some(j) => Some(j + 1),
            None => None,
        }
    }
}

proof fn lemma_tier_first(
    ps: Seq<EventClassifiedPrice>,
    unit: MassUnit,
    qty_amount: Decimal,
    currency_lower: Seq<char>,
    i: int,
)
    requires
        0 <= i <= ps.len(),
        forall|t: int| 0 <= t < i ==> !tier_matches(#[trigger] ps[t], unit, qty_amount, currency_lower),
        i < ps.len() ==> tier_matches(ps[i], unit, qty_amount, currency_lower),
    ensures
        spec_tier_index(ps, unit, qty_amount, currency_lower) == if i < ps.len() {
            Some(i)
        } else {
            None::<int>
        },
    decreases i,
{
    if i == 0 {
    } else {
        assert(!tier_matches(ps[0], unit, qty_amount, currency_lower));
        assert(forall|t: int|
            0 <= t < i - 1 ==> !tier_matches(
                #[trigger] ps.drop_first()[t],
                unit,
                qty_amount,
                currency_lower,
            ));
        if i < ps.len() {
            assert(tier_matches(ps.drop_first()[i - 1], unit, qty_amount, currency_lower));
        }
        lemma_tier_first(ps.drop_first(), unit, qty_amount, currency_lower, i - 1);
    }
}

/// What one discount rule does against the order: does not apply, adds
/// one applied discount, or fails the whole computation.
pub open spec fn spec_discount_step(
    d: EventClassifiedDiscount,
    total_qty: int,
    qty_unit: MassUnit,
    subtotal_cents: int,
    package_key: Seq<char>,
    count: u32,
) -> Result<Option<OrderClassifiedDiscountV>, Seq<char>> {
    match d {
        EventClassifiedDiscount::Subtotal { threshold, currency, value, is_percent } => {
            if subtotal_cents * 10_000 < threshold.val() {
                Ok(None)
            } else {
                let amt = spec_subtotal_discount_cents(subtotal_cents, value.val(), is_percent);
                if !money_in_range(amt) {
                    Err(("amount out of range")@)
                } else {
                    Ok(
                        Some(
                            OrderClassifiedDiscountV {
                                discount_type: ("subtotal")@,
                                threshold: Some(threshold),
                                threshold_unit: None,
                                discount_per_unit: None,
                                discount_unit: None,
                                discount_percent: if is_percent {
                                    Some(value)
                                } else {
                                    None
                                },
                                discount_amount: Decimal { micros: (amt * 10_000) as i64 },
                                currency: currency@,
                            },
                        ),
                    )
                }
            }
        },
        EventClassifiedDiscount::Mass {
            discount_unit,
            threshold,
            threshold_unit,
            discount_per_unit,
            currency,
        } => {
            match MassUnit::spec_unit_of(threshold_unit@) {
                None => Err(("invalid threshold unit")@),
                Some(tu) => match MassUnit::spec_unit_of(discount_unit@) {
                    None => Err(("invalid discount unit")@),
                    Some(du) => {
                        if spec_convert_mass(total_qty, qty_unit, tu) < threshold.val() {
                            Ok(None)
                        } else {
                            let amt = spec_mass_discount_cents(
                                spec_convert_mass(total_qty, qty_unit, du),
                                discount_per_unit.val(),
                            );
                            if !money_in_range(amt) {
                                Err(("amount out of range")@)
                            } else {
                                Ok(
                                    Some(
                                        OrderClassifiedDiscountV {
                                            discount_type: ("mass")@,
                                            threshold: Some(threshold),
                                            threshold_unit: Some(threshold_unit@),
                                            discount_per_unit: Some(discount_per_unit),
                                            discount_unit: Some(discount_unit@),
                                            discount_percent: None,
                                            discount_amount: Decimal {
                                                micros: (amt * 10_000) as i64,
                                            },
                                            currency: currency@,
                                        },
                                    ),
                                )
                            }
                        }
                    },
                },
            }
        },
        EventClassifiedDiscount::Quantity { product_key, min_count, discount_per_unit, currency } => {
            if product_key@ != package_key || count < min_count {
                Ok(None)
            } else {
                let amt = spec_qty_discount_cents(discount_per_unit.val(), count as int);
                if !money_in_range(amt) {
                    Err(("amount out of range")@)
                } else {
                    Ok(
                        Some(
                            OrderClassifiedDiscountV {
                                discount_type: ("quantity")@,
                                threshold: Some(
                                    Decimal { micros: (min_count as int * 1_000_000) as i64 },
                                ),
                                threshold_unit: None,
                                discount_per_unit: Some(discount_per_unit),
                                discount_unit: None,
                                discount_percent: None,
                                discount_amount: Decimal { micros: (amt * 10_000) as i64 },
                                currency: currency@,
                            },
                        ),
                    )
                }
            }
        },
    }
}

/// The applied discounts of the whole rule list, in listing order; the
/// first failing rule fails the computation.
pub open spec fn spec_order_discounts(
    ds: Seq<EventClassifiedDiscount>,
    total_qty: int,
    qty_unit: MassUnit,
    subtotal_cents: int,
    package_key: Seq<char>,
    count: u32,
) -> Result<Seq<OrderClassifiedDiscountV>, Seq<char>>
    decreases ds.len(),
{
    if ds.len() == 0 {
        Ok(Seq::empty())
    } else {
        match spec_order_discounts(
            ds.drop_last(),
            total_qty,
            qty_unit,
            subtotal_cents,
            package_key,
            count,
        ) {
            Err(e) => Err(e),
            Ok(pre) => match spec_discount_step(
                ds.last(),
                total_qty,
                qty_unit,
                subtotal_cents,
                package_key,
                count,
            ) {
                Err(e) => Err(e),
                Ok(None) => Ok(pre),
                Ok(Some(dv)) => Ok(pre.push(dv)),
            },
        }
    }
}

proof fn lemma_discounts_err(
    ds: Seq<EventClassifiedDiscount>,
    total_qty: int,
    qty_unit: MassUnit,
    subtotal_cents: int,
    package_key: Seq<char>,
    count: u32,
    i: int,
)
    requires
        0 <= i < ds.len(),
        spec_order_discounts(
            ds.subrange(0, i),
            total_qty,
            qty_unit,
            subtotal_cents,
            package_key,
            count,
        ) is Ok,
        spec_discount_step(ds[i], total_qty, qty_unit, subtotal_cents, package_key, count) is Err,
    ensures
        spec_order_discounts(ds, total_qty, qty_unit, subtotal_cents, package_key, count) == Err::<
            Seq<OrderClassifiedDiscountV>,
            Seq<char>,
        >(
            spec_discount_step(
                ds[i],
                total_qty,
                qty_unit,
                subtotal_cents,
                package_key,
                count,
            )->Err_0,
        ),
    decreases ds.len(),
{
    if ds.len() == i + 1 {
        assert(ds.drop_last() =~= ds.subrange(0, i));
        assert(ds.last() == ds[i]);
    } else {
        assert(ds.drop_last().subrange(0, i) =~= ds.subrange(0, i));
        assert(ds.drop_last()[i] == ds[i]);
        lemma_discounts_err(
            ds.drop_last(),
            total_qty,
            qty_unit,
            subtotal_cents,
            package_key,
            count,
            i,
        );
    }
}

/// A quantity discount whose product key is not the ordered
/// packaging's key never applies, whatever the ordered count.
pub proof fn lemma_quantity_discount_needs_key(
    product_key: String,
    min_count: u32,
    discount_per_unit: Decimal,
    currency: String,
    total_qty: int,
    qty_unit: MassUnit,
    subtotal_cents: int,
    package_key: Seq<char>,
    count: u32,
)
    requires
        product_key@ != package_key,
    ensures
        spec_discount_step(
            EventClassifiedDiscount::Quantity { product_key, min_count, discount_per_unit, currency },
            total_qty,
            qty_unit,
            subtotal_cents,
            package_key,
            count,
        ) == Ok::<Option<OrderClassifiedDiscountV>, Seq<char>>(None),
{
}

/// Sum, in micro-units, of the applied discounts' amounts.
pub open spec fn spec_discounts_amount_micros(sf: Seq<OrderClassifiedDiscountV>) -> int
    decreases sf.len(),
{
    if sf.len() == 0 {
        0
    } else {
        spec_discounts_amount_micros(sf.drop_last()) + sf.last().discount_amount.val()
    }
}

impl JobRequestOrderDataOrder {
    /// The unit the order's packaging names.
    pub open spec fn spec_qty_unit(self) -> Option<MassUnit> {
        MassUnit::spec_unit_of(self.quantity.unit@)
    }

    /// The unit the order's quoted tier names.
    pub open spec fn spec_price_unit(self) -> Option<MassUnit> {
        MassUnit::spec_unit_of(self.price.quantity_unit@)
    }

    /// The total ordered quantity, in micro-units of the packaging's
    /// unit.
    pub open spec fn spec_total_qty(self) -> int {
        self.quantity.amount.val() * (self.quantity.count as int)
    }

    /// The key the ordered packaging derives.
    pub open spec fn spec_package_key_of(self) -> Seq<char> {
        spec_package_key(self.quantity.amount.val(), self.quantity.unit@, self.quantity.label@)
    }
}

impl EventClassified {
    /// Index of the listing tier the order's quoted tier matches.
    pub open spec fn spec_order_tier(self, order: JobRequestOrderDataOrder) -> Option<int> {
        spec_tier_index(
            self.prices@,
            order.spec_price_unit()->Some_0,
            order.price.quantity_amount,
            spec_to_lower(order.price.currency@),
        )
    }

    /// The order's subtotal, in cents.
    pub open spec fn spec_order_subtotal(self, order: JobRequestOrderDataOrder) -> int {
        let tier = self.prices@[self.spec_order_tier(order)->Some_0];
        spec_subtotal_cents(
            order.spec_total_qty(),
            order.spec_qty_unit()->Some_0,
            tier.amount.val(),
            tier.quantity_amount.val(),
            order.spec_price_unit()->Some_0,
        )
    }

    /// The order's applied discounts, or the message of the rule that
    /// failed.
    pub open spec fn spec_order_discount_list(self, order: JobRequestOrderDataOrder) -> Result<
        Seq<OrderClassifiedDiscountV>,
        Seq<char>,
    > {
        spec_order_discounts(
            self.discounts@,
            order.spec_total_qty(),
            order.spec_qty_unit()->Some_0,
            self.spec_order_subtotal(order),
            order.spec_package_key_of(),
            order.quantity.count,
        )
    }

    /// The order's total, in micro-units.
    pub open spec fn spec_order_total_micros(self, order: JobRequestOrderDataOrder) -> int {
        self.spec_order_subtotal(order) * 10_000 - spec_discounts_amount_micros(
            self.spec_order_discount_list(order)->Ok_0,
        )
    }

    /// The reason the order fails, or `None` where it goes through:
    /// the checks run in this order, and the first failing one names
    /// the error.
    pub open spec fn spec_order_err(self, order: JobRequestOrderDataOrder) -> Option<Seq<char>> {
        if order.spec_qty_unit() is None {
            Some(("invalid quantity unit")@)
        } else if order.spec_price_unit() is None {
            Some(("invalid price quantity unit")@)
        } else if !spec_has_packaging(
            self.quantities@,
            order.spec_qty_unit()->Some_0,
            order.quantity.amount,
        ) {
            Some(
                ("requested packaging ")@ + spec_dec_str(order.quantity.amount.val()) + (" ")@
                    + order.quantity.unit@ + (" not available")@,
            )
        } else {
            match self.spec_order_tier(order) {
                None => Some(
                    ("no matching price tier ")@ + spec_dec_str(order.price.quantity_amount.val())
                        + (" ")@ + order.price.quantity_unit@ + (" found")@,
                ),
                Some(ti) => {
                    let tier = self.prices@[ti];
                    if tier.amount.val() != order.price.amount.val() {
                        Some(
                            ("price mismatch: expected ")@ + spec_dec_str(tier.amount.val()) + (
                            ", got ")@ + spec_dec_str(order.price.amount.val()),
                        )
                    } else if tier.quantity_amount.val() <= 0 || order.spec_total_qty()
                        > MAX_TOTAL_QTY_MICROS || order.spec_total_qty() < -MAX_TOTAL_QTY_MICROS
                        || !money_in_range(self.spec_order_subtotal(order)) {
                        Some(("amount out of range")@)
                    } else {
                        match self.spec_order_discount_list(order) {
                            Err(m) => Some(m),
                            Ok(sf) => {
                                let total = self.spec_order_total_micros(order);
                                if total > (MAX_MONEY_CENTS as int) * 10_000 || total < -(
                                MAX_MONEY_CENTS as int) * 10_000 {
                                    Some(("amount out of range")@)
                                } else {
                                    None
                                }
                            },
                        }
                    }
                },
            }
        }
    }

    /// Computes the order against this listing: validates the units,
    /// the packaging, the tier and the quoted price, then computes the
    /// subtotal, applies every matching discount in listing order, and
    /// totals.  Every failure is an `Unsatisfiable` whose message
    /// `spec_order_err` pins down; on success every block of the
    /// result is pinned down.
    #[verifier::loop_isolation(false)]
    #[verifier::rlimit(100)]
    pub fn calculate_order(&self, order: &JobRequestOrderDataOrder) -> (r: Result<
        OrderClassifiedResult,
        JobRequestOrderError,
    >)
        requires
            self.wf(),
        ensures
            match r {
                Err(e) => e matches JobRequestOrderError::Unsatisfiable(m)
                    && self.spec_order_err(*order) == Some(m@),
                Ok(res) => self.spec_order_err(*order) is None && ({
                    let tier = self.prices@[self.spec_order_tier(*order)->Some_0];
                    let sf = self.spec_order_discount_list(*order)->Ok_0;
                    &&& res.quantity.amount == order.quantity.amount
                    &&& res.quantity.unit == order.quantity.unit
                    &&& res.quantity.label == order.quantity.label
                    &&& res.price.amount == tier.amount
                    &&& res.price.currency == tier.currency
                    &&& res.price.quantity_amount == tier.quantity_amount
                    &&& res.price.quantity_unit == order.price.quantity_unit
                    &&& res.discounts@.len() == sf.len()
                    &&& forall|i: int| 0 <= i < sf.len() ==> #[trigger] res.discounts@[i]@ == sf[i]
                    &&& res.subtotal.price_amount.val() == self.spec_order_subtotal(*order)
                        * 10_000
                    &&& res.subtotal.price_currency == tier.currency
                    &&& res.subtotal.quantity_amount.val() == order.spec_total_qty()
                    &&& res.subtotal.quantity_unit == order.quantity.unit
                    &&& res.total.price_amount.val() == self.spec_order_total_micros(*order)
                    &&& res.total.price_currency == tier.currency
                    &&& res.total.quantity_amount.val() == order.spec_total_qty()
                    &&& res.total.quantity_unit == order.quantity.unit
                }),
            },
    {
        // Units of the requested packaging and the quoted tier.
        let qty_unit = match MassUnit::from_str(order.quantity.unit.as_str()) {
            Ok(u) => u,
            Err(_) => {
                return Err(
                    JobRequestOrderError::Unsatisfiable("invalid quantity unit".to_owned()),
                );
            },
        };
        let price_unit = match MassUnit::from_str(order.price.quantity_unit.as_str()) {
            Ok(u) => u,
            Err(_) => {
                return Err(
                    JobRequestOrderError::Unsatisfiable("invalid price quantity unit".to_owned()),
                );
            },
        };

        // The requested packaging must be one the listing offers.
        let mut matched = false;
        let mut qi: usize = 0;
        while qi < self.quantities.len()
            invariant
                0 <= qi <= self.quantities@.len(),
                matched == exists|t: int|
                    0 <= t < qi && qty_matches(#[trigger] self.quantities@[t], qty_unit, order.quantity.amount),
            decreases self.quantities@.len() - qi,
        {
            let q = &self.quantities[qi];
            if q.unit == qty_unit && q.amount.micros == order.quantity.amount.micros {
                matched = true;
            }
            qi += 1;
        }
        if !matched {
            let mut m = String::new();
            m.append("requested packaging ");
            let astr = dec_to_string(&order.quantity.amount);
            m.append(astr.as_str());
            m.append(" ");
            m.append(order.quantity.unit.as_str());
            m.append(" not available");
            proof {
                assert(m@ =~= ("requested packaging ")@ + spec_dec_str(order.quantity.amount.val())
                    + (" ")@ + order.quantity.unit@ + (" not available")@);
            }
            return Err(JobRequestOrderError::Unsatisfiable(m));
        }

        // The quoted tier must exist on the listing.
        let ghost cl = spec_to_lower(order.price.currency@);
        let mut ti: usize = 0;
        let mut tier_found = false;
        while ti < self.prices.len() && !tier_found
            invariant
                0 <= ti <= self.prices@.len(),
                !tier_found ==> forall|t: int|
                    0 <= t < ti ==> !tier_matches(
                        #[trigger] self.prices@[t],
                        price_unit,
                        order.price.quantity_amount,
                        cl,
                    ),
                tier_found ==> ti < self.prices@.len() && tier_matches(
                    self.prices@[ti as int],
                    price_unit,
                    order.price.quantity_amount,
                    cl,
                ) && forall|t: int|
                    0 <= t < ti ==> !tier_matches(
                        #[trigger] self.prices@[t],
                        price_unit,
                        order.price.quantity_amount,
                        cl,
                    ),
            decreases self.prices@.len() - ti + (if tier_found { 0int } else { 1int }),
        {
            let p = &self.prices[ti];
            if p.quantity_unit == price_unit && p.quantity_amount.micros
                == order.price.quantity_amount.micros && str_eq_ignore_case(
                p.currency.as_str(),
                order.price.currency.as_str(),
            ) {
                tier_found = true;
            } else {
                ti += 1;
            }
        }
        proof {
            if tier_found {
                lemma_tier_first(self.prices@, price_unit, order.price.quantity_amount, cl, ti as int);
            } else {
                lemma_tier_first(
                    self.prices@,
                    price_unit,
                    order.price.quantity_amount,
                    cl,
                    self.prices@.len() as int,
                );
            }
        }
        if !tier_found {
            let mut m = String::new();
            m.append("no matching price tier ");
            let astr = dec_to_string(&order.price.quantity_amount);
            m.append(astr.as_str());
            m.append(" ");
            m.append(order.price.quantity_unit.as_str());
            m.append(" found");
            proof {
                assert(m@ =~= ("no matching price tier ")@ + spec_dec_str(
                    order.price.quantity_amount.val(),
                ) + (" ")@ + order.price.quantity_unit@ + (" found")@);
            }
            return Err(JobRequestOrderError::Unsatisfiable(m));
        }
        let tier_amount = self.prices[ti].amount;
        let tier_qty_amount = self.prices[ti].quantity_amount;

        // The quoted price must still be the listed one.
        if tier_amount.micros != order.price.amount.micros {
            let mut m = String::new();
            m.append("price mismatch: expected ");
            let astr = dec_to_string(&tier_amount);
            m.append(astr.as_str());
            m.append(", got ");
            let gstr = dec_to_string(&order.price.amount);
            m.append(gstr.as_str());
            proof {
                assert(m@ =~= ("price mismatch: expected ")@ + spec_dec_str(tier_amount.val()) + (
                ", got ")@ + spec_dec_str(order.price.amount.val()));
            }
            return Err(JobRequestOrderError::Unsatisfiable(m));
        }

        // Subtotal of the ordered mass at the tier's rate.
        proof {
            let w = choose|t: int|
                0 <= t < self.quantities@.len() && qty_matches(
                    #[trigger] self.quantities@[t],
                    qty_unit,
                    order.quantity.amount,
                );
            assert(qty_wf(self.quantities@[w]));
            assert(order.quantity.amount.in_range());
            assert(price_wf(self.prices@[ti as int]));
        }
        let sub = match calculate_total_price(
            &order.quantity.amount,
            &qty_unit,
            order.quantity.count,
            &tier_amount,
            &tier_qty_amount,
            &price_unit,
        ) {
            Some(c) => c,
            None => {
                return Err(JobRequestOrderError::Unsatisfiable("amount out of range".to_owned()));
            },
        };
        let total_qty: i128 = (order.quantity.amount.micros as i128) * (order.quantity.count as i128);
        let count = order.quantity.count;

        // Every discount rule, in listing order.
        let ghost gtq = order.spec_total_qty();
        let ghost gkey = order.spec_package_key_of();
        let mut applied: Vec<OrderClassifiedDiscount> = Vec::new();
        let mut sum_cents: i128 = 0;
        let ghost all = self.discounts@;
        let n = self.discounts.len();
        let mut di: usize = 0;
        while di < n
            invariant
                0 <= di <= n == all.len(),
                spec_order_discounts(all.subrange(0, di as int), gtq, qty_unit, sub as int, gkey, count)
                    matches Ok(pre) && applied@.len() == pre.len() && (forall|t: int|
                    0 <= t < pre.len() ==> #[trigger] applied@[t]@ == pre[t])
                    && sum_cents * 10_000 == spec_discounts_amount_micros(pre),
                -(di as int) * (MAX_MONEY_CENTS as int) <= sum_cents <= (di as int) * (
                MAX_MONEY_CENTS as int),
            decreases n - di,
        {
            proof {
                assert(all.subrange(0, di as int + 1).drop_last() =~= all.subrange(0, di as int));
                assert(all.subrange(0, di as int + 1).last() == all[di as int]);
            }
            let ghost pre = spec_order_discounts(
                all.subrange(0, di as int),
                gtq,
                qty_unit,
                sub as int,
                gkey,
                count,
            )->Ok_0;
            let d = &self.discounts[di];
            match d {
                EventClassifiedDiscount::Subtotal { threshold, currency, value, is_percent } => {
                    if (sub as i128) * 10_000 >= threshold.micros as i128 {
                        match subtotal_discount_cents(sub, value, *is_percent) {
                            Some(amt) => {
                                let dv = OrderClassifiedDiscount {
                                    discount_type: "subtotal".to_owned(),
                                    threshold: Some(*threshold),
                                    threshold_unit: None,
                                    discount_per_unit: None,
                                    discount_unit: None,
                                    discount_percent: if *is_percent {
                                        Some(*value)
                                    } else {
                                        None
                                    },
                                    discount_amount: Decimal { micros: amt * 10_000 },
                                    currency: currency.clone(),
                                };
                                proof {
                                    let gdv = dv@;
                                    assert(spec_discount_step(
                                        all[di as int],
                                        gtq,
                                        qty_unit,
                                        sub as int,
                                        gkey,
                                        count,
                                    ) == Ok::<Option<OrderClassifiedDiscountV>, Seq<char>>(
                                        Some(gdv),
                                    ));
                                    assert(pre.push(gdv).drop_last() =~= pre);
                                    assert(spec_order_discounts(
                                        all.subrange(0, di as int + 1),
                                        gtq,
                                        qty_unit,
                                        sub as int,
                                        gkey,
                                        count,
                                    ) == Ok::<Seq<OrderClassifiedDiscountV>, Seq<char>>(
                                        pre.push(gdv),
                                    ));
                                }
                                applied.push(dv);
                                sum_cents = sum_cents + amt as i128;
                            },
                            None => {
                                proof {
                                    lemma_discounts_err(
                                        all,
                                        gtq,
                                        qty_unit,
                                        sub as int,
                                        gkey,
                                        count,
                                        di as int,
                                    );
                                }
                                return Err(
                                    JobRequestOrderError::Unsatisfiable(
                                        "amount out of range".to_owned(),
                                    ),
                                );
                            },
                        }
                    }
                },
                EventClassifiedDiscount::Mass {
                    discount_unit,
                    threshold,
                    threshold_unit,
                    discount_per_unit,
                    currency,
                } => {
                    let tu = match MassUnit::from_str(threshold_unit.as_str()) {
                        Ok(u) => u,
                        Err(_) => {
                            proof {
                                lemma_discounts_err(
                                    all,
                                    gtq,
                                    qty_unit,
                                    sub as int,
                                    gkey,
                                    count,
                                    di as int,
                                );
                            }
                            return Err(
                                JobRequestOrderError::Unsatisfiable(
                                    "invalid threshold unit".to_owned(),
                                ),
                            );
                        },
                    };
                    let du = match MassUnit::from_str(discount_unit.as_str()) {
                        Ok(u) => u,
                        Err(_) => {
                            proof {
                                lemma_discounts_err(
                                    all,
                                    gtq,
                                    qty_unit,
                                    sub as int,
                                    gkey,
                                    count,
                                    di as int,
                                );
                            }
                            return Err(
                                JobRequestOrderError::Unsatisfiable(
                                    "invalid discount unit".to_owned(),
                                ),
                            );
                        },
                    };
                    let qty_in_th = convert_mass_micros(total_qty, &qty_unit, &tu);
                    if qty_in_th >= threshold.micros as i128 {
                        let qty_in_dis = convert_mass_micros(total_qty, &qty_unit, &du);
                        match mass_discount_cents(qty_in_dis, discount_per_unit) {
                            Some(amt) => {
                                let dv = OrderClassifiedDiscount {
                                    discount_type: "mass".to_owned(),
                                    threshold: Some(*threshold),
                                    threshold_unit: Some(threshold_unit.clone()),
                                    discount_per_unit: Some(*discount_per_unit),
                                    discount_unit: Some(discount_unit.clone()),
                                    discount_percent: None,
                                    discount_amount: Decimal { micros: amt * 10_000 },
                                    currency: currency.clone(),
                                };
                                proof {
                                    let gdv = dv@;
                                    assert(spec_discount_step(
                                        all[di as int],
                                        gtq,
                                        qty_unit,
                                        sub as int,
                                        gkey,
                                        count,
                                    ) == Ok::<Option<OrderClassifiedDiscountV>, Seq<char>>(
                                        Some(gdv),
                                    ));
                                    assert(pre.push(gdv).drop_last() =~= pre);
                                    assert(spec_order_discounts(
                                        all.subrange(0, di as int + 1),
                                        gtq,
                                        qty_unit,
                                        sub as int,
                                        gkey,
                                        count,
                                    ) == Ok::<Seq<OrderClassifiedDiscountV>, Seq<char>>(
                                        pre.push(gdv),
                                    ));
                                }
                                applied.push(dv);
                                sum_cents = sum_cents + amt as i128;
                            },
                            None => {
                                proof {
                                    lemma_discounts_err(
                                        all,
                                        gtq,
                                        qty_unit,
                                        sub as int,
                                        gkey,
                                        count,
                                        di as int,
                                    );
                                }
                                return Err(
                                    JobRequestOrderError::Unsatisfiable(
                                        "amount out of range".to_owned(),
                                    ),
                                );
                            },
                        }
                    }
                },
                EventClassifiedDiscount::Quantity {
                    product_key,
                    min_count,
                    discount_per_unit,
                    currency,
                } => {
                    let key_ok = key_matches(
                        product_key.as_str(),
                        &order.quantity.amount,
                        order.quantity.unit.as_str(),
                        order.quantity.label.as_str(),
                    );
                    if key_ok && count >= *min_count {
                        match qty_discount_cents(discount_per_unit, count) {
                            Some(amt) => {
                                let dv = OrderClassifiedDiscount {
                                    discount_type: "quantity".to_owned(),
                                    threshold: Some(
                                        Decimal { micros: (*min_count as i64) * 1_000_000 },
                                    ),
                                    threshold_unit: None,
                                    discount_per_unit: Some(*discount_per_unit),
                                    discount_unit: None,
                                    discount_percent: None,
                                    discount_amount: Decimal { micros: amt * 10_000 },
                                    currency: currency.clone(),
                                };
                                proof {
                                    let gdv = dv@;
                                    assert(spec_discount_step(
                                        all[di as int],
                                        gtq,
                                        qty_unit,
                                        sub as int,
                                        gkey,
                                        count,
                                    ) == Ok::<Option<OrderClassifiedDiscountV>, Seq<char>>(
                                        Some(gdv),
                                    ));
                                    assert(pre.push(gdv).drop_last() =~= pre);
                                    assert(spec_order_discounts(
                                        all.subrange(0, di as int + 1),
                                        gtq,
                                        qty_unit,
                                        sub as int,
                                        gkey,
                                        count,
                                    ) == Ok::<Seq<OrderClassifiedDiscountV>, Seq<char>>(
                                        pre.push(gdv),
                                    ));
                                }
                                applied.push(dv);
                                sum_cents = sum_cents + amt as i128;
                            },
                            None => {
                                proof {
                                    lemma_discounts_err(
                                        all,
                                        gtq,
                                        qty_unit,
                                        sub as int,
                                        gkey,
                                        count,
                                        di as int,
                                    );
                                }
                                return Err(
                                    JobRequestOrderError::Unsatisfiable(
                                        "amount out of range".to_owned(),
                                    ),
                                );
                            },
                        }
                    }
                },
            }
            di += 1;
        }
        proof {
            assert(all.subrange(0, n as int) =~= all);
        }

        // Total: the subtotal less every applied discount.
        let total_cents: i128 = (sub as i128) - sum_cents;
        if total_cents > MAX_MONEY_CENTS as i128 || total_cents < -(MAX_MONEY_CENTS as i128) {
            return Err(JobRequestOrderError::Unsatisfiable("amount out of range".to_owned()));
        }

        Ok(
            OrderClassifiedResult {
                quantity: OrderClassifiedQuantity {
                    amount: order.quantity.amount,
                    unit: order.quantity.unit.clone(),
                    label: order.quantity.label.clone(),
                },
                price: OrderClassifiedPrice {
                    amount: tier_amount,
                    currency: self.prices[ti].currency.clone(),
                    quantity_amount: tier_qty_amount,
                    quantity_unit: order.price.quantity_unit.clone(),
                },
                discounts: applied,
                subtotal: OrderClassifiedTotal {
                    price_amount: Decimal { micros: sub * 10_000 },
                    price_currency: self.prices[ti].currency.clone(),
                    quantity_amount: Decimal { micros: total_qty as i64 },
                    quantity_unit: order.quantity.unit.clone(),
                },
                total: OrderClassifiedTotal {
                    price_amount: Decimal { micros: (total_cents as i64) * 10_000 },
                    price_currency: self.prices[ti].currency.clone(),
                    quantity_amount: Decimal { micros: total_qty as i64 },
                    quantity_unit: order.quantity.unit.clone(),
                },
            },
        )
    }
}

} // verus!
