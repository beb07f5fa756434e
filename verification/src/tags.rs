//! The wire format's tag model.
//!
//! A tag is an ordered sequence of strings `[kind, value_0, value_1,
//! ...]`; a message carries an ordered list of tags.  Every higher
//! entity of the library is a reconstruction over these lists.

use vstd::prelude::*;

use crate::decimal::{parse_decimal, spec_parse_dec, Decimal};
use crate::text::{spec_to_lower, str_eq, str_eq_ignore_case};

verus! {

/// One tag: its kind followed by its positional values.
#[derive(Clone, Debug, PartialEq)]
pub struct Tag(pub Vec<String>);

impl View for Tag {
    type V = Seq<String>;

    open spec fn view(&self) -> Seq<String> {
        self.0@
    }
}

impl Tag {
    /// Copies a tag, value for value.
    pub fn duplicate(&self) -> (r: Tag)
        ensures
            r@ == self@,
    {
        Tag(clone_strings(&self.0))
    }
}

/// Copies a vector of strings, value for value.
#[verifier::loop_isolation(false)]
pub fn clone_strings(v: &Vec<String>) -> (r: Vec<String>)
    ensures
        r@ == v@,
{
    let mut out: Vec<String> = Vec::new();
    let mut i: usize = 0;
    while i < v.len()
        invariant
            0 <= i <= v@.len(),
            out@ == v@.subrange(0, i as int),
        decreases v@.len() - i,
    {
        out.push(v[i].clone());
        proof {
            assert(out@ =~= v@.subrange(0, i as int + 1));
        }
        i += 1;
    }
    proof {
        assert(v@.subrange(0, v@.len() as int) =~= v@);
    }
    out
}

/// Copies a list of tags, tag for tag.
#[verifier::loop_isolation(false)]
pub fn clone_tags(v: &Vec<Tag>) -> (r: Vec<Tag>)
    ensures
        r@.len() == v@.len(),
        forall|i: int| 0 <= i < v@.len() ==> #[trigger] r@[i]@ == v@[i]@,
{
    let mut out: Vec<Tag> = Vec::new();
    let mut i: usize = 0;
    while i < v.len()
        invariant
            0 <= i <= v@.len(),
            out@.len() == i,
            forall|t: int| 0 <= t < i ==> #[trigger] out@[t]@ == v@[t]@,
        decreases v@.len() - i,
    {
        out.push(v[i].duplicate());
        i += 1;
    }
    out
}

/// Whether the tag's kind (its first string) is `k`.
pub open spec fn tag_kind_is(t: Tag, k: Seq<char>) -> bool {
    t@.len() >= 1 && t@[0]@ == k
}

pub open spec fn spec_tag_first_value(t: Tag, key: Seq<char>) -> Option<String> {
    if tag_kind_is(t, key) && t@.len() >= 2 {
        Some(t@[1])
    } else {
        None
    }
}

/// The first positional value of a tag of kind `key`.
pub fn nostr_tag_first_value(tag: &Tag, key: &str) -> (r: Option<String>)
    ensures
        r == spec_tag_first_value(*tag, key@),
{
    if tag.0.len() >= 1 && str_eq(tag.0[0].as_str(), key) {
        if tag.0.len() >= 2 {
            Some(tag.0[1].clone())
        } else {
            None
        }
    } else {
        None
    }
}

pub open spec fn spec_tag_at_value(t: Tag, index: int) -> Option<String> {
    if 0 <= index < t@.len() {
        Some(t@[index])
    } else {
        None
    }
}

/// The string at position `index` of the tag, the kind counting as
/// position zero.
pub fn nostr_tag_at_value(tag: &Tag, index: usize) -> (r: Option<String>)
    ensures
        r == spec_tag_at_value(*tag, index as int),
{
    if index < tag.0.len() {
        Some(tag.0[index].clone())
    } else {
        None
    }
}

/// The tag's strings from position `start` on; `None` where `start`
/// lies past the end.
#[verifier::loop_isolation(false)]
pub fn nostr_tag_slice(tag: &Tag, start: usize) -> (r: Option<Vec<String>>)
    ensures
        match r {
            Some(v) => start <= tag@.len() && v@ == tag@.skip(start as int),
            None => start > tag@.len(),
        },
{
    if start > tag.0.len() {
        return None;
    }
    let mut out: Vec<String> = Vec::new();
    let mut i = start;
    while i < tag.0.len()
        invariant
            start <= i <= tag@.len(),
            out@ == tag@.subrange(start as int, i as int),
        decreases tag@.len() - i,
    {
        out.push(tag.0[i].clone());
        proof {
            assert(out@ =~= tag@.subrange(start as int, i as int + 1));
        }
        i += 1;
    }
    proof {
        assert(tag@.subrange(start as int, tag@.len() as int) =~= tag@.skip(start as int));
    }
    Some(out)
}

/// Splits a non-empty tag into its kind and its values.
pub fn nostr_tags_match(tag: &Tag) -> (r: Option<(String, Vec<String>)>)
    ensures
        match r {
            Some(p) => tag@.len() >= 1 && p.0 == tag@[0] && p.1@ == tag@.skip(1),
            None => tag@.len() == 0,
        },
{
    if tag.0.len() == 0 {
        return None;
    }
    let key = tag.0[0].clone();
    match nostr_tag_slice(tag, 1) {
        Some(rest) => Some((key, rest)),
        None => None,
    }
}

pub open spec fn spec_tag_match_l(t: Tag) -> Option<(String, Decimal)> {
    if t@.len() >= 3 && spec_to_lower(t@[0]@) == ("l")@ && spec_parse_dec(t@[1]@) is Some {
        Some((t@[2], spec_parse_dec(t@[1]@)->Some_0))
    } else {
        None
    }
}

/// A coordinate tag `l <value> <kind>`: its kind string and its value,
/// where the value is a decimal numeral.
pub fn nostr_tag_match_l(tag: &Tag) -> (r: Option<(String, Decimal)>)
    ensures
        r == spec_tag_match_l(*tag),
{
    if tag.0.len() >= 3 && str_eq_ignore_case(tag.0[0].as_str(), "l") {
        proof {
            reveal_strlit("l");
            assert(spec_to_lower(("l")@) =~= ("l")@);
        }
        match parse_decimal(tag.0[1].as_str()) {
            Some(v) => Some((tag.0[2].clone(), v)),
            None => None,
        }
    } else {
        proof {
            if tag@.len() >= 3 {
                reveal_strlit("l");
                assert(spec_to_lower(("l")@) =~= ("l")@);
            }
        }
        None
    }
}

pub open spec fn spec_tag_match_location(t: Tag) -> Option<(String, String, String)> {
    if t@.len() >= 4 && t@[0]@ == ("location")@ {
        Some((t@[1], t@[2], t@[3]))
    } else {
        None
    }
}

/// A location tag: its address, region and country values.
pub fn nostr_tag_match_location(tag: &Tag) -> (r: Option<(String, String, String)>)
    ensures
        r == spec_tag_match_location(*tag),
{
    if tag.0.len() >= 4 && str_eq(tag.0[0].as_str(), "location") {
        Some((tag.0[1].clone(), tag.0[2].clone(), tag.0[3].clone()))
    } else {
        None
    }
}

/// A geohash tag's value.
pub fn nostr_tag_match_geohash(tag: &Tag) -> (r: Option<String>)
    ensures
        r == spec_tag_first_value(*tag, ("g")@),
{
    if tag.0.len() >= 2 && str_eq(tag.0[0].as_str(), "g") {
        Some(tag.0[1].clone())
    } else {
        None
    }
}

/// A title tag's value.
pub fn nostr_tag_match_title(tag: &Tag) -> (r: Option<String>)
    ensures
        r == spec_tag_first_value(*tag, ("title")@),
{
    if tag.0.len() >= 2 && str_eq(tag.0[0].as_str(), "title") {
        Some(tag.0[1].clone())
    } else {
        None
    }
}

/// A summary tag's value.
pub fn nostr_tag_match_summary(tag: &Tag) -> (r: Option<String>)
    ensures
        r == spec_tag_first_value(*tag, ("summary")@),
{
    if tag.0.len() >= 2 && str_eq(tag.0[0].as_str(), "summary") {
        Some(tag.0[1].clone())
    } else {
        None
    }
}

pub open spec fn spec_tag_relays(t: Tag) -> Option<Seq<String>> {
    if t@.len() >= 1 && t@[0]@ == ("relays")@ {
        Some(t@.skip(1))
    } else {
        None
    }
}

/// A relay-list tag: its relay locators, in order.
pub fn nostr_tag_relays_parse(tag: &Tag) -> (r: Option<Vec<String>>)
    ensures
        match r {
            Some(v) => spec_tag_relays(*tag) == Some(v@),
            None => spec_tag_relays(*tag) is None,
        },
{
    if tag.0.len() >= 1 && str_eq(tag.0[0].as_str(), "relays") {
        nostr_tag_slice(tag, 1)
    } else {
        None
    }
}

/// One raw message as the library reads it: identifier, author,
/// kind number, creation time, payload text and tag list.
pub struct EventData {
    pub id: String,
    pub pubkey: String,
    pub kind: u16,
    pub created_at: u64,
    pub content: String,
    pub tags: Vec<Tag>,
}

} // verus!
