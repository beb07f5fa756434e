//! Resolution of a message's tag set.
//!
//! A message marked encrypted carries its true tag list inside its
//! payload: a recipient tag must name the processor, the payload is
//! decrypted, and the plaintext must be a JSON tag list.  Any other
//! message simply yields its own tags.

use vstd::prelude::*;

use crate::tags::{clone_strings, clone_tags, tag_kind_is, EventData, Tag};
use crate::text::str_eq;

verus! {

#[verifier::external_type_specification]
#[verifier::external_body]
/// The processor's key pair, opaque to the library.
pub struct ExKeys(nostr::key::Keys);

/// The processor's identity: its key pair, and the hex form of its
/// public key as the comparisons use it.  The caller derives the hex
/// from the same key pair.
pub struct Identity {
    pub keys: nostr::key::Keys,
    pub public_key_hex: String,
}

/// The canonical hex form of the public key a string names, where the
/// string names one: the outcome depends on the string alone.
pub uninterp spec fn pubkey_hex_of(s: Seq<char>) -> Option<Seq<char>>;

/// The tag lists a string holds as JSON, where it is a JSON array of
/// arrays of strings: the outcome depends on the string alone.
pub uninterp spec fn tag_lists_of(s: Seq<char>) -> Option<Seq<Seq<Seq<char>>>>;

/// Relies on nostr's `PublicKey::parse` and `PublicKey::to_hex`: a
/// public key parsed from its hex, bech32 or URI form, written back as
/// hex; a pure function of the string.
#[verifier::external_body]
fn pk_hex_from_str(s: &str) -> (r: Option<String>)
    ensures
        r matches Some(h) ==> pubkey_hex_of(s@) == Some(h@),
        r is None ==> pubkey_hex_of(s@) is None,
{
    match nostr::key::PublicKey::parse(s) {
        Ok(pk) => Some(pk.to_hex()),
        Err(_) => None,
    }
}

/// Relies on nostr's `nip04::decrypt` (with `PublicKey::from_hex` to
/// read the sender's key): nothing is assumed of the outcome.
#[verifier::external_body]
fn nip04_decrypt(keys: &nostr::key::Keys, sender_pubkey_hex: &str, content: &str) -> (r: Result<
    String,
    String,
>) {
    let pk = match nostr::key::PublicKey::from_hex(sender_pubkey_hex) {
        Ok(p) => p,
        Err(e) => return Err(e.to_string()),
    };
    nostr::nips::nip04::decrypt(keys.secret_key(), &pk, content).map_err(|e| e.to_string())
}

/// Relies on `serde_json::from_str::<Vec<Vec<String>>>`: whether a
/// string is a JSON array of arrays of strings, and which, depends on
/// the string alone; the error text is serde_json's.
#[verifier::external_body]
fn tags_from_json(s: &str) -> (r: Result<Vec<Vec<String>>, String>)
    ensures
        r matches Ok(v) ==> tag_lists_of(s@) == Some(v.deep_view()),
        r is Err ==> tag_lists_of(s@) is None,
{
    serde_json::from_str::<Vec<Vec<String>>>(s).map_err(|e| e.to_string())
}

/// Why a tag set could not be resolved.
#[derive(Debug)]
pub enum NostrTagsResolveError {
    /// The message is marked encrypted but no recipient tag names a
    /// public key; carries the message's identifier.
    MissingPTag(String),
    /// The recipient tag names someone else.
    NotRecipient,
    /// The payload did not decrypt.
    DecryptionError(String),
    /// The decrypted plaintext is not a JSON tag list.
    ParseError(String),
}

impl NostrTagsResolveError {
    /// What this failure says.
    pub open spec fn spec_message(self) -> Seq<char> {
        match self {
            NostrTagsResolveError::MissingPTag(s) => (
            "Missing public key tag in encrypted event: ")@ + s@,
            NostrTagsResolveError::NotRecipient => ("Encrypted event recipient mismatch")@,
            NostrTagsResolveError::DecryptionError(s) => ("Decryption error: ")@ + s@,
            NostrTagsResolveError::ParseError(s) => ("Failed to parse decrypted tag JSON: ")@
                + s@,
        }
    }

    /// Writes this failure out for a feedback notice.
    pub fn message(&self) -> (r: String)
        ensures
            r@ == self.spec_message(),
    {
        let mut out = String::new();
        match self {
            NostrTagsResolveError::MissingPTag(s) => {
                out.append("Missing public key tag in encrypted event: ");
                out.append(s.as_str());
            },
            NostrTagsResolveError::NotRecipient => {
                out.append("Encrypted event recipient mismatch");
            },
            NostrTagsResolveError::DecryptionError(s) => {
                out.append("Decryption error: ");
                out.append(s.as_str());
            },
            NostrTagsResolveError::ParseError(s) => {
                out.append("Failed to parse decrypted tag JSON: ");
                out.append(s.as_str());
            },
        }
        proof {
            assert(out@ =~= self.spec_message());
        }
        out
    }
}

/// Whether the tag set marks the message encrypted.
pub open spec fn spec_is_encrypted(tags: Seq<Tag>) -> bool {
    exists|i: int| 0 <= i < tags.len() && tag_kind_is(#[trigger] tags[i], ("encrypted")@)
}

/// The recipient the first usable `p` tag names: the first tag of kind
/// `p` whose first value names a public key, as that key's hex.
pub open spec fn spec_recipient_hex(tags: Seq<Tag>) -> Option<Seq<char>>
    decreases tags.len(),
{
    if tags.len() == 0 {
        None
    } else if tag_kind_is(tags[0], ("p")@) && tags[0]@.len() >= 2 && pubkey_hex_of(
        tags[0]@[1]@,
    ) is Some {
        pubkey_hex_of(tags[0]@[1]@)
    } else {
        spec_recipient_hex(tags.drop_first())
    }
}

/// One tag's strings, read as character sequences.
pub open spec fn tag_deep(t: Tag) -> Seq<Seq<char>> {
    Seq::new(t@.len(), |i: int| t@[i]@)
}

/// Whether `ts` holds exactly the tag lists `ls`.
pub open spec fn tags_match_lists(ts: Seq<Tag>, ls: Seq<Seq<Seq<char>>>) -> bool {
    ts.len() == ls.len() && forall|i: int| 0 <= i < ts.len() ==> tag_deep(#[trigger] ts[i]) == ls[i]
}

/// Whether a decrypted plaintext resolves to the tag list `ts`: it is
/// a JSON array of arrays of strings, none of them empty.
pub open spec fn plaintext_resolves_to(plain: Seq<char>, ts: Seq<Tag>) -> bool {
    &&& tag_lists_of(plain) matches Some(ls) && tags_match_lists(ts, ls) && forall|i: int|
        0 <= i < ls.len() ==> #[trigger] ls[i].len() >= 1
}

/// Turns a decrypted plaintext into tags: the plaintext must be a JSON
/// array of arrays of strings, and every tag must have a kind.
#[verifier::loop_isolation(false)]
pub fn tags_from_plaintext(plain: &str) -> (r: Result<Vec<Tag>, NostrTagsResolveError>)
    ensures
        match r {
            Ok(ts) => plaintext_resolves_to(plain@, ts@),
            Err(e) => e matches NostrTagsResolveError::ParseError(_) && (tag_lists_of(plain@)
                is None || exists|i: int|
                0 <= i < tag_lists_of(plain@)->Some_0.len() && #[trigger] tag_lists_of(
                    plain@,
                )->Some_0[i].len() == 0),
        },
{
    let lists = match tags_from_json(plain) {
        Ok(v) => v,
        Err(m) => {
            return Err(NostrTagsResolveError::ParseError(m));
        },
    };
    let ghost ls = tag_lists_of(plain@)->Some_0;
    let mut out: Vec<Tag> = Vec::new();
    let mut i: usize = 0;
    while i < lists.len()
        invariant
            0 <= i <= lists@.len(),
            out@.len() == i,
            forall|t: int| 0 <= t < i ==> tag_deep(#[trigger] out@[t]) == ls[t],
            forall|t: int| 0 <= t < i ==> #[trigger] ls[t].len() >= 1,
        decreases lists@.len() - i,
    {
        if lists[i].len() == 0 {
            proof {
                assert(ls[i as int].len() == 0);
            }
            return Err(NostrTagsResolveError::ParseError("empty tag".to_owned()));
        }
        let tag = Tag(clone_strings(&lists[i]));
        proof {
            assert(tag_deep(tag) =~= ls[i as int]);
        }
        out.push(tag);
        i += 1;
    }
    Ok(out)
}

/// Resolves a message's tag set.  An unencrypted message yields its
/// own tags unchanged.  An encrypted one fails without a usable
/// recipient tag; fails when the recipient is not the processor; fails
/// when the payload does not decrypt; fails when the plaintext is not
/// a JSON tag list; and otherwise yields the decrypted tags.
#[verifier::loop_isolation(false)]
pub fn nostr_tags_resolve(event: &EventData, ident: &Identity) -> (r: Result<
    Vec<Tag>,
    NostrTagsResolveError,
>)
    ensures
        !spec_is_encrypted(event.tags@) ==> (r matches Ok(ts) && ts@.len() == event.tags@.len()
            && (forall|i: int| 0 <= i < ts@.len() ==> #[trigger] ts@[i]@ == event.tags@[i]@)),
        spec_is_encrypted(event.tags@) && spec_recipient_hex(event.tags@) is None ==> (r matches
            Err(e) && (e matches NostrTagsResolveError::MissingPTag(id) && id@ == event.id@)),
        spec_is_encrypted(event.tags@) && (spec_recipient_hex(event.tags@) matches Some(h)
            && h != ident.public_key_hex@) ==> (r matches Err(e) && (e matches
            NostrTagsResolveError::NotRecipient)),
        spec_is_encrypted(event.tags@) && spec_recipient_hex(event.tags@) == Some(
            ident.public_key_hex@,
        ) ==> match r {
            Ok(ts) => exists|plain: Seq<char>| #[trigger] plaintext_resolves_to(plain, ts@),
            Err(e) => e matches NostrTagsResolveError::DecryptionError(_) || e matches
                NostrTagsResolveError::ParseError(_),
        },
{
    let ghost all = event.tags@;

    // Is the message marked encrypted?
    let mut encrypted = false;
    let mut i: usize = 0;
    let n = event.tags.len();
    while i < n
        invariant
            0 <= i <= n,
            encrypted == exists|t: int|
                0 <= t < i && tag_kind_is(#[trigger] all[t], ("encrypted")@),
        decreases n - i,
    {
        let t = &event.tags[i];
        if t.0.len() >= 1 && str_eq(t.0[0].as_str(), "encrypted") {
            encrypted = true;
        }
        i += 1;
    }
    if !encrypted {
        return Ok(clone_tags(&event.tags));
    }

    // The first usable recipient tag must name the processor.
    let mut recipient: Option<String> = None;
    let mut j: usize = 0;
    proof {
        assert(all.skip(0) =~= all);
    }
    while j < n && recipient.is_none()
        invariant
            0 <= j <= n,
            recipient is None ==> spec_recipient_hex(all) == spec_recipient_hex(
                all.skip(j as int),
            ),
            recipient matches Some(h) ==> spec_recipient_hex(all) == Some(h@),
        decreases n - j,
    {
        let t = &event.tags[j];
        proof {
            assert(all.skip(j as int)[0] == all[j as int]);
            assert(all.skip(j as int).drop_first() =~= all.skip(j as int + 1));
        }
        if t.0.len() >= 2 && str_eq(t.0[0].as_str(), "p") {
            match pk_hex_from_str(t.0[1].as_str()) {
                Some(h) => {
                    recipient = Some(h);
                },
                None => {},
            }
        }
        j += 1;
    }
    let rec_hex = match recipient {
        Some(h) => h,
        None => {
            return Err(NostrTagsResolveError::MissingPTag(event.id.clone()));
        },
    };
    if !str_eq(rec_hex.as_str(), ident.public_key_hex.as_str()) {
        return Err(NostrTagsResolveError::NotRecipient);
    }

    // Decrypt the payload and read the true tag list out of it.
    let plain = match nip04_decrypt(&ident.keys, event.pubkey.as_str(), event.content.as_str()) {
        Ok(p) => p,
        Err(m) => {
            return Err(NostrTagsResolveError::DecryptionError(m));
        },
    };
    tags_from_plaintext(plain.as_str())
}

} // verus!
