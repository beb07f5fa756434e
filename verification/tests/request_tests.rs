use nostr::key::Keys;
use nostr::nips::nip04;
use rhi::job_request::{parse_event, JobRequestError, JobRequestInputMarker, JobRequestInputType};
use rhi::resolve::{nostr_tags_resolve, Identity, NostrTagsResolveError};
use rhi::tags::{EventData, Tag};

fn tag(parts: &[&str]) -> Tag {
    Tag(parts.iter().map(|s| s.to_string()).collect())
}

fn identity() -> Identity {
    let keys = Keys::generate();
    let hex = keys.public_key().to_hex();
    Identity { keys, public_key_hex: hex }
}

fn plain_event(tags: Vec<Tag>) -> EventData {
    EventData {
        id: "req-1".to_string(),
        pubkey: "f".repeat(64),
        kind: 5300,
        created_at: 1,
        content: String::new(),
        tags,
    }
}

#[test]
fn parses_a_plain_request() {
    let ident = identity();
    let ev = plain_event(vec![
        tag(&["i", "payload", "text", "wss://relay.example", "order"]),
        tag(&["i", "too", "short"]),
        tag(&["t", "tea"]),
        tag(&["t", "beans"]),
        tag(&["output", "application/json"]),
        tag(&["bid", "1000"]),
        tag(&["param", "k", "v"]),
        tag(&["param", "only-key"]),
        tag(&["relays", "wss://a.example", "wss://b.example"]),
        tag(&["p", "provider-key"]),
        tag(&["unknown", "ignored"]),
    ]);
    let req = parse_event(&ev, &ident).unwrap();
    assert_eq!(req.id, "req-1");
    assert_eq!(req.inputs.len(), 1);
    assert_eq!(req.inputs[0].data, "payload");
    assert_eq!(req.inputs[0].input_type, JobRequestInputType::Text);
    assert_eq!(req.inputs[0].relay.as_deref(), Some("wss://relay.example"));
    assert_eq!(req.inputs[0].marker, Some(JobRequestInputMarker::Order));
    assert_eq!(req.hashtags, vec!["tea".to_string(), "beans".to_string()]);
    assert_eq!(req.output.as_deref(), Some("application/json"));
    assert_eq!(req.bid_msat, Some(1000));
    assert_eq!(req.params, vec![("k".to_string(), "v".to_string())]);
    assert_eq!(req.relays, vec!["wss://a.example".to_string(), "wss://b.example".to_string()]);
    assert_eq!(req.service_providers, vec!["provider-key".to_string()]);
    assert_eq!(req.tags.len(), 11);
}

#[test]
fn unparseable_bid_stays_unset() {
    let ident = identity();
    let ev = plain_event(vec![tag(&["bid", "1000"]), tag(&["bid", "many"])]);
    let req = parse_event(&ev, &ident).unwrap();
    assert_eq!(req.bid_msat, None);
}

#[test]
fn unknown_input_type_fails_the_parse() {
    let ident = identity();
    let ev = plain_event(vec![tag(&["i", "payload", "carrier-pigeon", "", "order"])]);
    match parse_event(&ev, &ident) {
        Err(JobRequestError::InvalidInputType(s)) => assert_eq!(s, "carrier-pigeon"),
        _ => panic!("an unknown input type fails the parse"),
    }
}

#[test]
fn unknown_marker_fails_the_parse() {
    let ident = identity();
    let ev = plain_event(vec![tag(&["i", "payload", "text", "", "sideways"])]);
    match parse_event(&ev, &ident) {
        Err(JobRequestError::InvalidInputMarker(s)) => assert_eq!(s, "sideways"),
        _ => panic!("an unknown marker fails the parse"),
    }
}

#[test]
fn encrypted_without_recipient_always_fails_missing_recipient() {
    let ident = identity();
    let mut ev = plain_event(vec![tag(&["encrypted"]), tag(&["t", "tea"])]);
    ev.content = "zzzz?iv=zzzz".to_string();
    match nostr_tags_resolve(&ev, &ident) {
        Err(NostrTagsResolveError::MissingPTag(id)) => assert_eq!(id, "req-1"),
        _ => panic!("an encrypted message without a recipient tag must fail"),
    }
    match parse_event(&ev, &ident) {
        Err(JobRequestError::NostrTagsResolve(NostrTagsResolveError::MissingPTag(id))) => {
            assert_eq!(id, "req-1")
        },
        _ => panic!("the parse surfaces the missing recipient"),
    }
}

#[test]
fn encrypted_for_someone_else_is_rejected() {
    let ident = identity();
    let other = Keys::generate();
    let ev = plain_event(vec![
        tag(&["encrypted"]),
        tag(&["p", &other.public_key().to_hex()]),
    ]);
    match nostr_tags_resolve(&ev, &ident) {
        Err(NostrTagsResolveError::NotRecipient) => {},
        _ => panic!("a message for someone else must be rejected"),
    }
}

#[test]
fn unusable_recipient_tags_are_skipped() {
    let ident = identity();
    let ev = plain_event(vec![
        tag(&["encrypted"]),
        tag(&["p"]),
        tag(&["p", "not-a-key"]),
        tag(&["p", &ident.public_key_hex]),
    ]);
    // The recipient matches, so resolution proceeds to decryption and
    // fails there: the payload is empty.
    match nostr_tags_resolve(&ev, &ident) {
        Err(NostrTagsResolveError::DecryptionError(_)) => {},
        _ => panic!("the third recipient tag names the processor"),
    }
}

#[test]
fn encrypted_round_trip_recovers_the_tags() {
    let sender = Keys::generate();
    let ident = identity();
    let inner = r#"[["i","job-data","text","","quote"],["t","tea"]]"#;
    let content = nip04::encrypt(sender.secret_key(), &ident.keys.public_key(), inner).unwrap();
    let mut ev = plain_event(vec![
        tag(&["encrypted"]),
        tag(&["p", &ident.public_key_hex]),
    ]);
    ev.pubkey = sender.public_key().to_hex();
    ev.content = content;

    let tags = nostr_tags_resolve(&ev, &ident).unwrap();
    assert_eq!(tags.len(), 2);
    assert_eq!(tags[0].0, vec!["i", "job-data", "text", "", "quote"]);
    assert_eq!(tags[1].0, vec!["t", "tea"]);

    let req = parse_event(&ev, &ident).unwrap();
    assert_eq!(req.inputs.len(), 1);
    assert_eq!(req.inputs[0].marker, Some(JobRequestInputMarker::Quote));
    assert_eq!(req.hashtags, vec!["tea".to_string()]);
}

#[test]
fn garbled_payload_fails_decryption() {
    let ident = identity();
    let mut ev = plain_event(vec![
        tag(&["encrypted"]),
        tag(&["p", &ident.public_key_hex]),
    ]);
    ev.content = "not-an-envelope".to_string();
    match nostr_tags_resolve(&ev, &ident) {
        Err(NostrTagsResolveError::DecryptionError(_)) => {},
        _ => panic!("a garbled payload must fail decryption"),
    }
}

#[test]
fn decrypted_non_tag_json_is_malformed() {
    let sender = Keys::generate();
    let ident = identity();
    let content =
        nip04::encrypt(sender.secret_key(), &ident.keys.public_key(), "{\"no\":\"tags\"}").unwrap();
    let mut ev = plain_event(vec![
        tag(&["encrypted"]),
        tag(&["p", &ident.public_key_hex]),
    ]);
    ev.pubkey = sender.public_key().to_hex();
    ev.content = content;
    match nostr_tags_resolve(&ev, &ident) {
        Err(NostrTagsResolveError::ParseError(_)) => {},
        _ => panic!("non tag-list JSON must be malformed"),
    }
}

#[test]
fn an_empty_decrypted_tag_is_malformed() {
    let sender = Keys::generate();
    let ident = identity();
    let content =
        nip04::encrypt(sender.secret_key(), &ident.keys.public_key(), "[[\"t\",\"x\"],[]]").unwrap();
    let mut ev = plain_event(vec![
        tag(&["encrypted"]),
        tag(&["p", &ident.public_key_hex]),
    ]);
    ev.pubkey = sender.public_key().to_hex();
    ev.content = content;
    match nostr_tags_resolve(&ev, &ident) {
        Err(NostrTagsResolveError::ParseError(_)) => {},
        _ => panic!("an empty tag must be malformed"),
    }
}

#[test]
fn resolve_error_messages_read_as_feedback() {
    let e = NostrTagsResolveError::MissingPTag("req-1".to_string());
    assert_eq!(e.message(), "Missing public key tag in encrypted event: req-1");
    assert_eq!(NostrTagsResolveError::NotRecipient.message(), "Encrypted event recipient mismatch");
}
