//! Parsing of an inbound job request.
//!
//! The resolved tags fold into a typed request: each well-formed input
//! tag yields one input, and an unknown input type or marker fails the
//! whole parse with the offending string.

use vstd::prelude::*;

use crate::job_request_order::JobRequestOrderError;
use crate::resolve::{
    nostr_tags_resolve, plaintext_resolves_to, spec_is_encrypted, spec_recipient_hex, Identity,
    NostrTagsResolveError,
};
use crate::tags::{
    nostr_tag_at_value, nostr_tag_first_value, nostr_tag_relays_parse, nostr_tag_slice,
    spec_tag_first_value, tag_kind_is, EventData, Tag,
};
use crate::text::{parse_u64, spec_parse_u64, str_eq};
use crate::unit::MassUnitError;

verus! {

/// Why a job request could not be processed.
#[derive(Debug)]
pub enum JobRequestError {
    /// The order workflow failed.
    JobRequestOrder(JobRequestOrderError),
    /// A mass unit or amount was rejected.
    MassUnit(MassUnitError),
    /// The message's tag set could not be resolved.
    NostrTagsResolve(NostrTagsResolveError),
    /// An input tag names an unknown input type.
    InvalidInputType(String),
    /// An input tag names an unknown marker, or an input carries none.
    InvalidInputMarker(String),
    /// A payload could not be read or written as JSON.
    Serde(String),
    /// The request failed for no reportable reason.
    Failure,
}

impl JobRequestError {
    /// What this failure says.
    pub open spec fn spec_message(self) -> Seq<char> {
        match self {
            JobRequestError::JobRequestOrder(e) => ("Order: ")@ + e.spec_message(),
            JobRequestError::MassUnit(e) => e.spec_message(),
            JobRequestError::NostrTagsResolve(e) => e.spec_message(),
            JobRequestError::InvalidInputType(s) => ("Invalid job request input type: ")@ + s@,
            JobRequestError::InvalidInputMarker(s) => ("Invalid job request input marker: ")@
                + s@,
            JobRequestError::Serde(s) => ("Deserialization error: ")@ + s@,
            JobRequestError::Failure => ("Failure to process request")@,
        }
    }

    /// Writes this failure out for a feedback notice.
    pub fn message(&self) -> (r: String)
        ensures
            r@ == self.spec_message(),
    {
        let mut out = String::new();
        match self {
            JobRequestError::JobRequestOrder(e) => {
                out.append("Order: ");
                let inner = e.message();
                out.append(inner.as_str());
            },
            JobRequestError::MassUnit(e) => {
                let inner = e.message();
                out.append(inner.as_str());
            },
            JobRequestError::NostrTagsResolve(e) => {
                let inner = e.message();
                out.append(inner.as_str());
            },
            JobRequestError::InvalidInputType(s) => {
                out.append("Invalid job request input type: ");
                out.append(s.as_str());
            },
            JobRequestError::InvalidInputMarker(s) => {
                out.append("Invalid job request input marker: ");
                out.append(s.as_str());
            },
            JobRequestError::Serde(s) => {
                out.append("Deserialization error: ");
                out.append(s.as_str());
            },
            JobRequestError::Failure => {
                out.append("Failure to process request");
            },
        }
        proof {
            assert(out@ =~= self.spec_message());
        }
        out
    }
}

/// What kind of datum an input carries.
#[derive(Clone, Copy, Debug, PartialEq, Eq, Structural)]
pub enum JobRequestInputType {
    Url,
    Event,
    Job,
    Text,
}

impl JobRequestInputType {
    /// The input type a string names.
    pub open spec fn spec_of(s: Seq<char>) -> Option<JobRequestInputType> {
        if s == ("url")@ {
            Some(JobRequestInputType::Url)
        } else if s == ("event")@ {
            Some(JobRequestInputType::Event)
        } else if s == ("job")@ {
            Some(JobRequestInputType::Job)
        } else if s == ("text")@ {
            Some(JobRequestInputType::Text)
        } else {
            None
        }
    }

    /// Reads an input type; any other string is invalid.
    pub fn try_from(s: &str) -> (r: Result<JobRequestInputType, JobRequestError>)
        ensures
            match r {
                Ok(v) => Self::spec_of(s@) == Some(v),
                Err(e) => Self::spec_of(s@) is None && (e matches
                    JobRequestError::InvalidInputType(o) && o@ == s@),
            },
    {
        if str_eq(s, "url") {
            Ok(JobRequestInputType::Url)
        } else if str_eq(s, "event") {
            Ok(JobRequestInputType::Event)
        } else if str_eq(s, "job") {
            Ok(JobRequestInputType::Job)
        } else if str_eq(s, "text") {
            Ok(JobRequestInputType::Text)
        } else {
            Err(JobRequestError::InvalidInputType(s.to_owned()))
        }
    }
}

/// Which workflow an input routes to.
#[derive(Clone, Copy, Debug, PartialEq, Eq, Structural)]
pub enum JobRequestInputMarker {
    Order,
    Quote,
    Preview,
}

impl JobRequestInputMarker {
    /// The marker a string names.
    pub open spec fn spec_of(s: Seq<char>) -> Option<JobRequestInputMarker> {
        if s == ("order")@ {
            Some(JobRequestInputMarker::Order)
        } else if s == ("quote")@ {
            Some(JobRequestInputMarker::Quote)
        } else if s == ("preview")@ {
            Some(JobRequestInputMarker::Preview)
        } else {
            None
        }
    }

    /// Reads a marker; any other string is invalid.
    pub fn try_from(s: &str) -> (r: Result<JobRequestInputMarker, JobRequestError>)
        ensures
            match r {
                Ok(v) => Self::spec_of(s@) == Some(v),
                Err(e) => Self::spec_of(s@) is None && (e matches
                    JobRequestError::InvalidInputMarker(o) && o@ == s@),
            },
    {
        if str_eq(s, "order") {
            Ok(JobRequestInputMarker::Order)
        } else if str_eq(s, "quote") {
            Ok(JobRequestInputMarker::Quote)
        } else if str_eq(s, "preview") {
            Ok(JobRequestInputMarker::Preview)
        } else {
            Err(JobRequestError::InvalidInputMarker(s.to_owned()))
        }
    }
}

/// One requested unit of work.
#[derive(Clone, Debug, PartialEq)]
pub struct JobRequestInput {
    pub data: String,
    pub input_type: JobRequestInputType,
    pub relay: Option<String>,
    pub marker: Option<JobRequestInputMarker>,
}

/// One incoming job message, fully parsed; the resolved tags stay
/// available for downstream handlers.
#[derive(Clone, Debug)]
pub struct JobRequest {
    pub id: String,
    pub inputs: Vec<JobRequestInput>,
    pub output: Option<String>,
    pub bid_msat: Option<u64>,
    pub relays: Vec<String>,
    pub service_providers: Vec<String>,
    pub params: Vec<(String, String)>,
    pub hashtags: Vec<String>,
    pub tags: Vec<Tag>,
}

/// What the fold has gathered so far.
pub struct JobRequestAcc {
    pub inputs: Seq<JobRequestInput>,
    pub output: Option<String>,
    pub bid_msat: Option<u64>,
    pub relays: Seq<String>,
    pub providers: Seq<String>,
    pub params: Seq<(String, String)>,
    pub hashtags: Seq<String>,
}

/// What a failing fold reports: the offending string of an unknown
/// input type or marker.
pub enum JobParseFail {
    BadType(Seq<char>),
    BadMarker(Seq<char>),
}

/// What one resolved tag adds to the request.
pub open spec fn spec_apply_tag(acc: JobRequestAcc, t: Tag) -> Result<JobRequestAcc, JobParseFail> {
    if tag_kind_is(t, ("i")@) {
        if t@.len() >= 5 {
            match JobRequestInputType::spec_of(t@[2]@) {
                None => Err(JobParseFail::BadType(t@[2]@)),
                Some(ty) => match JobRequestInputMarker::spec_of(t@[4]@) {
                    None => Err(JobParseFail::BadMarker(t@[4]@)),
                    Some(mk) => Ok(
                        JobRequestAcc {
                            inputs: acc.inputs.push(
                                JobRequestInput {
                                    data: t@[1],
                                    input_type: ty,
                                    relay: Some(t@[3]),
                                    marker: Some(mk),
                                },
                            ),
                            ..acc
                        },
                    ),
                },
            }
        } else {
            Ok(acc)
        }
    } else if tag_kind_is(t, ("t")@) {
        match spec_tag_first_value(t, ("t")@) {
            Some(v) => Ok(JobRequestAcc { hashtags: acc.hashtags.push(v), ..acc }),
            None => Ok(acc),
        }
    } else if tag_kind_is(t, ("output")@) {
        Ok(JobRequestAcc { output: spec_tag_first_value(t, ("output")@), ..acc })
    } else if tag_kind_is(t, ("bid")@) {
        Ok(
            JobRequestAcc {
                bid_msat: match spec_tag_first_value(t, ("bid")@) {
                    Some(v) => spec_parse_u64(v@),
                    None => None,
                },
                ..acc
            },
        )
    } else if tag_kind_is(t, ("param")@) {
        if t@.len() >= 3 {
            Ok(JobRequestAcc { params: acc.params.push((t@[1], t@[2])), ..acc })
        } else {
            Ok(acc)
        }
    } else if tag_kind_is(t, ("relays")@) {
        Ok(JobRequestAcc { relays: t@.skip(1), ..acc })
    } else if tag_kind_is(t, ("p")@) {
        if t@.len() >= 2 {
            Ok(JobRequestAcc { providers: acc.providers.push(t@[1]), ..acc })
        } else {
            Ok(acc)
        }
    } else {
        Ok(acc)
    }
}

pub open spec fn spec_empty_acc() -> JobRequestAcc {
    JobRequestAcc {
        inputs: Seq::empty(),
        output: None,
        bid_msat: None,
        relays: Seq::empty(),
        providers: Seq::empty(),
        params: Seq::empty(),
        hashtags: Seq::empty(),
    }
}

/// What a whole resolved tag list yields, tag by tag in order; the
/// first unknown input type or marker fails the parse.
pub open spec fn spec_fold_tags(tags: Seq<Tag>) -> Result<JobRequestAcc, JobParseFail>
    decreases tags.len(),
{
    if tags.len() == 0 {
        Ok(spec_empty_acc())
    } else {
        match spec_fold_tags(tags.drop_last()) {
            Err(e) => Err(e),
            Ok(acc) => spec_apply_tag(acc, tags.last()),
        }
    }
}

/// Whether a parsed request carries exactly what the fold yields.
pub open spec fn req_matches_fold(req: JobRequest, tags: Seq<Tag>) -> bool {
    &&& spec_fold_tags(tags) matches Ok(acc) && req.inputs@ == acc.inputs && req.output
        == acc.output && req.bid_msat == acc.bid_msat && req.relays@ == acc.relays
        && req.service_providers@ == acc.providers && req.params@ == acc.params && req.hashtags@
        == acc.hashtags
}

/// Whether an error is exactly what the failing fold reports.
pub open spec fn err_matches_fold(e: JobRequestError, tags: Seq<Tag>) -> bool {
    &&& spec_fold_tags(tags) matches Err(f) && match f {
        JobParseFail::BadType(s) => e matches JobRequestError::InvalidInputType(o) && o@ == s,
        JobParseFail::BadMarker(s) => e matches JobRequestError::InvalidInputMarker(o) && o@
            == s,
    }
}

/// The fold reads tags only through their strings: tag lists that
/// spell the same strings fold alike.
pub proof fn lemma_fold_respects_views(t1: Seq<Tag>, t2: Seq<Tag>)
    requires
        t1.len() == t2.len(),
        forall|i: int| 0 <= i < t1.len() ==> #[trigger] t1[i]@ == t2[i]@,
    ensures
        spec_fold_tags(t1) == spec_fold_tags(t2),
    decreases t1.len(),
{
    if t1.len() > 0 {
        lemma_fold_respects_views(t1.drop_last(), t2.drop_last());
        assert(t1.last()@ == t2.last()@);
        match spec_fold_tags(t1.drop_last()) {
            Err(_) => {},
            Ok(acc) => {
                assert(spec_apply_tag(acc, t1.last()) == spec_apply_tag(acc, t2.last()));
            },
        }
    }
}

/// A failing tag fails the whole fold with its own report.
proof fn lemma_fold_err(tags: Seq<Tag>, i: int)
    requires
        0 <= i < tags.len(),
        spec_fold_tags(tags.subrange(0, i)) is Ok,
        spec_apply_tag(spec_fold_tags(tags.subrange(0, i))->Ok_0, tags[i]) is Err,
    ensures
        spec_fold_tags(tags) == Err::<JobRequestAcc, JobParseFail>(
            spec_apply_tag(spec_fold_tags(tags.subrange(0, i))->Ok_0, tags[i])->Err_0,
        ),
    decreases tags.len(),
{
    if tags.len() == i + 1 {
        assert(tags.drop_last() =~= tags.subrange(0, i));
        assert(tags.last() == tags[i]);
    } else {
        assert(tags.drop_last().subrange(0, i) =~= tags.subrange(0, i));
        assert(tags.drop_last()[i] == tags[i]);
        lemma_fold_err(tags.drop_last(), i);
    }
}

/// Parses one resolved message into a typed request: resolves the tag
/// set, then folds it.  The fold decides everything but the
/// identifier, which is the message's own; the resolved tags ride
/// along in the result.
#[verifier::loop_isolation(false)]
#[verifier::rlimit(100)]
pub fn parse_event(event: &EventData, ident: &Identity) -> (r: Result<JobRequest, JobRequestError>)
    ensures
        r matches Ok(req) ==> req.id == event.id && req_matches_fold(req, req.tags@),
        !spec_is_encrypted(event.tags@) ==> match r {
            Ok(req) => req.tags@.len() == event.tags@.len() && (forall|i: int|
                0 <= i < req.tags@.len() ==> #[trigger] req.tags@[i]@ == event.tags@[i]@)
                && req_matches_fold(req, event.tags@),
            Err(e) => err_matches_fold(e, event.tags@),
        },
        spec_is_encrypted(event.tags@) && spec_recipient_hex(event.tags@) is None ==> (r matches
            Err(e) && (e matches JobRequestError::NostrTagsResolve(inner) && (inner matches
            NostrTagsResolveError::MissingPTag(id) && id@ == event.id@))),
        spec_is_encrypted(event.tags@) && (spec_recipient_hex(event.tags@) matches Some(h)
            && h != ident.public_key_hex@) ==> (r matches Err(e) && (e matches
            JobRequestError::NostrTagsResolve(inner) && (inner matches
            NostrTagsResolveError::NotRecipient))),
        spec_is_encrypted(event.tags@) && spec_recipient_hex(event.tags@) == Some(
            ident.public_key_hex@,
        ) ==> match r {
            Ok(req) => exists|plain: Seq<char>| #[trigger] plaintext_resolves_to(
                plain,
                req.tags@,
            ),
            Err(e) => (e matches JobRequestError::NostrTagsResolve(inner) && (inner matches
                NostrTagsResolveError::DecryptionError(_) || inner matches
                NostrTagsResolveError::ParseError(_))) || e matches
                JobRequestError::InvalidInputType(_) || e matches
                JobRequestError::InvalidInputMarker(_),
        },
{
    let resolved: Vec<Tag> = match nostr_tags_resolve(event, ident) {
        Ok(ts) => ts,
        Err(e) => {
            return Err(JobRequestError::NostrTagsResolve(e));
        },
    };
    let ghost rt = resolved@;
    proof {
        if !spec_is_encrypted(event.tags@) {
            lemma_fold_respects_views(rt, event.tags@);
        }
    }

    let mut inputs: Vec<JobRequestInput> = Vec::new();
    let mut output: Option<String> = None;
    let mut bid_msat: Option<u64> = None;
    let mut relays: Vec<String> = Vec::new();
    let mut providers: Vec<String> = Vec::new();
    let mut params: Vec<(String, String)> = Vec::new();
    let mut hashtags: Vec<String> = Vec::new();

    let n = resolved.len();
    let mut i: usize = 0;
    while i < n
        invariant
            0 <= i <= n == rt.len(),
            spec_fold_tags(rt.subrange(0, i as int)) matches Ok(acc) && inputs@ == acc.inputs
                && output == acc.output && bid_msat == acc.bid_msat && relays@ == acc.relays
                && providers@ == acc.providers && params@ == acc.params && hashtags@
                == acc.hashtags,
        decreases n - i,
    {
        proof {
            assert(rt.subrange(0, i as int + 1).drop_last() =~= rt.subrange(0, i as int));
            assert(rt.subrange(0, i as int + 1).last() == rt[i as int]);
        }
        let ghost acc = spec_fold_tags(rt.subrange(0, i as int))->Ok_0;
        let t = &resolved[i];
        if t.0.len() >= 1 && str_eq(t.0[0].as_str(), "i") {
            match nostr_tag_slice(t, 1) {
                Some(vals) => {
                    if vals.len() >= 4 {
                        let ty = match JobRequestInputType::try_from(vals[1].as_str()) {
                            Ok(v) => v,
                            Err(e) => {
                                proof {
                                    lemma_fold_err(rt, i as int);
                                }
                                return Err(e);
                            },
                        };
                        let mk = match JobRequestInputMarker::try_from(vals[3].as_str()) {
                            Ok(v) => v,
                            Err(e) => {
                                proof {
                                    lemma_fold_err(rt, i as int);
                                }
                                return Err(e);
                            },
                        };
                        inputs.push(
                            JobRequestInput {
                                data: vals[0].clone(),
                                input_type: ty,
                                relay: Some(vals[2].clone()),
                                marker: Some(mk),
                            },
                        );
                    }
                },
                None => {},
            }
        } else if t.0.len() >= 1 && str_eq(t.0[0].as_str(), "t") {
            match nostr_tag_first_value(t, "t") {
                Some(v) => {
                    hashtags.push(v);
                },
                None => {},
            }
        } else if t.0.len() >= 1 && str_eq(t.0[0].as_str(), "output") {
            output = nostr_tag_first_value(t, "output");
        } else if t.0.len() >= 1 && str_eq(t.0[0].as_str(), "bid") {
            bid_msat = match nostr_tag_first_value(t, "bid") {
                Some(s) => parse_u64(s.as_str()),
                None => None,
            };
        } else if t.0.len() >= 1 && str_eq(t.0[0].as_str(), "param") {
            match nostr_tag_slice(t, 1) {
                Some(vals) => {
                    if vals.len() >= 2 {
                        params.push((vals[0].clone(), vals[1].clone()));
                    }
                },
                None => {},
            }
        } else if t.0.len() >= 1 && str_eq(t.0[0].as_str(), "relays") {
            match nostr_tag_relays_parse(t) {
                Some(urls) => {
                    relays = urls;
                },
                None => {},
            }
        } else if t.0.len() >= 1 && str_eq(t.0[0].as_str(), "p") {
            match nostr_tag_at_value(t, 1) {
                Some(pk) => {
                    providers.push(pk);
                },
                None => {},
            }
        }
        i += 1;
    }
    proof {
        assert(rt.subrange(0, n as int) =~= rt);
    }

    Ok(
        JobRequest {
            id: event.id.clone(),
            inputs,
            output,
            bid_msat,
            relays,
            service_providers: providers,
            params,
            hashtags,
            tags: resolved,
        },
    )
}

} // verus!
