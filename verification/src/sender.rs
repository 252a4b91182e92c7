//! The message composer: building the keyed, header-annotated outbound
//! message for a record or a deletion request, with a fresh correlation
//! identifier per request. The broker hand-off itself happens outside the
//! library; everything up to the publish call is composed and proved here.

use vstd::prelude::*;
use vstd::string::StringExecFns;

use crate::json;
use crate::json::{esc, QUOTE};
use crate::record::{spec_parse_record, spec_record_json, ClinicalRecord};

verus! {

/// Why a request could not be turned into an acknowledged message.
#[derive(Clone, Copy, Debug, PartialEq, Eq, Structural)]
pub enum SendError {
    /// The payload is not a well-formed record, or its patient id is empty.
    MalformedRecord,
    /// The broker did not confirm receipt within the bounded wait.
    ForwardingFailed,
}

/// The message handed to the broker: a topic, a key, ordered headers, and
/// the payload bytes.
pub struct OutboundMessage {
    pub topic: String,
    pub key: Vec<u8>,
    pub headers: Vec<(String, String)>,
    pub payload: Vec<u8>,
}

/// A composed message together with the correlation identifier minted for
/// the request; the identifier is also embedded in the message headers.
pub struct PreparedRequest {
    pub message: OutboundMessage,
    pub request_id: String,
}

/// `{"pid":"`
pub open spec fn pat_pid() -> Seq<u8> {
    seq![123u8, 34u8, 112u8, 105u8, 100u8, 34u8, 58u8, 34u8]
}

/// `","eid":"`
pub open spec fn pat_eid() -> Seq<u8> {
    seq![34u8, 44u8, 34u8, 101u8, 105u8, 100u8, 34u8, 58u8, 34u8]
}

/// The compact JSON record key: always the patient id, the episode id only
/// when it is non-empty, never as an empty string.
pub open spec fn spec_record_key_json(pid: Seq<u8>, eid: Seq<u8>) -> Seq<u8> {
    if eid.len() == 0 {
        pat_pid() + esc(pid) + seq![QUOTE, 125u8]
    } else {
        pat_pid() + esc(pid) + pat_eid() + esc(eid) + seq![QUOTE, 125u8]
    }
}

/// The two message headers: a content type, and the correlation entry
/// carrying the request identifier.
pub open spec fn spec_headers_ok(h: Seq<(String, String)>, rid: Seq<char>) -> bool {
    &&& h.len() == 2
    &&& h[0].0@ == "contentType"@
    &&& h[0].1@ == "application/json"@
    &&& h[1].0@ == "requestId"@
    &&& h[1].1@ == rid
}

/// The key names the patient, and the episode stands in it exactly when the
/// record has one: the escaped patient id begins at offset 8; with an empty
/// episode id the key ends right after it, otherwise the escaped episode id
/// follows the `","eid":"` marker.
pub proof fn lemma_key_shape(pid: Seq<u8>, eid: Seq<u8>)
    ensures
        spec_record_key_json(pid, eid).subrange(8, 8 + esc(pid).len() as int) == esc(pid),
        eid.len() == 0 ==> spec_record_key_json(pid, eid).len() == 8 + esc(pid).len() + 2,
        eid.len() > 0 ==> spec_record_key_json(pid, eid).subrange(
            17 + esc(pid).len() as int,
            17 + esc(pid).len() as int + esc(eid).len() as int,
        ) == esc(eid),
        eid.len() > 0 ==> spec_record_key_json(pid, eid).len() == 19 + esc(pid).len()
            + esc(eid).len(),
{
    let k = spec_record_key_json(pid, eid);
    if eid.len() == 0 {
        assert(k.subrange(8, 8 + esc(pid).len() as int) =~= esc(pid));
    } else {
        assert(k.subrange(8, 8 + esc(pid).len() as int) =~= esc(pid));
        assert(k.subrange(
            17 + esc(pid).len() as int,
            17 + esc(pid).len() as int + esc(eid).len() as int,
        ) =~= esc(eid));
    }
}

/// A well-formed header list holds the correlation entry, and every entry
/// under that name carries the request identifier: the composer never emits
/// a message without exactly this correlation value.
pub proof fn lemma_headers_have_correlation(h: Seq<(String, String)>, rid: Seq<char>)
    requires
        spec_headers_ok(h, rid),
    ensures
        exists|i: int| 0 <= i < h.len() && h[i].0@ == "requestId"@ && h[i].1@ == rid,
        forall|i: int| 0 <= i < h.len() && h[i].0@ == "requestId"@ ==> h[i].1@ == rid,
{
    assert(0 <= 1 < h.len() && h[1].0@ == "requestId"@ && h[1].1@ == rid);
    reveal_strlit("contentType");
    reveal_strlit("requestId");
    assert("contentType"@.len() == 11);
    assert("requestId"@.len() == 9);
    assert(h[0].0@ != "requestId"@);
}

/// Relies on uuid::Uuid::new_v4 and its hyphenated `Display` form: a fresh
/// random identifier, rendered as 36 characters. Nothing relates two calls:
/// each may return anything of that length.
#[verifier::external_body]
fn new_request_id() -> (r: String)
    ensures
        r@.len() == 36,
{
    uuid::Uuid::new_v4().to_string()
}

/// Build the outbound message for a record: the record key from the
/// identifying fields, the record document as payload, and the correlation
/// header. Fails exactly when the patient id is empty.
pub fn compose(topic: String, record: &ClinicalRecord, request_id: &str) -> (r: Result<
    OutboundMessage,
    SendError,
>)
    ensures
        match r {
            Ok(m) => {
                &&& record.patient_id@.len() > 0
                &&& m.topic@ == topic@
                &&& m.key@ == spec_record_key_json(record.patient_id@, record.episode_id@)
                &&& m.payload@ == spec_record_json(
                    record.patient_id@,
                    record.episode_id@,
                    record.consent_rejected,
                )
                &&& spec_headers_ok(m.headers@, request_id@)
            },
            Err(e) => {
                &&& record.patient_id@.len() == 0
                &&& e == SendError::MalformedRecord
            },
        },
{
    if record.patient_id.len() == 0 {
        return Err(SendError::MalformedRecord);
    }
    let mut key: Vec<u8> = Vec::new();
    let pp = pat_pid_x();
    json::push_all(&mut key, pp.as_slice());
    json::push_escaped(&mut key, record.patient_id.as_slice());
    if record.episode_id.len() > 0 {
        let pe = pat_eid_x();
        json::push_all(&mut key, pe.as_slice());
        json::push_escaped(&mut key, record.episode_id.as_slice());
    }
    key.push(QUOTE);
    key.push(125);
    proof {
        assert(key@ =~= spec_record_key_json(record.patient_id@, record.episode_id@));
    }
    let payload = record.to_json();
    let mut headers: Vec<(String, String)> = Vec::new();
    headers.push((String::from_str("contentType"), String::from_str("application/json")));
    headers.push((String::from_str("requestId"), String::from_str(request_id)));
    Ok(OutboundMessage { topic, key, headers, payload })
}

/// Handle a submission body: parse the record, mint a correlation id, and
/// compose the message. Fails, as `MalformedRecord`, exactly when the body
/// does not parse or the parsed patient id is empty.
pub fn prepare_submit(topic: String, body: &[u8]) -> (r: Result<PreparedRequest, SendError>)
    ensures
        match r {
            Ok(p) => {
                &&& match spec_parse_record(body@) {
                    Some(f) => {
                        &&& f.0.len() > 0
                        &&& p.message.key@ == spec_record_key_json(f.0, f.1)
                        &&& p.message.payload@ == spec_record_json(f.0, f.1, f.2)
                    },
                    None => false,
                }
                &&& p.message.topic@ == topic@
                &&& spec_headers_ok(p.message.headers@, p.request_id@)
                &&& p.request_id@.len() == 36
            },
            Err(e) => {
                &&& e == SendError::MalformedRecord
                &&& match spec_parse_record(body@) {
                    Some(f) => f.0.len() == 0,
                    None => true,
                }
            },
        },
{
    let parsed = ClinicalRecord::parse(body);
    let rec = match parsed {
        Some(rec) => rec,
        None => {
            return Err(SendError::MalformedRecord);
        },
    };
    let request_id = new_request_id();
    let composed = compose(topic, &rec, request_id.as_str());
    match composed {
        Ok(message) => Ok(PreparedRequest { message, request_id }),
        Err(e) => Err(e),
    }
}

/// Handle a deletion request: synthesize the withdrawal-of-consent record
/// for the patient, mint a correlation id, and compose the message. Fails
/// exactly on an empty patient id.
pub fn prepare_delete(topic: String, patient_id: &[u8]) -> (r: Result<PreparedRequest, SendError>)
    ensures
        match r {
            Ok(p) => {
                &&& patient_id@.len() > 0
                &&& p.message.topic@ == topic@
                &&& p.message.key@ == spec_record_key_json(patient_id@, Seq::empty())
                &&& p.message.payload@ == spec_record_json(patient_id@, Seq::empty(), true)
                &&& spec_headers_ok(p.message.headers@, p.request_id@)
                &&& p.request_id@.len() == 36
            },
            Err(e) => {
                &&& e == SendError::MalformedRecord
                &&& patient_id@.len() == 0
            },
        },
{
    let rec = ClinicalRecord::new_with_consent_rejected(patient_id);
    let request_id = new_request_id();
    let composed = compose(topic, &rec, request_id.as_str());
    proof {
        assert(rec.episode_id@ =~= Seq::<u8>::empty());
    }
    match composed {
        Ok(message) => Ok(PreparedRequest { message, request_id }),
        Err(e) => Err(e),
    }
}

fn pat_pid_x() -> (v: Vec<u8>)
    ensures
        v@ == pat_pid(),
{
    let mut v: Vec<u8> = Vec::new();
    v.push(123);
    v.push(34);
    v.push(112);
    v.push(105);
    v.push(100);
    v.push(34);
    v.push(58);
    v.push(34);
    proof {
        assert(v@ =~= pat_pid());
    }
    v
}

fn pat_eid_x() -> (v: Vec<u8>)
    ensures
        v@ == pat_eid(),
{
    let mut v: Vec<u8> = Vec::new();
    v.push(34);
    v.push(44);
    v.push(34);
    v.push(101);
    v.push(105);
    v.push(100);
    v.push(34);
    v.push(58);
    v.push(34);
    proof {
        assert(v@ =~= pat_eid());
    }
    v
}

} // verus!
