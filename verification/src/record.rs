//! The clinical record as the pipeline reads it: a patient identifier, an
//! episode identifier, and a consent status. The record travels as a compact
//! JSON document; rendering and parsing of that document live here.

use vstd::prelude::*;

use crate::json;
use crate::json::{esc, scan_string, QUOTE};

verus! {

/// `{"patient":{"id":"`
pub open spec fn pat_patient() -> Seq<u8> {
    seq![123u8, 34u8, 112u8, 97u8, 116u8, 105u8, 101u8, 110u8, 116u8, 34u8, 58u8, 123u8, 34u8, 105u8, 100u8, 34u8, 58u8, 34u8]
}

/// `},"episode":{"id":"`
pub open spec fn pat_episode() -> Seq<u8> {
    seq![125u8, 44u8, 34u8, 101u8, 112u8, 105u8, 115u8, 111u8, 100u8, 101u8, 34u8, 58u8, 123u8, 34u8, 105u8, 100u8, 34u8, 58u8, 34u8]
}

/// `},"consent":{"status":"`
pub open spec fn pat_consent() -> Seq<u8> {
    seq![125u8, 44u8, 34u8, 99u8, 111u8, 110u8, 115u8, 101u8, 110u8, 116u8, 34u8, 58u8, 123u8, 34u8, 115u8, 116u8, 97u8, 116u8, 117u8, 115u8, 34u8, 58u8, 34u8]
}

/// `active` or `rejected`
pub open spec fn status_lit(rejected: bool) -> Seq<u8> {
    if rejected {
        seq![114u8, 101u8, 106u8, 101u8, 99u8, 116u8, 101u8, 100u8]
    } else {
        seq![97u8, 99u8, 116u8, 105u8, 118u8, 101u8]
    }
}

/// The closing braces of a record without a consent object.
pub open spec fn tail_plain() -> Seq<u8> {
    seq![125u8, 125u8]
}

/// The consent object and the closing braces, from the `}` that ends the
/// episode object to the end of the document.
pub open spec fn consent_tail(rejected: bool) -> Seq<u8> {
    pat_consent() + status_lit(rejected) + seq![QUOTE, 125u8, 125u8]
}

/// The compact JSON document for a record.
pub open spec fn spec_record_json(pid: Seq<u8>, eid: Seq<u8>, rejected: bool) -> Seq<u8> {
    pat_patient() + esc(pid) + seq![QUOTE] + pat_episode() + esc(eid) + seq![QUOTE]
        + consent_tail(rejected)
}

/// Parse a record document: the canonical shape that `spec_record_json`
/// renders, with the consent object optional (absent means consent stands).
pub open spec fn spec_parse_record(s: Seq<u8>) -> Option<(Seq<u8>, Seq<u8>, bool)> {
    if s.len() < 18 || s.subrange(0, 18) != pat_patient() {
        None
    } else {
        match scan_string(s.skip(18)) {
            None => None,
            Some(p) => {
                let i = 18 + p.1;
                if i + 19 > s.len() || s.subrange(i, i + 19) != pat_episode() {
                    None
                } else {
                    match scan_string(s.skip(i + 19)) {
                        None => None,
                        Some(q) => {
                            let j = i + 19 + q.1;
                            let tail = s.skip(j);
                            if tail == tail_plain() {
                                Some((p.0, q.0, false))
                            } else if tail == consent_tail(false) {
                                Some((p.0, q.0, false))
                            } else if tail == consent_tail(true) {
                                Some((p.0, q.0, true))
                            } else {
                                None
                            }
                        },
                    }
                }
            },
        }
    }
}

/// A clinical record, reduced to what the pipeline addresses: the patient
/// identifier, the episode identifier (possibly empty), and whether the
/// patient's consent has been withdrawn.
#[derive(Debug, PartialEq, Eq)]
pub struct ClinicalRecord {
    pub patient_id: Vec<u8>,
    pub episode_id: Vec<u8>,
    pub consent_rejected: bool,
}

impl ClinicalRecord {
    /// A freshly submitted record.
    pub fn new(patient_id: Vec<u8>, episode_id: Vec<u8>) -> (r: ClinicalRecord)
        ensures
            r.patient_id@ == patient_id@,
            r.episode_id@ == episode_id@,
            !r.consent_rejected,
    {
        ClinicalRecord { patient_id, episode_id, consent_rejected: false }
    }

    /// The withdrawal-of-consent record for a deletion request: the given
    /// patient, no episode, consent rejected. Holds for every patient id,
    /// the empty one included.
    pub fn new_with_consent_rejected(patient_id: &[u8]) -> (r: ClinicalRecord)
        ensures
            r.patient_id@ == patient_id@,
            r.episode_id@.len() == 0,
            r.consent_rejected,
    {
        let mut pid: Vec<u8> = Vec::new();
        json::push_all(&mut pid, patient_id);
        proof {
            assert(Seq::<u8>::empty() + patient_id@ =~= patient_id@);
        }
        ClinicalRecord { patient_id: pid, episode_id: Vec::new(), consent_rejected: true }
    }

    /// Render the record as its compact JSON document.
    pub fn to_json(&self) -> (v: Vec<u8>)
        ensures
            v@ == spec_record_json(self.patient_id@, self.episode_id@, self.consent_rejected),
    {
        let mut v: Vec<u8> = Vec::new();
        let a = pat_patient_x();
        json::push_all(&mut v, a.as_slice());
        json::push_escaped(&mut v, self.patient_id.as_slice());
        v.push(QUOTE);
        let b = pat_episode_x();
        json::push_all(&mut v, b.as_slice());
        json::push_escaped(&mut v, self.episode_id.as_slice());
        v.push(QUOTE);
        let t = consent_tail_x(self.consent_rejected);
        json::push_all(&mut v, t.as_slice());
        proof {
            assert(v@ =~= spec_record_json(
                self.patient_id@,
                self.episode_id@,
                self.consent_rejected,
            ));
        }
        v
    }

    /// Parse a record document; `None` exactly where `spec_parse_record`
    /// rejects it.
    pub fn parse(s: &[u8]) -> (r: Option<ClinicalRecord>)
        ensures
            match r {
                Some(rec) => spec_parse_record(s@) == Some(
                    (rec.patient_id@, rec.episode_id@, rec.consent_rejected),
                ),
                None => spec_parse_record(s@) is None,
            },
    {
        let n = s.len();
        let a = pat_patient_x();
        if !json::match_at(s, 0, a.as_slice()) {
            proof {
                assert(s@.subrange(0int, pat_patient().len() as int) == s@.subrange(0int, 18int));
            }
            return None;
        }
        let scan1 = json::scan_from(s, 18);
        let (pid, i) = match scan1 {
            Some(p) => p,
            None => {
                return None;
            },
        };
        let b = pat_episode_x();
        if !json::match_at(s, i, b.as_slice()) {
            return None;
        }
        let scan2 = json::scan_from(s, i + 19);
        let (eid, j) = match scan2 {
            Some(q) => q,
            None => {
                return None;
            },
        };
        let ghost tail = s@.skip(j as int);
        proof {
            lemma_skip_vs_subrange(s@, j as int, tail_plain());
            lemma_skip_vs_subrange(s@, j as int, consent_tail(false));
            lemma_skip_vs_subrange(s@, j as int, consent_tail(true));
        }
        let plain = tail_plain_x();
        if json::match_at(s, j, plain.as_slice()) && n - j == 2 {
            return Some(ClinicalRecord {
                patient_id: pid,
                episode_id: eid,
                consent_rejected: false,
            });
        }
        let ct_false = consent_tail_x(false);
        if json::match_at(s, j, ct_false.as_slice()) && n - j == 32 {
            return Some(ClinicalRecord {
                patient_id: pid,
                episode_id: eid,
                consent_rejected: false,
            });
        }
        let ct_true = consent_tail_x(true);
        if json::match_at(s, j, ct_true.as_slice()) && n - j == 34 {
            return Some(ClinicalRecord {
                patient_id: pid,
                episode_id: eid,
                consent_rejected: true,
            });
        }
        None
    }
}

/// A tail of `s` equals `t` exactly when the lengths agree and `t` stands in
/// `s` at that offset.
proof fn lemma_skip_vs_subrange(s: Seq<u8>, j: int, t: Seq<u8>)
    requires
        0 <= j <= s.len(),
    ensures
        (s.skip(j) == t) <==> (s.len() == j + t.len() && s.subrange(j, j + t.len()) == t),
{
    if s.skip(j) == t {
        assert(s.subrange(j, j + t.len()) =~= s.skip(j));
    }
    if s.len() == j + t.len() && s.subrange(j, j + t.len()) == t {
        assert(s.skip(j) =~= s.subrange(j, j + t.len()));
    }
}

/// Rendering a record and parsing the document gives the record back.
pub proof fn lemma_record_json_roundtrip(pid: Seq<u8>, eid: Seq<u8>, rejected: bool)
    ensures
        spec_parse_record(spec_record_json(pid, eid, rejected)) == Some((pid, eid, rejected)),
{
    let s = spec_record_json(pid, eid, rejected);
    let rest1 = pat_episode() + esc(eid) + seq![QUOTE] + consent_tail(rejected);
    assert(s.subrange(0, 18) =~= pat_patient());
    assert(s.skip(18) =~= esc(pid) + seq![QUOTE] + rest1);
    json::lemma_scan_esc(pid, rest1);
    let i: int = 18 + esc(pid).len() as int + 1;
    assert(s.subrange(i, i + 19) =~= pat_episode());
    let rest2 = consent_tail(rejected);
    assert(s.skip(i + 19) =~= esc(eid) + seq![QUOTE] + rest2);
    json::lemma_scan_esc(eid, rest2);
    let j: int = i + 19 + esc(eid).len() as int + 1;
    assert(s.skip(j) =~= consent_tail(rejected));
}

fn pat_patient_x() -> (v: Vec<u8>)
    ensures
        v@ == pat_patient(),
{
    let mut v: Vec<u8> = Vec::new();
    v.push(123);
    v.push(34);
    v.push(112);
    v.push(97);
    v.push(116);
    v.push(105);
    v.push(101);
    v.push(110);
    v.push(116);
    v.push(34);
    v.push(58);
    v.push(123);
    v.push(34);
    v.push(105);
    v.push(100);
    v.push(34);
    v.push(58);
    v.push(34);
    proof {
        assert(v@ =~= pat_patient());
    }
    v
}

fn pat_episode_x() -> (v: Vec<u8>)
    ensures
        v@ == pat_episode(),
{
    let mut v: Vec<u8> = Vec::new();
    v.push(125);
    v.push(44);
    v.push(34);
    v.push(101);
    v.push(112);
    v.push(105);
    v.push(115);
    v.push(111);
    v.push(100);
    v.push(101);
    v.push(34);
    v.push(58);
    v.push(123);
    v.push(34);
    v.push(105);
    v.push(100);
    v.push(34);
    v.push(58);
    v.push(34);
    proof {
        assert(v@ =~= pat_episode());
    }
    v
}

fn tail_plain_x() -> (v: Vec<u8>)
    ensures
        v@ == tail_plain(),
{
    let mut v: Vec<u8> = Vec::new();
    v.push(125);
    v.push(125);
    proof {
        assert(v@ =~= tail_plain());
    }
    v
}

fn consent_tail_x(rejected: bool) -> (v: Vec<u8>)
    ensures
        v@ == consent_tail(rejected),
{
    let mut v: Vec<u8> = Vec::new();
    v.push(125);
    v.push(44);
    v.push(34);
    v.push(99);
    v.push(111);
    v.push(110);
    v.push(115);
    v.push(101);
    v.push(110);
    v.push(116);
    v.push(34);
    v.push(58);
    v.push(123);
    v.push(34);
    v.push(115);
    v.push(116);
    v.push(97);
    v.push(116);
    v.push(117);
    v.push(115);
    v.push(34);
    v.push(58);
    v.push(34);
    if rejected {
        v.push(114);
        v.push(101);
        v.push(106);
        v.push(101);
        v.push(99);
        v.push(116);
        v.push(101);
        v.push(100);
    } else {
        v.push(97);
        v.push(99);
        v.push(116);
        v.push(105);
        v.push(118);
        v.push(101);
    }
    v.push(QUOTE);
    v.push(125);
    v.push(125);
    proof {
        assert(v@ =~= consent_tail(rejected));
    }
    v
}

} // verus!
