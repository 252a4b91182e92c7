use mtbfile_sender::record::ClinicalRecord;
use mtbfile_sender::response::respond;
use mtbfile_sender::sender::{compose, prepare_delete, prepare_submit, SendError};

#[test]
fn key_holds_the_patient_id() {
    let rec = ClinicalRecord::new(b"123".to_vec(), b"".to_vec());
    let msg = compose("topic".to_string(), &rec, "rid-1").expect("composes");
    assert_eq!(msg.key, br#"{"pid":"123"}"#.to_vec());
}

#[test]
fn key_holds_the_episode_id_only_when_non_empty() {
    let with_eid = ClinicalRecord::new(b"123".to_vec(), b"E1".to_vec());
    let msg = compose("topic".to_string(), &with_eid, "rid-1").expect("composes");
    assert_eq!(msg.key, br#"{"pid":"123","eid":"E1"}"#.to_vec());

    let without_eid = ClinicalRecord::new(b"123".to_vec(), b"".to_vec());
    let msg = compose("topic".to_string(), &without_eid, "rid-1").expect("composes");
    assert!(!String::from_utf8(msg.key).unwrap().contains("eid"));
}

#[test]
fn composed_message_carries_the_correlation_header() {
    let rec = ClinicalRecord::new(b"123".to_vec(), b"".to_vec());
    let msg = compose("topic".to_string(), &rec, "rid-7").expect("composes");
    assert_eq!(msg.topic, "topic");
    assert_eq!(
        msg.headers,
        vec![
            ("contentType".to_string(), "application/json".to_string()),
            ("requestId".to_string(), "rid-7".to_string()),
        ]
    );
}

#[test]
fn empty_patient_id_is_malformed() {
    let rec = ClinicalRecord::new(b"".to_vec(), b"E1".to_vec());
    assert_eq!(
        compose("topic".to_string(), &rec, "rid-1").err(),
        Some(SendError::MalformedRecord)
    );
}

#[test]
fn submit_scenario_yields_keyed_message_and_202() {
    let body = br#"{"patient":{"id":"123"},"episode":{"id":""}}"#;
    let prepared = prepare_submit("topic".to_string(), body).expect("prepares");
    assert_eq!(prepared.message.key, br#"{"pid":"123"}"#.to_vec());
    assert_eq!(prepared.message.headers[1].0, "requestId");
    assert_eq!(prepared.message.headers[1].1, prepared.request_id);
    assert_eq!(prepared.request_id.len(), 36);

    let response = respond(Ok(prepared.request_id.clone()));
    assert_eq!(response.status_code(), 202);
    let headers = response.response_headers();
    assert_eq!(headers[0].0, "x-request-id");
    assert_eq!(headers[0].1, prepared.request_id);
}

#[test]
fn delete_scenario_marks_consent_withdrawn() {
    let prepared = prepare_delete("topic".to_string(), b"123").expect("prepares");
    assert_eq!(
        prepared.message.payload,
        br#"{"patient":{"id":"123"},"episode":{"id":""},"consent":{"status":"rejected"}}"#.to_vec()
    );
    assert_eq!(prepared.message.key, br#"{"pid":"123"}"#.to_vec());

    let response = respond(Ok(prepared.request_id.clone()));
    assert_eq!(response.status_code(), 202);
}

#[test]
fn undecodable_body_is_malformed() {
    assert_eq!(
        prepare_submit("topic".to_string(), b"not json").err(),
        Some(SendError::MalformedRecord)
    );
}

#[test]
fn empty_patient_id_in_body_is_malformed() {
    let body = br#"{"patient":{"id":""},"episode":{"id":"E1"}}"#;
    assert_eq!(
        prepare_submit("topic".to_string(), body).err(),
        Some(SendError::MalformedRecord)
    );
}

#[test]
fn delete_with_empty_patient_id_is_malformed() {
    assert_eq!(
        prepare_delete("topic".to_string(), b"").err(),
        Some(SendError::MalformedRecord)
    );
}

#[test]
fn two_forwards_get_distinct_correlation_ids() {
    let body = br#"{"patient":{"id":"123"},"episode":{"id":""}}"#;
    let first = prepare_submit("topic".to_string(), body).expect("prepares");
    let second = prepare_submit("topic".to_string(), body).expect("prepares");
    assert_eq!(first.message.payload, second.message.payload);
    assert_ne!(first.request_id, second.request_id);
}

#[test]
fn payload_round_trips_through_parse() {
    let body = br#"{"patient":{"id":"123"},"episode":{"id":"E9"}}"#;
    let prepared = prepare_submit("topic".to_string(), body).expect("prepares");
    let back = ClinicalRecord::parse(&prepared.message.payload).expect("parses");
    assert_eq!(back.patient_id, b"123".to_vec());
    assert_eq!(back.episode_id, b"E9".to_vec());
    assert!(!back.consent_rejected);
}
