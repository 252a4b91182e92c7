use mtbfile_sender::record::ClinicalRecord;

#[test]
fn deletion_synthesis_marks_consent_rejected() {
    let rec = ClinicalRecord::new_with_consent_rejected(b"P1");
    assert_eq!(rec.patient_id, b"P1".to_vec());
    assert!(rec.episode_id.is_empty());
    assert!(rec.consent_rejected);
}

#[test]
fn deletion_synthesis_accepts_empty_patient_id() {
    let rec = ClinicalRecord::new_with_consent_rejected(b"");
    assert_eq!(rec.patient_id, Vec::<u8>::new());
    assert!(rec.episode_id.is_empty());
    assert!(rec.consent_rejected);
}

#[test]
fn record_renders_compact_json() {
    let rec = ClinicalRecord::new(b"123".to_vec(), b"E1".to_vec());
    assert_eq!(
        rec.to_json(),
        br#"{"patient":{"id":"123"},"episode":{"id":"E1"},"consent":{"status":"active"}}"#.to_vec()
    );
}

#[test]
fn deletion_record_renders_rejected_status() {
    let rec = ClinicalRecord::new_with_consent_rejected(b"123");
    assert_eq!(
        rec.to_json(),
        br#"{"patient":{"id":"123"},"episode":{"id":""},"consent":{"status":"rejected"}}"#.to_vec()
    );
}

#[test]
fn render_then_parse_restores_the_record() {
    let rec = ClinicalRecord::new(b"123".to_vec(), b"E1".to_vec());
    let parsed = ClinicalRecord::parse(&rec.to_json()).expect("parses");
    assert_eq!(parsed, rec);
}

#[test]
fn render_then_parse_restores_escaped_identifiers() {
    let rec = ClinicalRecord::new(b"a\"b\\c".to_vec(), b"e\"".to_vec());
    let parsed = ClinicalRecord::parse(&rec.to_json()).expect("parses");
    assert_eq!(parsed, rec);
}

#[test]
fn render_then_parse_restores_the_deletion_record() {
    let rec = ClinicalRecord::new_with_consent_rejected(b"P1");
    let parsed = ClinicalRecord::parse(&rec.to_json()).expect("parses");
    assert_eq!(parsed, rec);
}

#[test]
fn submission_without_consent_object_parses() {
    let body = br#"{"patient":{"id":"123"},"episode":{"id":""}}"#;
    let rec = ClinicalRecord::parse(body).expect("parses");
    assert_eq!(rec.patient_id, b"123".to_vec());
    assert!(rec.episode_id.is_empty());
    assert!(!rec.consent_rejected);
}

#[test]
fn garbage_does_not_parse() {
    assert!(ClinicalRecord::parse(b"{}").is_none());
    assert!(ClinicalRecord::parse(b"").is_none());
    assert!(ClinicalRecord::parse(br#"{"patient":{"id":"123"}}"#).is_none());
    assert!(ClinicalRecord::parse(br#"{"patient":{"id":"123"},"episode":{"id":""},"consent":{"status":"maybe"}}"#).is_none());
}

#[test]
fn unterminated_string_does_not_parse() {
    assert!(ClinicalRecord::parse(br#"{"patient":{"id":"123"#).is_none());
    assert!(ClinicalRecord::parse(br#"{"patient":{"id":"12\"#).is_none());
}
