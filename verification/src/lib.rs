//! Authenticated ingress pipeline for clinical-record submissions.
//!
//! The library holds the verified core of a small HTTP-to-broker forwarder:
//! Basic-Auth credential checking, translation of a clinical record (or a
//! deletion request) into a keyed, header-annotated outbound message, and the
//! per-request response decision. The HTTP server and the broker client are
//! thin unverified shells around these functions.

pub mod auth;
pub mod b64;
pub mod json;
pub mod record;
pub mod response;
pub mod sender;
