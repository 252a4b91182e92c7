use mtbfile_sender::response::{respond, AppResponse};
use mtbfile_sender::sender::SendError;

#[test]
fn should_return_success_response() {
    let response = AppResponse::Accepted(uuid::Uuid::new_v4().to_string());
    assert_eq!(response.status_code(), 202);
    assert!(response.response_headers().iter().any(|h| h.0 == "x-request-id"));
}

#[test]
fn should_return_error_response() {
    let response = AppResponse::InternalServerError;
    assert_eq!(response.status_code(), 500);
    assert_eq!(
        response.response_headers().iter().any(|h| h.0 == "x-request-id"),
        false
    );
}

#[test]
fn unauthorized_response_is_bare() {
    let response = AppResponse::Unauthorized;
    assert_eq!(response.status_code(), 401);
    assert!(response.response_headers().is_empty());
}

#[test]
fn accepted_response_carries_the_request_id() {
    let response = AppResponse::Accepted("some-id".to_string());
    let headers = response.response_headers();
    assert_eq!(headers.len(), 1);
    assert_eq!(headers[0].0, "x-request-id");
    assert_eq!(headers[0].1, "some-id");
}

#[test]
fn forwarding_failure_yields_opaque_500() {
    let response = respond(Err(SendError::ForwardingFailed));
    assert_eq!(response.status_code(), 500);
    assert!(response.response_headers().is_empty());
}

#[test]
fn acknowledged_forward_yields_202_with_id() {
    let response = respond(Ok("id-123".to_string()));
    assert_eq!(response.status_code(), 202);
    let headers = response.response_headers();
    assert_eq!(headers.len(), 1);
    assert_eq!(headers[0].1, "id-123");
}
