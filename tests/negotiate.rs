use sendmer::negotiate::{
    decimal_string, file_count, payload_size, receive_message, ErrorClass, GetErrorKind, NegotiationStep,
    ProgressThrottle, SizeNegotiation,
};

#[test]
fn two_failures_then_success() {
    let mut n = SizeNegotiation::new();
    assert_eq!(n.on_outcome(Err(GetErrorKind::InitialNext)), NegotiationStep::RetryAfter(250));
    assert_eq!(n.on_outcome(Err(GetErrorKind::ConnectedNext)), NegotiationStep::RetryAfter(500));
    assert_eq!(n.on_outcome(Ok(())), NegotiationStep::Succeeded);
    assert_eq!(n.attempt, 3);
}

#[test]
fn three_failures_surface_the_last_error() {
    let mut n = SizeNegotiation::new();
    assert_eq!(n.on_outcome(Err(GetErrorKind::InitialNext)), NegotiationStep::RetryAfter(250));
    assert_eq!(n.on_outcome(Err(GetErrorKind::Decode)), NegotiationStep::RetryAfter(500));
    assert_eq!(n.on_outcome(Err(GetErrorKind::BadRequest)), NegotiationStep::GaveUp(GetErrorKind::BadRequest));
    assert_eq!(n.last_error, Some(GetErrorKind::BadRequest));
}

#[test]
fn first_attempt_success() {
    let mut n = SizeNegotiation::new();
    assert_eq!(n.on_outcome(Ok(())), NegotiationStep::Succeeded);
    assert_eq!(n.last_error, None);
}

#[test]
fn progress_is_throttled() {
    let mut t = ProgressThrottle::new(10_000_000);
    assert_eq!(t.on_progress(1_048_576), None);
    assert_eq!(t.on_progress(1_048_577), Some(1_048_577));
    assert_eq!(t.on_progress(2_000_000), None);
    assert_eq!(t.on_progress(2_097_154), Some(2_097_154));
    assert_eq!(t.on_progress(5), None);
    assert_eq!(t.on_done(), 10_000_000);
}

#[test]
fn payload_leaves_out_metadata() {
    assert_eq!(payload_size(&vec![40, 100]), Some(100));
    assert_eq!(payload_size(&vec![40, 1, 2, 3]), Some(6));
    assert_eq!(payload_size(&vec![40]), Some(0));
    assert_eq!(payload_size(&Vec::new()), Some(0));
    assert_eq!(payload_size(&vec![u64::MAX, u64::MAX]), Some(u64::MAX));
    assert_eq!(payload_size(&vec![0, u64::MAX, 1]), None);
}

#[test]
fn files_exclude_metadata() {
    assert_eq!(file_count(2), 1);
    assert_eq!(file_count(126), 125);
    assert_eq!(file_count(0), 0);
}

#[test]
fn decimal_digits() {
    assert_eq!(decimal_string(0), "0");
    assert_eq!(decimal_string(9), "9");
    assert_eq!(decimal_string(10), "10");
    assert_eq!(decimal_string(1234567890), "1234567890");
    assert_eq!(decimal_string(u64::MAX), u64::MAX.to_string());
}

#[test]
fn result_message() {
    assert_eq!(receive_message(1, 100), "Downloaded 1 files, 100 bytes");
    assert_eq!(receive_message(125, 31000), "Downloaded 125 files, 31000 bytes");
}

#[test]
fn error_classes() {
    assert_eq!(GetErrorKind::AtBlobHeaderNext.class(), ErrorClass::Connection);
    assert_eq!(GetErrorKind::IrpcSend.class(), ErrorClass::Protocol);
    assert_eq!(GetErrorKind::LocalFailure.class(), ErrorClass::Other);
    assert_eq!(GetErrorKind::Decode.description(), "decoding error");
    assert_eq!(GetErrorKind::BadRequest.description(), "bad request");
}
