use test_helpers_end_to_end::expect::error_matches;
use test_helpers_end_to_end::metrics_url;
use tonic::Code;

#[test]
fn right_code_and_message_match() {
    assert!(error_matches(&Code::InvalidArgument, "table not found", &Code::InvalidArgument, "table not found"));
}

#[test]
fn message_may_be_surrounded_by_other_text() {
    assert!(error_matches(
        &Code::InvalidArgument,
        "table 'foo' not found",
        &Code::InvalidArgument,
        "Error while planning query: table 'foo' not found (code 42)"
    ));
}

#[test]
fn right_code_with_wrong_message_is_refused() {
    assert!(!error_matches(
        &Code::InvalidArgument,
        "table 'foo' not found",
        &Code::InvalidArgument,
        "Error while planning query: table 'bar' not found"
    ));
}

#[test]
fn wrong_code_is_refused_whatever_the_message() {
    assert!(!error_matches(&Code::InvalidArgument, "table not found", &Code::NotFound, "table not found"));
    assert!(!error_matches(&Code::Ok, "", &Code::Unknown, ""));
}

#[test]
fn every_code_matches_itself_only() {
    let codes = [
        Code::Ok,
        Code::Cancelled,
        Code::Unknown,
        Code::InvalidArgument,
        Code::DeadlineExceeded,
        Code::NotFound,
        Code::AlreadyExists,
        Code::PermissionDenied,
        Code::ResourceExhausted,
        Code::FailedPrecondition,
        Code::Aborted,
        Code::OutOfRange,
        Code::Unimplemented,
        Code::Internal,
        Code::Unavailable,
        Code::DataLoss,
        Code::Unauthenticated,
    ];
    for (i, expected) in codes.iter().enumerate() {
        for (j, code) in codes.iter().enumerate() {
            assert_eq!(error_matches(expected, "boom", code, "it went boom"), i == j);
        }
    }
}

#[test]
fn empty_expected_message_asks_for_the_code_only() {
    assert!(error_matches(&Code::Internal, "", &Code::Internal, "anything at all"));
    assert!(!error_matches(&Code::Internal, "", &Code::Unavailable, "anything at all"));
}

#[test]
fn metrics_are_under_the_http_base() {
    assert_eq!(metrics_url("http://127.0.0.1:8080"), "http://127.0.0.1:8080/metrics");
    assert_eq!(metrics_url(""), "/metrics");
}
