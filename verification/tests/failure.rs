use burn_after_reading::failure::{with_message, with_status, Cause, Class, Failure, Status};

#[test]
fn labels_of_the_statuses() {
    assert_eq!(Status::InvalidInput.label(), "invalid input");
    assert_eq!(Status::BadRequest.label(), "bad request");
    assert_eq!(Status::Unauthorized.label(), "unauthorized");
    assert_eq!(Status::NotFound.label(), "not found");
    assert_eq!(Status::MethodNotAllowed.label(), "method not allowed");
}

#[test]
fn cause_shows_its_last_context() {
    let cause = Cause::new("disk full".to_string());
    assert_eq!(cause.headline(), "disk full");
    let cause = cause.context("writing object".to_string());
    assert_eq!(cause.headline(), "writing object");
    let cause = cause.context("handling upload".to_string());
    assert_eq!(cause.headline(), "handling upload");
}

#[test]
fn describe_bare_status() {
    assert_eq!(Failure::Status(Status::NotFound).describe(), "not found");
    assert_eq!(Failure::Status(Status::Unauthorized).describe(), "unauthorized");
}

#[test]
fn describe_status_with_message() {
    let e = Failure::rejected(Status::InvalidInput, "body required");
    assert_eq!(e.describe(), "invalid input: body required");
}

#[test]
fn describe_unexpected() {
    let e = Failure::unexpected("disk full".to_string());
    assert_eq!(e.describe(), "disk full");
    assert_eq!(e.with_message("writing object").describe(), "writing object");
}

#[test]
fn with_status_keeps_a_bare_status() {
    let e = Failure::Status(Status::NotFound).with_status(Status::BadRequest);
    assert!(matches!(e, Failure::Status(Status::NotFound)));
}

#[test]
fn with_status_replaces_the_status_of_a_message() {
    let e = Failure::rejected(Status::NotFound, "gone").with_status(Status::BadRequest);
    match e {
        Failure::StatusWithMessage(status, cause) => {
            assert_eq!(status, Status::BadRequest);
            assert_eq!(cause.headline(), "gone");
        }
        other => panic!("{:?}", other),
    }
}

#[test]
fn with_status_gives_an_unexpected_failure_a_status() {
    let e = Failure::unexpected("bad byte".to_string()).with_status(Status::BadRequest);
    match e {
        Failure::StatusWithMessage(status, cause) => {
            assert_eq!(status, Status::BadRequest);
            assert_eq!(cause.headline(), "bad byte");
        }
        other => panic!("{:?}", other),
    }
}

#[test]
fn with_message_gives_a_bare_status_a_message() {
    let e = Failure::Status(Status::Unauthorized).with_message("session expired");
    assert_eq!(e.describe(), "unauthorized: session expired");
    assert!(matches!(e, Failure::StatusWithMessage(Status::Unauthorized, _)));
}

#[test]
fn with_message_puts_a_context_around_a_message() {
    let e = Failure::rejected(Status::BadRequest, "invalid byte").with_message("parsing cookie");
    assert_eq!(e.describe(), "bad request: parsing cookie");
    assert!(matches!(e, Failure::StatusWithMessage(Status::BadRequest, _)));
}

#[test]
fn with_message_keeps_an_unexpected_failure_unexpected() {
    let e = Failure::unexpected("io".to_string()).with_message("reading");
    assert!(matches!(e, Failure::Unexpected(_)));
    assert_eq!(e.describe(), "reading");
}

#[test]
fn results_pass_through_when_ok() {
    let ok: Result<u32, Failure> = Ok(7);
    assert_eq!(with_status(ok, Status::BadRequest).unwrap(), 7);
    let ok: Result<u32, Failure> = Ok(9);
    assert_eq!(with_message(ok, "context").unwrap(), 9);
}

#[test]
fn results_are_decorated_when_err() {
    let err: Result<u32, Failure> = Err(Failure::unexpected("bad byte".to_string()));
    let err = with_message(with_status(err, Status::BadRequest), "parsing session cookie");
    let e = err.unwrap_err();
    assert_eq!(e.describe(), "bad request: parsing session cookie");
}

#[test]
fn reply_to_a_bare_status_has_no_body() {
    let reply = Failure::Status(Status::NotFound).reply();
    assert_eq!(reply.class, Class::Rejected(Status::NotFound));
    assert_eq!(reply.body, None);
}

#[test]
fn reply_to_a_message_carries_it() {
    let reply = Failure::rejected(Status::InvalidInput, "body required").reply();
    assert_eq!(reply.class, Class::Rejected(Status::InvalidInput));
    assert_eq!(reply.body, Some("body required".to_string()));
}

#[test]
fn reply_to_an_unexpected_failure_is_internal() {
    let reply = Failure::unexpected("disk full".to_string()).with_message("flushing").reply();
    assert_eq!(reply.class, Class::Internal);
    assert_eq!(reply.body, Some("flushing".to_string()));
}
