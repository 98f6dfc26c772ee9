use proxy_core::executor::{absorb, recover};
use proxy_core::http::{MiddlewareError, Response};
use proxy_core::middleware::MiddlewareResult;

fn response(status: u16) -> Response {
    Response { status, headers: Vec::new(), body: Vec::new() }
}

#[test]
fn absorb_keeps_the_response_on_continue() {
    let out = absorb(response(200), Ok(MiddlewareResult::Next));
    assert_eq!(out.status, 200);
}

#[test]
fn absorb_replaces_the_response_on_respond() {
    let out = absorb(response(200), Ok(MiddlewareResult::RespondWith(response(418))));
    assert_eq!(out.status, 418);
}

#[test]
fn absorb_synthesizes_a_hook_error() {
    let out = absorb(response(200), Err(MiddlewareError { message: "nope".to_owned() }));
    assert_eq!(out.status, 500);
    assert_eq!(out.body, b"nope".to_vec());
}

#[test]
fn recover_is_monotone() {
    let none = recover(None, Ok(MiddlewareResult::Next));
    assert!(none.is_none());

    let got = recover(None, Ok(MiddlewareResult::RespondWith(response(201))));
    assert_eq!(got.as_ref().map(|r| r.status), Some(201));

    // A later continue keeps the recovery already made.
    let kept = recover(got, Ok(MiddlewareResult::Next));
    assert_eq!(kept.map(|r| r.status), Some(201));
}

#[test]
fn recover_turns_a_hook_error_into_a_response() {
    let out = recover(None, Err(MiddlewareError { message: "late".to_owned() }));
    let r = out.unwrap();
    assert_eq!(r.status, 500);
    assert_eq!(r.body, b"late".to_vec());
}
