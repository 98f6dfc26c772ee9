use proxy_core::http::{
    MiddlewareError, ProxyError, Request, Response, TransportError, Upstream, response_from,
};
use proxy_core::middleware::{HookResult, Middleware, MiddlewareResult};
use proxy_core::service::{ProxyService, ServiceContext};
use proxy_core::state::SharedState;
use serde_json::Value;

#[derive(Default)]
struct Probe {
    before: usize,
    before_async: usize,
    success: usize,
    failure: usize,
    after: usize,
    after_async: usize,
    empty_at_before: Vec<bool>,
    after_with_response: Vec<bool>,
}

enum TestMw {
    /// No-op logger: counts every hook invocation.
    Watch(Probe),
    /// Responds 401 from the before-phase.
    Auth,
    /// Adds the header `x-proxy: 1` to the outbound request.
    HeaderInject,
    /// Fails in the before-phase with the given message.
    FailBefore(String),
    /// Appends `("x-tag", tag)` to the response on request_success.
    SuccessTag(String),
    /// Writes a state entry under the run's request id in the before-phase.
    StateWriter,
    /// Recovers a failed dispatch with a response of the given status.
    Recover(u16),
    /// A failure-notification hook that itself errors.
    NotifyErr,
}

fn with_header(res: &Response, name: &str, value: &str) -> Response {
    let mut headers = res.headers.clone();
    headers.push((name.to_owned(), value.to_owned()));
    Response { status: res.status, headers, body: res.body.clone() }
}

impl Middleware for TestMw {
    fn before_request(
        &mut self,
        req: &mut Request,
        context: &ServiceContext,
        state: &mut SharedState,
    ) -> HookResult {
        match self {
            TestMw::Watch(p) => {
                p.before += 1;
                p.empty_at_before.push(state.is_empty());
                Ok(MiddlewareResult::Next)
            }
            TestMw::Auth => Ok(MiddlewareResult::RespondWith(Response {
                status: 401,
                headers: Vec::new(),
                body: b"unauthorized".to_vec(),
            })),
            TestMw::HeaderInject => {
                req.headers.push(("x-proxy".to_owned(), "1".to_owned()));
                Ok(MiddlewareResult::Next)
            }
            TestMw::FailBefore(msg) => Err(MiddlewareError { message: msg.clone() }),
            TestMw::StateWriter => {
                state.set("written".to_owned(), context.req_id, Value::Bool(true));
                Ok(MiddlewareResult::Next)
            }
            _ => Ok(MiddlewareResult::Next),
        }
    }

    fn before_request_async(
        &mut self,
        _req: &mut Request,
        _context: &ServiceContext,
        _state: &mut SharedState,
    ) -> HookResult {
        if let TestMw::Watch(p) = self {
            p.before_async += 1;
        }
        Ok(MiddlewareResult::Next)
    }

    fn request_success(
        &mut self,
        res: &Response,
        _context: &ServiceContext,
        _state: &mut SharedState,
    ) -> HookResult {
        match self {
            TestMw::Watch(p) => {
                p.success += 1;
                Ok(MiddlewareResult::Next)
            }
            TestMw::SuccessTag(tag) => {
                Ok(MiddlewareResult::RespondWith(with_header(res, "x-tag", tag)))
            }
            _ => Ok(MiddlewareResult::Next),
        }
    }

    fn request_failure(
        &mut self,
        _err: &ProxyError,
        _context: &ServiceContext,
        _state: &mut SharedState,
    ) -> Result<(), MiddlewareError> {
        match self {
            TestMw::Watch(p) => {
                p.failure += 1;
                Ok(())
            }
            TestMw::NotifyErr => Err(MiddlewareError { message: "notify blew up".to_owned() }),
            _ => Ok(()),
        }
    }

    fn after_request(
        &mut self,
        res: Option<&Response>,
        _context: &ServiceContext,
        _state: &mut SharedState,
    ) -> HookResult {
        match self {
            TestMw::Watch(p) => {
                p.after += 1;
                p.after_with_response.push(res.is_some());
                Ok(MiddlewareResult::Next)
            }
            TestMw::Recover(status) => match res {
                None => Ok(MiddlewareResult::RespondWith(Response {
                    status: *status,
                    headers: Vec::new(),
                    body: b"recovered".to_vec(),
                })),
                Some(_) => Ok(MiddlewareResult::Next),
            },
            _ => Ok(MiddlewareResult::Next),
        }
    }

    fn after_request_async(
        &mut self,
        _res: Option<&Response>,
        _context: &ServiceContext,
        _state: &mut SharedState,
    ) -> HookResult {
        if let TestMw::Watch(p) = self {
            p.after_async += 1;
        }
        Ok(MiddlewareResult::Next)
    }
}

fn request() -> Request {
    Request {
        method: "GET".to_owned(),
        scheme: "http".to_owned(),
        authority: "client.example".to_owned(),
        path_and_query: "/hello?x=1".to_owned(),
        headers: vec![("accept".to_owned(), "text/plain".to_owned())],
        body: Vec::new(),
    }
}

fn upstream() -> Upstream {
    Upstream { scheme: "http".to_owned(), authority: "backend.internal:3000".to_owned() }
}

fn ok_response(status: u16) -> Response {
    Response {
        status,
        headers: vec![("server".to_owned(), "backend".to_owned())],
        body: b"hello".to_vec(),
    }
}

fn service(chain: Vec<TestMw>) -> ProxyService<TestMw> {
    ProxyService::new(chain, "203.0.113.9:4711".to_owned())
}

fn watch(svc: &ProxyService<TestMw>, i: usize) -> &Probe {
    match &svc.middlewares[i] {
        TestMw::Watch(p) => p,
        _ => panic!("middleware {} is not a probe", i),
    }
}

#[test]
fn early_respondent_blocks_the_rest_of_the_before_phase() {
    // Scenario: an auth middleware answers 401; the upstream is never
    // contacted, and the restricted post-phase still runs over the full
    // chain.
    let mut svc = service(vec![TestMw::Auth, TestMw::Watch(Probe::default())]);
    let (out, dispatched) = svc.call(request(), &upstream(), Ok(ok_response(200)));
    let res = out.unwrap();
    assert_eq!(res.status, 401);
    assert!(dispatched.is_none());
    let p = watch(&svc, 1);
    assert_eq!(p.before, 0);
    assert_eq!(p.before_async, 0);
    assert_eq!(p.success, 0);
    assert_eq!(p.after, 1);
    assert_eq!(p.after_with_response, vec![true]);
    // The suspending after-hook belongs to the post-success path only.
    assert_eq!(p.after_async, 0);
}

#[test]
fn failing_before_hook_is_synthesized_and_short_circuits() {
    let mut svc = service(vec![
        TestMw::FailBefore("kaput".to_owned()),
        TestMw::Watch(Probe::default()),
    ]);
    let (out, dispatched) = svc.call(request(), &upstream(), Ok(ok_response(200)));
    let res = out.unwrap();
    assert_eq!(res.status, 500);
    assert_eq!(res.body, b"kaput".to_vec());
    assert!(dispatched.is_none());
    let p = watch(&svc, 1);
    assert_eq!(p.before, 0);
    assert_eq!(p.after, 1);
}

#[test]
fn injected_header_reaches_the_upstream() {
    // Scenario: a no-op logger plus a header injector; the dispatched request
    // carries the header and both middlewares see the successful response.
    let mut svc = service(vec![TestMw::Watch(Probe::default()), TestMw::HeaderInject]);
    let (out, dispatched) = svc.call(request(), &upstream(), Ok(ok_response(200)));
    assert_eq!(out.unwrap().status, 200);
    let d = dispatched.expect("upstream must have been contacted");
    assert!(d.headers.contains(&("x-proxy".to_owned(), "1".to_owned())));
    assert_eq!(d.scheme, "http");
    assert_eq!(d.authority, "backend.internal:3000");
    assert_eq!(d.path_and_query, "/hello?x=1");
    let p = watch(&svc, 0);
    assert_eq!(p.before, 1);
    assert_eq!(p.before_async, 1);
    assert_eq!(p.success, 1);
    assert_eq!(p.failure, 0);
    assert_eq!(p.after, 1);
    assert_eq!(p.after_async, 1);
}

#[test]
fn success_results_compose_left_to_right() {
    let mut svc = service(vec![
        TestMw::SuccessTag("one".to_owned()),
        TestMw::SuccessTag("two".to_owned()),
    ]);
    let (out, _) = svc.call(request(), &upstream(), Ok(ok_response(200)));
    let res = out.unwrap();
    let tags: Vec<&str> = res
        .headers
        .iter()
        .filter(|(k, _)| k == "x-tag")
        .map(|(_, v)| v.as_str())
        .collect();
    // Middleware one's output is middleware two's input: both tags, in chain
    // order.
    assert_eq!(tags, vec!["one", "two"]);
}

#[test]
fn refused_upstream_notifies_everyone_and_propagates_only_the_transport_error() {
    let mut svc = service(vec![
        TestMw::Watch(Probe::default()),
        TestMw::Watch(Probe::default()),
    ]);
    let (out, dispatched) = svc.call(
        request(),
        &upstream(),
        Err(TransportError { message: "connection refused".to_owned() }),
    );
    assert!(dispatched.is_some());
    let err = out.expect_err("nothing recovered, the transport error propagates");
    assert_eq!(err.message, "connection refused");
    for i in 0..2 {
        let p = watch(&svc, i);
        assert_eq!(p.failure, 1);
        assert_eq!(p.after, 1);
        assert_eq!(p.after_with_response, vec![false]);
        assert_eq!(p.after_async, 0, "the post-failure path never suspends");
        assert_eq!(p.success, 0);
    }
    // The caller materializes the propagated error as a well-formed response.
    let res = response_from(&ProxyError::Transport(err));
    assert_eq!(res.status, 502);
}

#[test]
fn notify_hook_errors_cannot_alter_the_outcome() {
    let refused = || Err(TransportError { message: "boom".to_owned() });

    let mut noisy = service(vec![TestMw::NotifyErr]);
    let (noisy_out, _) = noisy.call(request(), &upstream(), refused());
    let mut quiet = service(vec![TestMw::Watch(Probe::default())]);
    let (quiet_out, _) = quiet.call(request(), &upstream(), refused());
    assert_eq!(noisy_out.unwrap_err().message, "boom");
    assert_eq!(quiet_out.unwrap_err().message, "boom");

    // Even beside a recovering middleware, the notify error changes nothing.
    let mut recovering = service(vec![TestMw::NotifyErr, TestMw::Recover(203)]);
    let (out, _) = recovering.call(request(), &upstream(), refused());
    assert_eq!(out.unwrap().status, 203);
}

#[test]
fn recovery_turns_a_failed_dispatch_into_a_response() {
    let mut svc = service(vec![TestMw::Watch(Probe::default()), TestMw::Recover(200)]);
    let (out, _) = svc.call(
        request(),
        &upstream(),
        Err(TransportError { message: "timeout".to_owned() }),
    );
    let res = out.unwrap();
    assert_eq!(res.status, 200);
    assert_eq!(res.body, b"recovered".to_vec());
}

#[test]
fn empty_chain_is_a_pure_forwarder() {
    let mut svc: ProxyService<TestMw> = service(Vec::new());
    let backend = Response {
        status: 237,
        headers: vec![("h".to_owned(), "v".to_owned())],
        body: vec![9, 9, 9],
    };
    let (out, dispatched) = svc.call(request(), &upstream(), Ok(backend));
    let res = out.unwrap();
    assert_eq!(res.status, 237);
    assert_eq!(res.headers, vec![("h".to_owned(), "v".to_owned())]);
    assert_eq!(res.body, vec![9, 9, 9]);
    let d = dispatched.unwrap();
    assert_eq!(d.method, "GET");
    assert_eq!(d.scheme, "http");
    assert_eq!(d.authority, "backend.internal:3000");
    assert_eq!(d.path_and_query, "/hello?x=1");
    assert_eq!(d.headers, vec![("accept".to_owned(), "text/plain".to_owned())]);
    assert!(d.body.is_empty());
}

#[test]
fn empty_chain_with_bad_target_answers_400() {
    let mut svc: ProxyService<TestMw> = service(Vec::new());
    let bad = Upstream { scheme: "http".to_owned(), authority: "no spaces allowed".to_owned() };
    let (out, dispatched) = svc.call(request(), &bad, Ok(ok_response(200)));
    assert!(dispatched.is_none());
    assert_eq!(out.unwrap().status, 400);
}

#[test]
fn state_store_is_empty_at_every_request_start() {
    // Scenario: request 1 writes state under its request id; when request 2
    // begins on the same connection the store is empty again, although the
    // entry existed moments before.
    let mut svc = service(vec![TestMw::Watch(Probe::default()), TestMw::StateWriter]);
    let (out, _) = svc.call(request(), &upstream(), Ok(ok_response(200)));
    assert!(out.is_ok());
    assert!(!svc.state.is_empty(), "request 1 left its entry behind");

    let (out, _) = svc.call(request(), &upstream(), Ok(ok_response(200)));
    assert!(out.is_ok());
    let p = watch(&svc, 0);
    assert_eq!(p.empty_at_before, vec![true, true]);
}

#[test]
fn hooks_share_state_within_one_run() {
    let mut svc = service(vec![TestMw::StateWriter]);
    let (out, _) = svc.call(request(), &upstream(), Ok(ok_response(200)));
    assert!(out.is_ok());
    // The writer's entry is still visible after the run, under some request
    // id minted by the service.
    assert!(!svc.state.is_empty());
}
