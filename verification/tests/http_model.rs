use proxy_core::http::{
    ConstructionError, MiddlewareError, ProxyError, Request, Response, TransportError, Upstream,
    response_from, rewrite_to_upstream,
};

fn sample_request(path: &str) -> Request {
    Request {
        method: "POST".to_owned(),
        scheme: "http".to_owned(),
        authority: "client.example:8080".to_owned(),
        path_and_query: path.to_owned(),
        headers: vec![
            ("host".to_owned(), "client.example".to_owned()),
            ("accept".to_owned(), "*/*".to_owned()),
        ],
        body: vec![1, 2, 3, 4],
    }
}

fn upstream() -> Upstream {
    Upstream { scheme: "https".to_owned(), authority: "backend.internal:9000".to_owned() }
}

#[test]
fn rewrite_replaces_only_the_target() {
    let req = sample_request("/api/v1/items?page=2");
    let out = rewrite_to_upstream(req, &upstream()).unwrap();
    assert_eq!(out.method, "POST");
    assert_eq!(out.scheme, "https");
    assert_eq!(out.authority, "backend.internal:9000");
    assert_eq!(out.path_and_query, "/api/v1/items?page=2");
    assert_eq!(out.headers.len(), 2);
    assert_eq!(out.headers[0], ("host".to_owned(), "client.example".to_owned()));
    assert_eq!(out.headers[1], ("accept".to_owned(), "*/*".to_owned()));
    assert_eq!(out.body, vec![1, 2, 3, 4]);
}

#[test]
fn rewrite_rejects_relative_path() {
    let req = sample_request("api/no-leading-slash");
    assert!(rewrite_to_upstream(req, &upstream()).is_err());
}

#[test]
fn rewrite_rejects_empty_path() {
    let req = sample_request("");
    assert!(rewrite_to_upstream(req, &upstream()).is_err());
}

#[test]
fn rewrite_rejects_malformed_upstream() {
    let bad_authority =
        Upstream { scheme: "http".to_owned(), authority: "back end".to_owned() };
    assert!(rewrite_to_upstream(sample_request("/"), &bad_authority).is_err());

    let slash_authority =
        Upstream { scheme: "http".to_owned(), authority: "host/path".to_owned() };
    assert!(rewrite_to_upstream(sample_request("/"), &slash_authority).is_err());

    let empty_authority = Upstream { scheme: "http".to_owned(), authority: "".to_owned() };
    assert!(rewrite_to_upstream(sample_request("/"), &empty_authority).is_err());

    let empty_scheme =
        Upstream { scheme: "".to_owned(), authority: "backend.internal".to_owned() };
    assert!(rewrite_to_upstream(sample_request("/"), &empty_scheme).is_err());
}

#[test]
fn synthesizer_maps_hook_errors_to_500() {
    let r: Response = response_from(&ProxyError::Hook(MiddlewareError {
        message: "auth backend broke".to_owned(),
    }));
    assert_eq!(r.status, 500);
    assert!(r.headers.is_empty());
    assert_eq!(r.body, b"auth backend broke".to_vec());
}

#[test]
fn synthesizer_maps_transport_errors_to_502() {
    let r = response_from(&ProxyError::Transport(TransportError {
        message: "connection refused".to_owned(),
    }));
    assert_eq!(r.status, 502);
    assert!(r.headers.is_empty());
    assert_eq!(r.body, b"connection refused".to_vec());
}

#[test]
fn synthesizer_maps_construction_errors_to_400() {
    let r = response_from(&ProxyError::Construction(ConstructionError {
        message: "bad target".to_owned(),
    }));
    assert_eq!(r.status, 400);
    assert!(r.headers.is_empty());
    assert_eq!(r.body, b"bad target".to_vec());
}
