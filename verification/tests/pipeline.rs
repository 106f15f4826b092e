use httpie::dispatch::{conclude, parse_pairs, prepare, validate};
use httpie::error::HttpieError;
use httpie::kv::KvPair;
use httpie::render::render_response;
use httpie::request::{Method, SubCommand};
use httpie::header::Header;
use httpie::response::ResponseEnvelope;
use httpie::segment::plain_text;

fn pair(k: &str, v: &str) -> KvPair {
    KvPair { k: k.to_string(), v: v.to_string() }
}

fn tokens(items: &[&str]) -> Vec<String> {
    items.iter().map(|s| s.to_string()).collect()
}

#[test]
fn tokens_parse_in_order() {
    assert_eq!(
        parse_pairs(&tokens(&["a=1", "b=", "a=2=3"])).unwrap(),
        vec![pair("a", "1"), pair("b", ""), pair("a", "2=3")]
    );
    assert_eq!(parse_pairs(&tokens(&[])).unwrap(), vec![]);
}

#[test]
fn first_malformed_token_is_reported() {
    match parse_pairs(&tokens(&["a=1", "bad", "c=3", "worse"])) {
        Err(HttpieError::MalformedPair { token }) => assert_eq!(token, "bad"),
        other => panic!("{:?}", other),
    }
}

#[test]
fn get_arguments_are_validated() {
    match validate(Method::Get, "http://abc.xyz", &tokens(&[])).unwrap() {
        SubCommand::Get(args) => assert_eq!(args.url.as_str(), "http://abc.xyz"),
        other => panic!("{:?}", other),
    }
    match validate(Method::Get, "http://abc.xyz", &tokens(&["not a pair"])).unwrap() {
        SubCommand::Get(args) => assert_eq!(args.url.as_str(), "http://abc.xyz"),
        other => panic!("{:?}", other),
    }
}

#[test]
fn post_arguments_are_validated() {
    match validate(Method::Post, "https://httpbin.org/post", &tokens(&["a=1", "a=2"])).unwrap() {
        SubCommand::Post(args) => {
            assert_eq!(args.url.as_str(), "https://httpbin.org/post");
            assert_eq!(args.body, vec![pair("a", "1"), pair("a", "2")]);
        }
        other => panic!("{:?}", other),
    }
}

#[test]
fn invalid_url_is_reported_before_any_token() {
    for method in [Method::Get, Method::Post] {
        match validate(method, "abs", &tokens(&["bad", "a=1"])) {
            Err(HttpieError::InvalidUrl { input }) => assert_eq!(input, "abs"),
            other => panic!("{:?}", other),
        }
    }
}

#[test]
fn malformed_token_aborts_a_post() {
    match validate(Method::Post, "http://abc.xyz", &tokens(&["a=1", "b", "c"])) {
        Err(HttpieError::MalformedPair { token }) => assert_eq!(token, "b"),
        other => panic!("{:?}", other),
    }
    assert!(prepare(Method::Post, "http://abc.xyz", &tokens(&["a=1", "b"])).is_err());
}

#[test]
fn prepared_post_holds_the_folded_body() {
    let r = prepare(Method::Post, "https://httpbin.org/post", &tokens(&["a=1", "b=2", "a=3"]))
        .unwrap();
    assert_eq!(r.method, Method::Post);
    assert_eq!(r.url.as_str(), "https://httpbin.org/post");
    assert_eq!(r.body, Some(vec![pair("a", "3"), pair("b", "2")]));
}

#[test]
fn prepared_get_has_no_body() {
    let r = prepare(Method::Get, "http://abc.xyz", &tokens(&[])).unwrap();
    assert_eq!(r.method, Method::Get);
    assert_eq!(r.body, None);
    match prepare(Method::Get, "abc.xyz", &tokens(&[])) {
        Err(HttpieError::InvalidUrl { input }) => assert_eq!(input, "abc.xyz"),
        other => panic!("{:?}", other),
    }
}

#[test]
fn answered_request_is_rendered() {
    let e = ResponseEnvelope::new(
        "HTTP/1.1".to_string(),
        404,
        "Not Found".to_string(),
        vec![Header { name: "content-type".to_string(), value: "text/plain".to_string() }],
        "nothing here".to_string(),
    );
    let shown = conclude(Ok(e.clone())).unwrap();
    assert_eq!(shown, render_response(&e));
    assert_eq!(
        plain_text(&shown),
        "HTTP/1.1 404 Not Found\n\ncontent-type: text/plain\n\nnothing here"
    );
}

#[test]
fn failed_transport_renders_nothing() {
    match conclude(Err("connection refused".to_string())) {
        Err(HttpieError::TransportFailure { reason }) => assert_eq!(reason, "connection refused"),
        other => panic!("{:?}", other),
    }
    let e = conclude(Err("dns error".to_string())).unwrap_err();
    assert_eq!(e.message(), "dns error");
}
