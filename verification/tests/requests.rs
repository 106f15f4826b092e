use httpie::kv::KvPair;
use httpie::request::{
    build, default_headers, get, has_unique_keys, merge_pairs, post, request_for, Get, Method,
    Post, RequestDescriptor, SubCommand,
};
use httpie::url::parse_url;

fn pair(k: &str, v: &str) -> KvPair {
    KvPair { k: k.to_string(), v: v.to_string() }
}

#[test]
fn duplicate_keys_keep_the_last_value() {
    let url = parse_url("https://httpbin.org/post").unwrap();
    let r = build(Method::Post, url, &vec![pair("a", "1"), pair("a", "2")]);
    assert_eq!(r.method, Method::Post);
    assert_eq!(r.body, Some(vec![pair("a", "2")]));
}

#[test]
fn single_pair_builds_single_entry() {
    let url = parse_url("https://httpbin.org/post").unwrap();
    let r = build(Method::Post, url, &vec![pair("name", "bob")]);
    assert_eq!(r.body, Some(vec![pair("name", "bob")]));
    assert_eq!(r.url.as_str(), "https://httpbin.org/post");
}

#[test]
fn overwritten_key_keeps_its_place() {
    let pairs =
        vec![pair("a", "1"), pair("b", "2"), pair("a", "3"), pair("c", "4"), pair("b", "5")];
    assert_eq!(merge_pairs(&pairs), vec![pair("a", "3"), pair("b", "5"), pair("c", "4")]);
}

#[test]
fn values_stay_strings() {
    let pairs = vec![pair("n", "42"), pair("t", "true"), pair("e", "")];
    assert_eq!(merge_pairs(&pairs), pairs);
}

#[test]
fn keys_differ_by_case() {
    let pairs = vec![pair("a", "1"), pair("A", "2")];
    assert_eq!(merge_pairs(&pairs), pairs);
}

#[test]
fn no_pairs_build_an_empty_body() {
    let url = parse_url("http://abc.xyz").unwrap();
    let r = build(Method::Post, url, &vec![]);
    assert_eq!(r.body, Some(vec![]));
}

#[test]
fn get_has_no_body() {
    let url = parse_url("http://abc.xyz").unwrap();
    let r = build(Method::Get, url, &vec![pair("a", "1")]);
    assert_eq!(r.method, Method::Get);
    assert_eq!(r.body, None);
    assert_eq!(r.url.as_str(), "http://abc.xyz");
}

#[test]
fn get_command_gives_get_request() {
    let args = Get { url: parse_url("http://abc.xyz/x").unwrap() };
    let r = get(&args);
    assert_eq!(r.method, Method::Get);
    assert_eq!(r.url.as_str(), "http://abc.xyz/x");
    assert_eq!(r.body, None);
    let r = request_for(&SubCommand::Get(args));
    assert_eq!(r.method, Method::Get);
    assert_eq!(r.body, None);
}

#[test]
fn post_command_gives_post_request() {
    let args = Post {
        url: parse_url("https://httpbin.org/post").unwrap(),
        body: vec![pair("a", "1"), pair("b", "2"), pair("a", "9")],
    };
    let r = post(&args);
    assert_eq!(r.method, Method::Post);
    assert_eq!(r.url.as_str(), "https://httpbin.org/post");
    assert_eq!(r.body, Some(vec![pair("a", "9"), pair("b", "2")]));
    let r = request_for(&SubCommand::Post(args));
    assert_eq!(r.method, Method::Post);
    assert_eq!(r.body, Some(vec![pair("a", "9"), pair("b", "2")]));
}

#[test]
fn every_request_carries_the_client_headers() {
    let headers = default_headers();
    assert_eq!(headers.len(), 2);
    assert_eq!(headers[0].name, "X-Powered-By");
    assert_eq!(headers[0].value, "RUST");
    assert_eq!(headers[1].name, "User-Agent");
    assert_eq!(headers[1].value, "Rust Httpie");
}

#[test]
fn duplicate_keys_encode_the_last_value() {
    let url = parse_url("https://httpbin.org/post").unwrap();
    let r = build(Method::Post, url, &vec![pair("a", "1"), pair("a", "2")]);
    assert_eq!(r.encode_body().unwrap(), Some("{\"a\":\"2\"}".to_string()));
}

#[test]
fn single_pair_encodes_as_json_object() {
    let url = parse_url("https://httpbin.org/post").unwrap();
    let r = build(Method::Post, url, &vec![pair("name", "bob")]);
    assert_eq!(r.encode_body().unwrap(), Some("{\"name\":\"bob\"}".to_string()));
    let headers = r.headers();
    assert_eq!(headers.len(), 1);
    assert_eq!(headers[0].name, "Content-Type");
    assert_eq!(headers[0].value, "application/json");
}

#[test]
fn encoded_values_are_strings() {
    let url = parse_url("http://abc.xyz").unwrap();
    let pairs = vec![pair("n", "42"), pair("t", "true"), pair("z", "null"), pair("e", "")];
    let r = build(Method::Post, url, &pairs);
    assert_eq!(
        r.encode_body().unwrap(),
        Some("{\"e\":\"\",\"n\":\"42\",\"t\":\"true\",\"z\":\"null\"}".to_string())
    );
}

#[test]
fn encoded_text_is_escaped() {
    let url = parse_url("http://abc.xyz").unwrap();
    let r = build(Method::Post, url, &vec![pair("q\"k", "a\\b\n\u{e9}=")]);
    assert_eq!(
        r.encode_body().unwrap(),
        Some("{\"q\\\"k\":\"a\\\\b\\n\u{e9}=\"}".to_string())
    );
}

#[test]
fn empty_body_encodes_as_empty_object() {
    let url = parse_url("http://abc.xyz").unwrap();
    let r = build(Method::Post, url, &vec![]);
    assert_eq!(r.encode_body().unwrap(), Some("{}".to_string()));
}

#[test]
fn get_sends_no_body_and_no_content_type() {
    let url = parse_url("http://abc.xyz").unwrap();
    let r = build(Method::Get, url, &vec![pair("a", "1")]);
    assert_eq!(r.encode_body().unwrap(), None);
    assert!(r.headers().is_empty());
}

#[test]
fn unique_keys_are_told_from_repeated_ones() {
    assert!(has_unique_keys(&vec![]));
    assert!(has_unique_keys(&vec![pair("a", "1")]));
    assert!(has_unique_keys(&vec![pair("a", "1"), pair("b", "1"), pair("A", "1")]));
    assert!(!has_unique_keys(&vec![pair("a", "1"), pair("a", "1")]));
    assert!(!has_unique_keys(&vec![pair("a", "1"), pair("b", "2"), pair("c", "3"), pair("b", "4")]));
}

#[test]
fn built_requests_are_well_formed() {
    let url = parse_url("http://abc.xyz").unwrap();
    assert!(build(Method::Get, url.clone(), &vec![pair("a", "1")]).is_well_formed());
    assert!(build(Method::Post, url.clone(), &vec![pair("a", "1"), pair("a", "2")])
        .is_well_formed());
    assert!(build(Method::Post, url, &vec![]).is_well_formed());
}

#[test]
fn hand_made_requests_may_be_ill_formed() {
    let url = parse_url("http://abc.xyz").unwrap();
    let get_with_body =
        RequestDescriptor { method: Method::Get, url: url.clone(), body: Some(vec![]) };
    assert!(!get_with_body.is_well_formed());
    let post_without_body = RequestDescriptor { method: Method::Post, url: url.clone(), body: None };
    assert!(!post_without_body.is_well_formed());
    let repeated = RequestDescriptor {
        method: Method::Post,
        url,
        body: Some(vec![pair("a", "1"), pair("a", "2")]),
    };
    assert!(!repeated.is_well_formed());
}
