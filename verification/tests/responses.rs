use httpie::header::Header;
use httpie::response::{get_content_type, MediaType, ResponseEnvelope};
use httpie::text::texts_eq_ignore_ascii_case;

fn header(name: &str, value: &str) -> Header {
    Header { name: name.to_string(), value: value.to_string() }
}

fn media(type_: &str, subtype: &str) -> MediaType {
    MediaType { type_: type_.to_string(), subtype: subtype.to_string(), suffix: None }
}

#[test]
fn json_content_type_resolves_to_json() {
    let headers = vec![header("content-type", "application/json")];
    assert_eq!(get_content_type(&headers), Some(media("application", "json")));
}

#[test]
fn html_content_type_resolves_to_html() {
    let headers = vec![header("server", "x"), header("content-type", "text/html")];
    assert_eq!(get_content_type(&headers), Some(media("text", "html")));
}

#[test]
fn missing_content_type_resolves_to_none() {
    assert_eq!(get_content_type(&vec![]), None);
    let headers = vec![header("content-length", "12"), header("x-content-type", "text/html")];
    assert_eq!(get_content_type(&headers), None);
}

#[test]
fn unparseable_content_type_resolves_to_none() {
    for value in ["", "json", "/html", "text html", "text/html; charset", "tëxt/html"] {
        assert_eq!(get_content_type(&vec![header("content-type", value)]), None, "{:?}", value);
    }
}

#[test]
fn header_name_matches_in_any_case() {
    for name in ["Content-Type", "CONTENT-TYPE", "content-type", "cOnTeNt-TyPe"] {
        let headers = vec![header(name, "text/plain")];
        assert_eq!(get_content_type(&headers), Some(media("text", "plain")));
    }
}

#[test]
fn media_type_is_lower_cased_by_the_parser() {
    let headers = vec![header("content-type", "Application/JSON")];
    assert_eq!(get_content_type(&headers), Some(media("application", "json")));
}

#[test]
fn parameters_are_not_part_of_the_media_type() {
    let headers = vec![header("content-type", "text/html; charset=utf-8")];
    assert_eq!(get_content_type(&headers), Some(media("text", "html")));
}

#[test]
fn suffix_is_kept_apart_from_the_subtype() {
    let headers = vec![header("content-type", "image/svg+xml")];
    assert_eq!(
        get_content_type(&headers),
        Some(MediaType {
            type_: "image".to_string(),
            subtype: "svg".to_string(),
            suffix: Some("xml".to_string()),
        })
    );
}

#[test]
fn first_content_type_header_counts() {
    let headers = vec![
        header("content-type", "text/html"),
        header("content-type", "application/json"),
    ];
    assert_eq!(get_content_type(&headers), Some(media("text", "html")));
    let headers = vec![header("content-type", "nonsense"), header("content-type", "text/html")];
    assert_eq!(get_content_type(&headers), None);
}

#[test]
fn texts_compare_without_ascii_case() {
    assert!(texts_eq_ignore_ascii_case("Content-Type", "content-type"));
    assert!(texts_eq_ignore_ascii_case("", ""));
    assert!(texts_eq_ignore_ascii_case("AZaz09", "azAZ09"));
    assert!(!texts_eq_ignore_ascii_case("content-type", "content_type"));
    assert!(!texts_eq_ignore_ascii_case("content-type", "content-typ"));
    assert!(!texts_eq_ignore_ascii_case("@", "`"));
    assert!(!texts_eq_ignore_ascii_case("[", "{"));
    assert!(!texts_eq_ignore_ascii_case("É", "é"));
}

#[test]
fn envelope_keeps_the_response_and_resolves_its_type() {
    let headers = vec![header("date", "today"), header("Content-Type", "application/json")];
    let e = ResponseEnvelope::new(
        "HTTP/1.1".to_string(),
        200,
        "OK".to_string(),
        headers.clone(),
        "{\"a\": 1}".to_string(),
    );
    assert_eq!(e.protocol_version, "HTTP/1.1");
    assert_eq!(e.status_code, 200);
    assert_eq!(e.status_text, "OK");
    assert_eq!(e.headers, headers);
    assert_eq!(e.content_type, Some(media("application", "json")));
    assert_eq!(e.body_text, "{\"a\": 1}");
}

#[test]
fn envelope_body_is_the_raw_body() {
    let body = "line one\r\nline two\n\ttabbed \u{1F600} \u{0}\n";
    let e = ResponseEnvelope::new(
        "HTTP/2.0".to_string(),
        500,
        "Internal Server Error".to_string(),
        vec![],
        body.to_string(),
    );
    assert_eq!(e.body_text, body);
    assert_eq!(e.status_code, 500);
    assert_eq!(e.content_type, None);
}
