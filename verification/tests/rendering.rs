use httpie::highlight::{highlight, settle};
use httpie::header::Header;
use httpie::render::{
    render_body, render_headers, render_response, render_status, select_renderer, Renderer,
};
use httpie::response::{MediaType, ResponseEnvelope};
use httpie::segment::{plain_text, Rgba, Segment, Style};
use httpie::terminal::{paint, to_terminal};
use httpie::text::decimal_text;

fn header(name: &str, value: &str) -> Header {
    Header { name: name.to_string(), value: value.to_string() }
}

fn media(type_: &str, subtype: &str) -> Option<MediaType> {
    Some(MediaType { type_: type_.to_string(), subtype: subtype.to_string(), suffix: None })
}

fn seg(style: Style, text: &str) -> Segment {
    Segment { style, text: text.to_string() }
}

fn token(text: &str) -> Segment {
    let fg = Rgba { r: 1, g: 2, b: 3, a: 255 };
    let bg = Rgba { r: 4, g: 5, b: 6, a: 255 };
    seg(Style::Syntax { fg, bg }, text)
}

fn envelope(content_type: Option<&str>, body: &str) -> ResponseEnvelope {
    let mut headers = vec![header("server", "test")];
    if let Some(value) = content_type {
        headers.push(header("content-type", value));
    }
    ResponseEnvelope::new("HTTP/1.1".to_string(), 200, "OK".to_string(), headers, body.to_string())
}

fn is_token(s: &Segment) -> bool {
    matches!(s.style, Style::Syntax { .. })
}

#[test]
fn renderer_follows_the_media_type() {
    assert_eq!(select_renderer(&media("application", "json")), Renderer::Json);
    assert_eq!(select_renderer(&media("text", "html")), Renderer::Html);
    assert_eq!(select_renderer(&media("text", "plain")), Renderer::Plain);
    assert_eq!(select_renderer(&media("text", "json")), Renderer::Plain);
    assert_eq!(select_renderer(&media("application", "html")), Renderer::Plain);
    assert_eq!(select_renderer(&media("image", "png")), Renderer::Plain);
    assert_eq!(select_renderer(&None), Renderer::Plain);
    let with_suffix = Some(MediaType {
        type_: "application".to_string(),
        subtype: "json".to_string(),
        suffix: Some("xml".to_string()),
    });
    assert_eq!(select_renderer(&with_suffix), Renderer::Plain);
}

#[test]
fn status_code_is_written_in_decimal() {
    assert_eq!(decimal_text(0), "0");
    assert_eq!(decimal_text(7), "7");
    assert_eq!(decimal_text(10), "10");
    assert_eq!(decimal_text(200), "200");
    assert_eq!(decimal_text(404), "404");
    assert_eq!(decimal_text(1234), "1234");
    assert_eq!(decimal_text(65535), "65535");
}

#[test]
fn status_part_is_the_status_line_and_a_blank_line() {
    let e = ResponseEnvelope::new(
        "HTTP/1.1".to_string(),
        404,
        "Not Found".to_string(),
        vec![],
        String::new(),
    );
    assert_eq!(
        render_status(&e),
        vec![seg(Style::Status, "HTTP/1.1 404 Not Found"), seg(Style::Plain, "\n\n")]
    );
}

#[test]
fn header_part_keeps_the_order_received() {
    let headers = vec![header("b", "2"), header("a", "1"), header("b", "")];
    assert_eq!(
        render_headers(&headers),
        vec![
            seg(Style::HeaderName, "b"),
            seg(Style::Plain, ": 2\n"),
            seg(Style::HeaderName, "a"),
            seg(Style::Plain, ": 1\n"),
            seg(Style::HeaderName, "b"),
            seg(Style::Plain, ": \n"),
            seg(Style::Plain, "\n"),
        ]
    );
    assert_eq!(render_headers(&vec![]), vec![seg(Style::Plain, "\n")]);
}

#[test]
fn plain_body_is_shown_as_it_is() {
    let body = "a <b> {\"c\": 1}\r\n\u{1F600}".to_string();
    let expected = vec![seg(Style::Plain, &body)];
    assert_eq!(render_body(&None, &body), expected);
    assert_eq!(render_body(&media("text", "plain"), &body), expected);
    assert_eq!(render_body(&media("application", "xml"), &body), expected);
}

#[test]
fn json_body_takes_the_highlighted_path() {
    let body = "{\n  \"name\": \"bob\",\n  \"n\": [1, 2.5, true, null]\n}\n".to_string();
    let r = render_body(&media("application", "json"), &body);
    assert!(r.len() > 4);
    assert!(r.iter().all(is_token));
    assert_eq!(plain_text(&r), body);
    assert_eq!(r, highlight(&body, "json"));
}

#[test]
fn html_body_takes_the_highlighted_path() {
    let body = "<!doctype html>\n<html><body class=\"x\">h&amp;i</body></html>".to_string();
    let r = render_body(&media("text", "html"), &body);
    assert!(r.len() > 4);
    assert!(r.iter().all(is_token));
    assert_eq!(plain_text(&r), body);
    assert_eq!(r, highlight(&body, "html"));
    assert_ne!(r, highlight(&body, "json"));
}

#[test]
fn highlighting_colours_tokens_differently() {
    let r = highlight("{\"a\": 1}", "json");
    assert!(r.iter().all(is_token));
    let first = r[0].style;
    assert!(r.iter().any(|s| s.style != first));
}

#[test]
fn highlighting_keeps_line_endings() {
    for body in ["", "\n", "\r\n", "{}\r\n[]\r\n", "no newline at end", "\n\n\n", "é\nü"] {
        let r = highlight(body, "json");
        assert_eq!(plain_text(&r), body);
        assert!(r.iter().all(is_token));
    }
    assert_eq!(highlight("", "json"), vec![]);
}

#[test]
fn unknown_syntax_falls_back_to_plain() {
    let body = "{\"a\": 1}\n";
    assert_eq!(highlight(body, "no-such-syntax"), vec![seg(Style::Plain, body)]);
    assert_eq!(highlight("", "no-such-syntax"), vec![seg(Style::Plain, "")]);
}

#[test]
fn faithful_tokens_are_kept() {
    let spans = vec![token("{\"a\""), token(": "), token("1}")];
    assert_eq!(settle("{\"a\": 1}", spans.clone()), spans);
    assert_eq!(settle("", vec![]), vec![]);
}

#[test]
fn unfaithful_tokens_are_dropped() {
    let body = "{\"a\": 1}";
    let plain = vec![seg(Style::Plain, body)];
    assert_eq!(settle(body, vec![token("{\"a\""), token("1}")]), plain);
    assert_eq!(settle(body, vec![token("{\"a\": 1} ")]), plain);
    assert_eq!(settle(body, vec![]), plain);
    assert_eq!(settle(body, vec![token("{\"a\""), seg(Style::Status, ": 1}")]), plain);
    assert_eq!(settle(body, vec![seg(Style::Plain, body)]), plain);
}

#[test]
fn response_is_rendered_in_three_parts() {
    let e = envelope(Some("text/plain"), "hello\n");
    assert_eq!(
        render_response(&e),
        vec![
            seg(Style::Status, "HTTP/1.1 200 OK"),
            seg(Style::Plain, "\n\n"),
            seg(Style::HeaderName, "server"),
            seg(Style::Plain, ": test\n"),
            seg(Style::HeaderName, "content-type"),
            seg(Style::Plain, ": text/plain\n"),
            seg(Style::Plain, "\n"),
            seg(Style::Plain, "hello\n"),
        ]
    );
}

#[test]
fn error_status_is_rendered_like_any_other() {
    let e = ResponseEnvelope::new(
        "HTTP/1.1".to_string(),
        503,
        "Service Unavailable".to_string(),
        vec![header("retry-after", "120")],
        "down".to_string(),
    );
    assert_eq!(
        plain_text(&render_response(&e)),
        "HTTP/1.1 503 Service Unavailable\n\nretry-after: 120\n\ndown"
    );
}

#[test]
fn json_response_shows_its_body_unchanged() {
    let body = "{\"a\": \"2\"}";
    let r = render_response(&envelope(Some("application/json"), body));
    assert_eq!(
        plain_text(&r),
        format!("HTTP/1.1 200 OK\n\nserver: test\ncontent-type: application/json\n\n{}", body)
    );
    assert_eq!(r[..7], render_response(&envelope(Some("application/json"), ""))[..7]);
    assert!(r[7..].iter().all(is_token));
    assert!(r.len() > 8);
}

#[test]
fn html_response_shows_its_body_unchanged() {
    let body = "<p>hi</p>\n";
    let r = render_response(&envelope(Some("text/html; charset=utf-8"), body));
    assert_eq!(
        plain_text(&r),
        format!("HTTP/1.1 200 OK\n\nserver: test\ncontent-type: text/html; charset=utf-8\n\n{}", body)
    );
    assert!(r[7..].iter().all(is_token));
}

#[test]
fn response_without_content_type_is_plain() {
    let r = render_response(&envelope(None, "{\"a\": 1}"));
    assert_eq!(r.len(), 6);
    assert_eq!(r[5..], [seg(Style::Plain, "{\"a\": 1}")]);
    let r = render_response(&envelope(Some("application/octet-stream"), "{\"a\": 1}"));
    assert_eq!(r[7..], [seg(Style::Plain, "{\"a\": 1}")]);
}

#[test]
fn plain_text_joins_the_segments() {
    assert_eq!(plain_text(&vec![]), "");
    assert_eq!(plain_text(&vec![seg(Style::Status, "a"), token("b"), seg(Style::Plain, "c")]), "abc");
}

#[test]
fn plain_segment_is_painted_as_it_is() {
    assert_eq!(paint(&seg(Style::Plain, "a\u{1b}[0mb\n")), "a\u{1b}[0mb\n");
    assert_eq!(paint(&seg(Style::Plain, "")), "");
}

#[test]
fn token_is_painted_in_its_colours() {
    assert_eq!(paint(&token("x y")), "\u{1b}[48;2;4;5;6m\u{1b}[38;2;1;2;3mx y");
    let faint = Segment {
        style: Style::Syntax {
            fg: Rgba { r: 255, g: 0, b: 100, a: 0 },
            bg: Rgba { r: 10, g: 20, b: 30, a: 255 },
        },
        text: "t".to_string(),
    };
    assert_eq!(paint(&faint), "\u{1b}[48;2;10;20;30m\u{1b}[38;2;10;20;30mt");
}

#[test]
fn coloured_segments_keep_their_text() {
    let status = paint(&seg(Style::Status, "HTTP/1.1 200 OK"));
    assert!(status == "HTTP/1.1 200 OK" || status == "\u{1b}[34mHTTP/1.1 200 OK\u{1b}[0m");
    let name = paint(&seg(Style::HeaderName, "server"));
    assert!(name == "server" || name == "\u{1b}[32mserver\u{1b}[0m");
    let empty = paint(&seg(Style::Status, ""));
    assert!(empty == "" || empty == "\u{1b}[34m\u{1b}[0m");
}

#[test]
fn faint_foreground_is_blended_over_the_background() {
    let half = Segment {
        style: Style::Syntax {
            fg: Rgba { r: 255, g: 0, b: 100, a: 128 },
            bg: Rgba { r: 0, g: 255, b: 50, a: 255 },
        },
        text: "t".to_string(),
    };
    assert_eq!(paint(&half), "\u{1b}[48;2;0;255;50m\u{1b}[38;2;128;127;75mt");
}

#[test]
fn plain_body_of_a_response_ends_the_rendering() {
    for body in ["", "x", "no line feed", "ends in one\n", "{\"a\": 1}"] {
        let r = render_response(&envelope(Some("text/plain"), body));
        assert_eq!(r.last().unwrap(), &seg(Style::Plain, body));
        assert!(plain_text(&r).ends_with(&format!("\n\n{}", body)));
        assert_eq!(render_body(&None, &body.to_string()), vec![seg(Style::Plain, body)]);
    }
}

#[test]
fn empty_body_has_no_tokens() {
    assert_eq!(highlight("", "json"), vec![]);
    assert_eq!(highlight("", "html"), vec![]);
    assert_eq!(render_body(&media("application", "json"), &String::new()), vec![]);
    assert_eq!(to_terminal(&highlight("", "json")), "");
}

#[test]
fn terminal_text_joins_the_pieces() {
    let segments = vec![seg(Style::Plain, "a\n"), token("b"), seg(Style::Plain, "c")];
    assert_eq!(to_terminal(&segments), "a\n\u{1b}[48;2;4;5;6m\u{1b}[38;2;1;2;3mbc");
    assert_eq!(to_terminal(&vec![]), "");
}

#[test]
fn tokens_never_span_two_lines() {
    let body = "{\n  \"a\": [\n    1,\n    2\n  ],\n\n  \"b\": \"x\"\n}\n";
    let r = highlight(body, "json");
    assert!(r.len() > 8);
    for s in &r {
        let inner = &s.text[..s.text.len().saturating_sub(1)];
        assert!(!inner.contains('\n'), "{:?}", s.text);
    }
    let html = "<ul>\n  <li>a</li>\n\n  <li>b</li>\n</ul>";
    for s in &highlight(html, "html") {
        let inner = &s.text[..s.text.len().saturating_sub(1)];
        assert!(!inner.contains('\n'), "{:?}", s.text);
    }
}
