//! The layout of a rendered response: status line, headers and body, each
//! followed by what separates it from the next.

use crate::highlight::{highlight, highlighted, law_highlighted_keeps_text, THEME};
use crate::header::{header_views, Header, HeaderView};
use crate::response::{media_view, MediaType, MediaTypeView, ResponseEnvelope};
use crate::segment::{
    lemma_visible_text_concat, lemma_visible_text_single, segment_views, visible_text, Segment,
    SegmentView, Style,
};
use crate::text::{decimal, decimal_text, text_is};
use vstd::prelude::*;

verus! {

/// The way a body is shown.
#[derive(Debug, Clone, Copy, PartialEq, Eq, Structural)]
pub enum Renderer {
    /// The body as it is.
    Plain,
    /// The body highlighted as JSON.
    Json,
    /// The body highlighted as HTML.
    Html,
}

/// The media type is `application/json`.
pub open spec fn is_json(m: MediaTypeView) -> bool {
    m.type_ == "application"@ && m.subtype == "json"@ && m.suffix is None
}

/// The media type is `text/html`.
pub open spec fn is_html(m: MediaTypeView) -> bool {
    m.type_ == "text"@ && m.subtype == "html"@ && m.suffix is None
}

/// The renderer of a body by its declared media type: JSON and HTML are
/// highlighted, every other type and a missing one are shown plain.
pub open spec fn renderer_for(m: Option<MediaTypeView>) -> Renderer {
    match m {
        Some(m) => if is_json(m) {
            Renderer::Json
        } else if is_html(m) {
            Renderer::Html
        } else {
            Renderer::Plain
        },
        None => Renderer::Plain,
    }
}

/// The three paths of rendering: `application/json` is highlighted as
/// JSON, `text/html` as HTML, and every other media type, like a missing
/// one, is shown plain.
pub proof fn law_renderer_by_media_type(m: Option<MediaTypeView>)
    ensures
        m matches Some(t) && is_json(t) ==> renderer_for(m) == Renderer::Json,
        m matches Some(t) && is_html(t) ==> renderer_for(m) == Renderer::Html,
        m matches Some(t) && !is_json(t) && !is_html(t) ==> renderer_for(m) == Renderer::Plain,
        m is None ==> renderer_for(m) == Renderer::Plain,
{
    reveal_strlit("application");
    reveal_strlit("text");
    assert("application"@.len() != "text"@.len());
}

/// Picks the renderer of a body by its declared media type.
pub fn select_renderer(content_type: &Option<MediaType>) -> (r: Renderer)
    ensures
        r == renderer_for(media_view(*content_type)),
{
    match content_type {
        Some(m) => {
            if m.suffix.is_some() {
                Renderer::Plain
            } else if text_is(&m.type_, "application") && text_is(&m.subtype, "json") {
                Renderer::Json
            } else if text_is(&m.type_, "text") && text_is(&m.subtype, "html") {
                proof {
                    reveal_strlit("application");
                    reveal_strlit("text");
                }
                Renderer::Html
            } else {
                proof {
                    reveal_strlit("json");
                    reveal_strlit("html");
                    reveal_strlit("application");
                    reveal_strlit("text");
                }
                Renderer::Plain
            }
        },
        None => Renderer::Plain,
    }
}

/// The status line: protocol version, status code and status text, with
/// one space between them.
pub open spec fn status_line(version: Seq<char>, code: nat, reason: Seq<char>) -> Seq<char> {
    version + seq![' '] + decimal(code) + seq![' '] + reason
}

/// The status part of a rendering: the status line in the attention
/// colour, then a blank line.
pub open spec fn status_part(version: Seq<char>, code: nat, reason: Seq<char>) -> Seq<
    SegmentView,
> {
    seq![
        SegmentView { style: Style::Status, text: status_line(version, code, reason) },
        SegmentView { style: Style::Plain, text: seq!['\n', '\n'] },
    ]
}

/// The two segments of one header line: the name in the colour of names,
/// then a colon, a space, the value and a line feed in default formatting.
pub open spec fn header_line(h: HeaderView) -> Seq<SegmentView> {
    seq![
        SegmentView { style: Style::HeaderName, text: h.name },
        SegmentView { style: Style::Plain, text: seq![':', ' '] + h.value + seq!['\n'] },
    ]
}

/// The lines of the headers, in the order received.
pub open spec fn header_lines(headers: Seq<HeaderView>) -> Seq<SegmentView>
    decreases headers.len(),
{
    if headers.len() == 0 {
        Seq::empty()
    } else {
        header_lines(headers.drop_last()) + header_line(headers.last())
    }
}

/// The header part of a rendering: one line per header, then a blank
/// line.
pub open spec fn headers_part(headers: Seq<HeaderView>) -> Seq<SegmentView> {
    header_lines(headers) + seq![SegmentView { style: Style::Plain, text: seq!['\n'] }]
}

/// The body part of a plain rendering: the body as it is, and nothing
/// after it.
pub open spec fn plain_part(body: Seq<char>) -> Seq<SegmentView> {
    seq![SegmentView { style: Style::Plain, text: body }]
}

/// The file extension by which a renderer finds its grammar; the plain
/// renderer has none.
pub open spec fn grammar_of(renderer: Renderer) -> Option<Seq<char>> {
    match renderer {
        Renderer::Plain => None,
        Renderer::Json => Some("json"@),
        Renderer::Html => Some("html"@),
    }
}

/// The body part that a renderer gives for a body: without a grammar the
/// plain part, with one the highlighting of the body by that grammar in
/// the colours of the fixed theme.
pub open spec fn body_part(renderer: Renderer, body: Seq<char>) -> Seq<SegmentView> {
    match grammar_of(renderer) {
        Some(extension) => highlighted(THEME@, extension, body),
        None => plain_part(body),
    }
}

/// The text of the header lines: `name: value` and a line feed for each.
pub open spec fn header_text(headers: Seq<HeaderView>) -> Seq<char>
    decreases headers.len(),
{
    if headers.len() == 0 {
        Seq::empty()
    } else {
        header_text(headers.drop_last()) + headers.last().name + seq![':', ' ']
            + headers.last().value + seq!['\n']
    }
}

/// The whole text that a rendering shows, styling taken away: the status
/// line, a blank line, the header lines, a blank line and the body, with
/// nothing after it.
pub open spec fn rendered_text(
    version: Seq<char>,
    code: nat,
    reason: Seq<char>,
    headers: Seq<HeaderView>,
    body: Seq<char>,
) -> Seq<char> {
    status_line(version, code, reason) + seq!['\n', '\n'] + header_text(headers) + seq!['\n']
        + body
}

/// The header lines show `name: value` for each header, in order.
pub proof fn lemma_header_lines_text(headers: Seq<HeaderView>)
    ensures
        visible_text(header_lines(headers)) == header_text(headers),
    decreases headers.len(),
{
    if headers.len() == 0 {
        assert(visible_text(header_lines(headers)) =~= header_text(headers));
    } else {
        let h = headers.last();
        lemma_header_lines_text(headers.drop_last());
        lemma_visible_text_concat(header_lines(headers.drop_last()), header_line(h));
        let name = SegmentView { style: Style::HeaderName, text: h.name };
        let rest = SegmentView {
            style: Style::Plain,
            text: seq![':', ' '] + h.value + seq!['\n'],
        };
        assert(header_line(h) =~= seq![name] + seq![rest]);
        lemma_visible_text_concat(seq![name], seq![rest]);
        lemma_visible_text_single(name);
        lemma_visible_text_single(rest);
        assert(visible_text(header_lines(headers)) =~= header_text(headers));
    }
}

/// A body part shows the body and nothing else, whichever renderer made
/// it and whatever the highlighter did.
pub proof fn law_body_part_keeps_text(renderer: Renderer, body: Seq<char>)
    ensures
        visible_text(body_part(renderer, body)) == body,
{
    match grammar_of(renderer) {
        Some(extension) => {
            law_highlighted_keeps_text(THEME@, extension, body);
        },
        None => {
            lemma_visible_text_single(SegmentView { style: Style::Plain, text: body });
        },
    }
}

/// A plain body part holds no token: without a grammar nothing is
/// highlighted.
pub proof fn law_plain_part_is_the_body(body: Seq<char>)
    ensures
        body_part(Renderer::Plain, body) == seq![SegmentView { style: Style::Plain, text: body }],
{
}

/// Rendering is presentation only: the status part, the header part and
/// the body part of any renderer together show the status line, the
/// headers and the body, character for character.
pub proof fn law_rendering_keeps_text(
    version: Seq<char>,
    code: nat,
    reason: Seq<char>,
    headers: Seq<HeaderView>,
    renderer: Renderer,
    body: Seq<char>,
)
    ensures
        visible_text(
            status_part(version, code, reason) + headers_part(headers) + body_part(renderer, body),
        ) == rendered_text(version, code, reason, headers, body),
{
    let status = status_part(version, code, reason);
    let line = SegmentView { style: Style::Status, text: status_line(version, code, reason) };
    let gap = SegmentView { style: Style::Plain, text: seq!['\n', '\n'] };
    assert(status =~= seq![line] + seq![gap]);
    lemma_visible_text_concat(seq![line], seq![gap]);
    lemma_visible_text_single(line);
    lemma_visible_text_single(gap);
    let end = SegmentView { style: Style::Plain, text: seq!['\n'] };
    lemma_header_lines_text(headers);
    lemma_visible_text_concat(header_lines(headers), seq![end]);
    lemma_visible_text_single(end);
    law_body_part_keeps_text(renderer, body);
    lemma_visible_text_concat(status, headers_part(headers));
    lemma_visible_text_concat(status + headers_part(headers), body_part(renderer, body));
}

/// The status part of the rendering of a response.
pub fn render_status(envelope: &ResponseEnvelope) -> (r: Vec<Segment>)
    ensures
        segment_views(r@) == status_part(
            envelope.protocol_version@,
            envelope.status_code as nat,
            envelope.status_text@,
        ),
{
    let mut line = envelope.protocol_version.clone();
    line.append(" ");
    line.append(decimal_text(envelope.status_code).as_str());
    line.append(" ");
    line.append(envelope.status_text.as_str());
    proof {
        reveal_strlit(" ");
        reveal_strlit("\n\n");
        assert(" "@ =~= seq![' ']);
        assert("\n\n"@ =~= seq!['\n', '\n']);
    }
    let mut r: Vec<Segment> = Vec::new();
    r.push(Segment { style: Style::Status, text: line });
    r.push(Segment { style: Style::Plain, text: String::from_str("\n\n") });
    assert(segment_views(r@) =~= status_part(
        envelope.protocol_version@,
        envelope.status_code as nat,
        envelope.status_text@,
    ));
    r
}

/// The header part of the rendering of a response: the headers in the
/// order received, one per line, then a blank line.
pub fn render_headers(headers: &Vec<Header>) -> (r: Vec<Segment>)
    ensures
        segment_views(r@) == headers_part(header_views(headers@)),
{
    proof {
        reveal_strlit(": ");
        reveal_strlit("\n");
        assert(": "@ =~= seq![':', ' ']);
        assert("\n"@ =~= seq!['\n']);
    }
    let mut r: Vec<Segment> = Vec::new();
    let mut i: usize = 0;
    assert(header_views(headers@).take(0) =~= Seq::empty());
    assert(segment_views(r@) =~= Seq::empty());
    while i < headers.len()
        invariant
            i <= headers.len(),
            ": "@ == seq![':', ' '],
            "\n"@ == seq!['\n'],
            segment_views(r@) == header_lines(header_views(headers@).take(i as int)),
        decreases headers.len() - i,
    {
        let ghost before = segment_views(r@);
        let ghost h = headers@[i as int]@;
        proof {
            let upto = header_views(headers@).take(i as int + 1);
            assert(upto.drop_last() =~= header_views(headers@).take(i as int));
            assert(upto.last() == h);
        }
        let mut rest = String::from_str(": ");
        rest.append(headers[i].value.as_str());
        rest.append("\n");
        r.push(Segment { style: Style::HeaderName, text: headers[i].name.clone() });
        r.push(Segment { style: Style::Plain, text: rest });
        assert(segment_views(r@) =~= before + header_line(h));
        i += 1;
    }
    assert(header_views(headers@).take(headers.len() as int) =~= header_views(headers@));
    let ghost lines = segment_views(r@);
    r.push(Segment { style: Style::Plain, text: String::from_str("\n") });
    assert(segment_views(r@) =~= lines + seq![
        SegmentView { style: Style::Plain, text: seq!['\n'] },
    ]);
    r
}

impl Renderer {
    /// The file extension of the grammar that highlights for this
    /// renderer.
    pub fn extension(self) -> (r: Option<&'static str>)
        ensures
            match r {
                Some(extension) => grammar_of(self) == Some(extension@),
                None => grammar_of(self) is None,
            },
    {
        match self {
            Renderer::Plain => None,
            Renderer::Json => Some("json"),
            Renderer::Html => Some("html"),
        }
    }

    /// Renders a body: with a grammar, the body highlighted by it; without
    /// one, the body as it is.
    pub fn render(self, body: &str) -> (r: Vec<Segment>)
        ensures
            segment_views(r@) == body_part(self, body@),
            visible_text(segment_views(r@)) == body@,
    {
        proof {
            law_body_part_keeps_text(self, body@);
        }
        match self.extension() {
            Some(extension) => highlight(body, extension),
            None => {
                let mut r: Vec<Segment> = Vec::new();
                r.push(Segment { style: Style::Plain, text: String::from_str(body) });
                assert(segment_views(r@) =~= plain_part(body@));
                r
            },
        }
    }
}

/// The body part of the rendering of a response: a JSON body is
/// highlighted as JSON, an HTML body as HTML, and every other body is
/// shown as it is. An unsupported or missing content type is no failure.
pub fn render_body(content_type: &Option<MediaType>, body: &String) -> (r: Vec<Segment>)
    ensures
        segment_views(r@) == body_part(renderer_for(media_view(*content_type)), body@),
        visible_text(segment_views(r@)) == body@,
{
    select_renderer(content_type).render(body.as_str())
}

/// The rendering of a response: the status part, the header part and the
/// body part of the renderer that the content type selects, in this
/// order.
pub open spec fn rendering(envelope: ResponseEnvelope) -> Seq<SegmentView> {
    status_part(envelope.protocol_version@, envelope.status_code as nat, envelope.status_text@)
        + headers_part(header_views(envelope.headers@)) + body_part(
        renderer_for(media_view(envelope.content_type)),
        envelope.body_text@,
    )
}

/// The text that the rendering of a response shows.
pub open spec fn response_text(envelope: ResponseEnvelope) -> Seq<char> {
    rendered_text(
        envelope.protocol_version@,
        envelope.status_code as nat,
        envelope.status_text@,
        header_views(envelope.headers@),
        envelope.body_text@,
    )
}

/// The rendering of a response shows the status line, the headers and
/// the body unchanged, whatever the highlighter did.
pub proof fn law_rendering_shows_response(envelope: ResponseEnvelope)
    ensures
        visible_text(rendering(envelope)) == response_text(envelope),
{
    law_rendering_keeps_text(
        envelope.protocol_version@,
        envelope.status_code as nat,
        envelope.status_text@,
        header_views(envelope.headers@),
        renderer_for(media_view(envelope.content_type)),
        envelope.body_text@,
    );
}

/// Renders a response: status part, header part and body part, in this
/// order. The rendering never fails, and it shows the status line, the
/// headers and the body unchanged.
pub fn render_response(envelope: &ResponseEnvelope) -> (r: Vec<Segment>)
    ensures
        segment_views(r@) == rendering(*envelope),
        visible_text(segment_views(r@)) == response_text(*envelope),
{
    let mut r = render_status(envelope);
    let mut headers = render_headers(&envelope.headers);
    let mut body = render_body(&envelope.content_type, &envelope.body_text);
    let ghost s = segment_views(r@);
    let ghost h = segment_views(headers@);
    let ghost b = segment_views(body@);
    r.append(&mut headers);
    r.append(&mut body);
    proof {
        assert(segment_views(r@) =~= s + h + b);
        law_rendering_shows_response(*envelope);
    }
    r
}

} // verus!
