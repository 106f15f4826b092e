//! Responses: what the transport answered, as plain values, and the media
//! type that its `Content-Type` header declares.

use crate::header::{header_views, Header, HeaderView};
use crate::text::{eq_ignore_ascii_case, texts_eq_ignore_ascii_case};
use vstd::prelude::*;

verus! {

/// The error of the media type parser of the `mime` crate, carried through
/// unopened.
#[verifier::external_type_specification]
#[verifier::external_body]
pub struct ExFromStrError(mime::FromStrError);

/// The declared type of a body: the top-level type, the subtype and, where
/// the header gives one, the `+suffix`. Parameters are not part of it.
#[derive(Debug, Clone, PartialEq, Eq)]
pub struct MediaType {
    pub type_: String,
    pub subtype: String,
    pub suffix: Option<String>,
}

/// The mathematical value of a [`MediaType`].
pub struct MediaTypeView {
    pub type_: Seq<char>,
    pub subtype: Seq<char>,
    pub suffix: Option<Seq<char>>,
}

impl View for MediaType {
    type V = MediaTypeView;

    open spec fn view(&self) -> MediaTypeView {
        MediaTypeView {
            type_: self.type_@,
            subtype: self.subtype@,
            suffix: match self.suffix {
                Some(s) => Some(s@),
                None => None,
            },
        }
    }
}

/// The value of a media type that may be absent.
pub open spec fn media_view(m: Option<MediaType>) -> Option<MediaTypeView> {
    match m {
        Some(m) => Some(m@),
        None => None,
    }
}

/// What the `mime` crate parses `text` into (`<Mime as FromStr>::from_str`,
/// read through `type_`, `subtype` and `suffix`), or `None` where it
/// refuses the text.
pub uninterp spec fn parsed_media_type(text: Seq<char>) -> Option<MediaTypeView>;

/// Calls the parser of `mime::Mime` on `text` and copies the three names
/// out of the result.
///
/// Trusted: the parser reads nothing but its argument, so the outcome is
/// the value that [`parsed_media_type`] names for this text.
#[verifier::external_body]
fn parse_media_type(text: &str) -> (r: Result<MediaType, mime::FromStrError>)
    ensures
        r matches Ok(m) ==> parsed_media_type(text@) == Some(m@),
        r is Err ==> parsed_media_type(text@) is None,
{
    match text.parse::<mime::Mime>() {
        Ok(m) => Ok(
            MediaType {
                type_: m.type_().as_str().to_string(),
                subtype: m.subtype().as_str().to_string(),
                suffix: m.suffix().map(|s| s.as_str().to_string()),
            },
        ),
        Err(e) => Err(e),
    }
}

/// `name` is the name of the `Content-Type` header; header names do not
/// tell capital from small letters.
pub open spec fn is_content_type(name: Seq<char>) -> bool {
    eq_ignore_ascii_case(name, "content-type"@)
}

/// The value of the first `Content-Type` header, if there is one.
pub open spec fn declared_content_type(headers: Seq<HeaderView>) -> Option<Seq<char>>
    decreases headers.len(),
{
    if headers.len() == 0 {
        None
    } else if is_content_type(headers[0].name) {
        Some(headers[0].value)
    } else {
        declared_content_type(headers.drop_first())
    }
}

/// The media type that the headers declare: what the first `Content-Type`
/// header parses into; `None` without such a header and where its value
/// does not parse.
pub open spec fn resolved(headers: Seq<HeaderView>) -> Option<MediaTypeView> {
    match declared_content_type(headers) {
        Some(value) => parsed_media_type(value),
        None => None,
    }
}

/// Headers without a `Content-Type` among them declare no media type.
pub proof fn law_missing_header_resolves_to_none(headers: Seq<HeaderView>)
    requires
        forall|i: int| 0 <= i < headers.len() ==> !is_content_type((#[trigger] headers[i]).name),
    ensures
        resolved(headers) is None,
    decreases headers.len(),
{
    if headers.len() > 0 {
        assert(!is_content_type(headers[0].name));
        let rest = headers.drop_first();
        assert forall|i: int| 0 <= i < rest.len() implies !is_content_type(
            (#[trigger] rest[i]).name,
        ) by {
            assert(rest[i] == headers[i + 1]);
        }
        law_missing_header_resolves_to_none(rest);
    }
}

/// The first `Content-Type` header decides: the media type is what its
/// value parses into, whatever follows it.
pub proof fn law_first_header_decides(headers: Seq<HeaderView>, i: int)
    requires
        0 <= i < headers.len(),
        is_content_type(headers[i].name),
        forall|j: int| 0 <= j < i ==> !is_content_type((#[trigger] headers[j]).name),
    ensures
        resolved(headers) == parsed_media_type(headers[i].value),
    decreases headers.len(),
{
    if i > 0 {
        assert(!is_content_type(headers[0].name));
        let rest = headers.drop_first();
        assert(rest[i - 1] == headers[i]);
        assert forall|j: int| 0 <= j < i - 1 implies !is_content_type(
            (#[trigger] rest[j]).name,
        ) by {
            assert(rest[j] == headers[j + 1]);
        }
        law_first_header_decides(rest, i - 1);
    }
}

/// Reads the `Content-Type` header, if present, and parses it. A missing
/// header and one that does not parse both give `None`: the body is then
/// shown as plain text.
pub fn get_content_type(headers: &Vec<Header>) -> (r: Option<MediaType>)
    ensures
        media_view(r) == resolved(header_views(headers@)),
{
    let mut i: usize = 0;
    assert(header_views(headers@).skip(0) =~= header_views(headers@));
    while i < headers.len()
        invariant
            i <= headers.len(),
            declared_content_type(header_views(headers@)) == declared_content_type(
                header_views(headers@).skip(i as int),
            ),
        decreases headers.len() - i,
    {
        let ghost rest = header_views(headers@).skip(i as int);
        assert(rest[0] == headers@[i as int]@);
        assert(rest.drop_first() =~= header_views(headers@).skip(i as int + 1));
        if texts_eq_ignore_ascii_case(headers[i].name.as_str(), "content-type") {
            return match parse_media_type(headers[i].value.as_str()) {
                Ok(m) => Some(m),
                Err(_) => None,
            };
        }
        i += 1;
    }
    None
}

/// What the transport answered, read once from the raw response and not
/// changed afterwards.
#[derive(Debug, Clone, PartialEq, Eq)]
pub struct ResponseEnvelope {
    pub protocol_version: String,
    pub status_code: u16,
    pub status_text: String,
    pub headers: Vec<Header>,
    pub content_type: Option<MediaType>,
    pub body_text: String,
}

impl ResponseEnvelope {
    /// The content type is the one that the headers declare.
    pub open spec fn wf(&self) -> bool {
        media_view(self.content_type) == resolved(header_views(self.headers@))
    }

    /// Makes the envelope of a response and resolves its content type.
    pub fn new(
        protocol_version: String,
        status_code: u16,
        status_text: String,
        headers: Vec<Header>,
        body_text: String,
    ) -> (r: ResponseEnvelope)
        ensures
            r.wf(),
            r.protocol_version == protocol_version,
            r.status_code == status_code,
            r.status_text == status_text,
            r.headers == headers,
            r.body_text == body_text,
    {
        let content_type = get_content_type(&headers);
        ResponseEnvelope {
            protocol_version,
            status_code,
            status_text,
            headers,
            content_type,
            body_text,
        }
    }
}

} // verus!
