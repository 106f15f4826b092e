//! URL arguments: a string is accepted when it parses as an absolute URL
//! that names a host.

use crate::error::{HttpieError, HttpieErrorView};
use vstd::prelude::*;

verus! {

/// The error of `url::Url::parse`, carried through unopened.
#[verifier::external_type_specification]
#[verifier::external_body]
pub struct ExParseError(::url::ParseError);

/// What `url::Url::parse` makes of `input`: `None` where it refuses the
/// text, else whether the URL it parsed names a host (`Url::has_host`).
pub uninterp spec fn parsed_has_host(input: Seq<char>) -> Option<bool>;

/// Calls `url::Url::parse` on `input` and, where that succeeds,
/// `Url::has_host` on the URL.
///
/// Trusted: the parser reads nothing but its argument, so the outcome is
/// the value that [`parsed_has_host`] names for this text.
#[verifier::external_body]
fn parse_has_host(input: &str) -> (r: Result<bool, ::url::ParseError>)
    ensures
        r matches Ok(h) ==> parsed_has_host(input@) == Some(h),
        r is Err ==> parsed_has_host(input@) is None,
{
    match ::url::Url::parse(input) {
        Ok(parsed) => Ok(parsed.has_host()),
        Err(e) => Err(e),
    }
}

/// `s` parses as an absolute URL and that URL names a host.
pub open spec fn is_absolute_url(s: Seq<char>) -> bool {
    parsed_has_host(s) == Some(true)
}

/// A string known to be an absolute URL with a host. It cannot be changed
/// once made, and [`parse_url`] is the only way to make one.
#[derive(Debug)]
pub struct ValidatedUrl {
    text: String,
}

impl View for ValidatedUrl {
    type V = Seq<char>;

    closed spec fn view(&self) -> Seq<char> {
        self.text@
    }
}

impl ValidatedUrl {
    #[verifier::type_invariant]
    spec fn well_formed(self) -> bool {
        is_absolute_url(self.text@)
    }

    /// The text of the URL, as it was given.
    pub fn as_str(&self) -> (s: &str)
        ensures
            s@ == self@,
            is_absolute_url(s@),
    {
        proof {
            use_type_invariant(self);
        }
        self.text.as_str()
    }
}

impl Clone for ValidatedUrl {
    fn clone(&self) -> (r: Self)
        ensures
            r@ == self@,
    {
        proof {
            use_type_invariant(self);
        }
        ValidatedUrl { text: self.text.clone() }
    }
}

/// Checks a URL argument before any network activity.
///
/// Succeeds, keeping the text as it is, exactly when the text parses as an
/// absolute URL with a host; relative paths and bare host names fail with
/// [`HttpieError::InvalidUrl`], which carries the text.
pub fn parse_url(s: &str) -> (r: Result<ValidatedUrl, HttpieError>)
    ensures
        match r {
            Ok(url) => is_absolute_url(s@) && url@ == s@,
            Err(e) => !is_absolute_url(s@) && e@ == (HttpieErrorView::InvalidUrl { input: s@ }),
        },
{
    match parse_has_host(s) {
        Ok(true) => Ok(ValidatedUrl { text: String::from_str(s) }),
        Ok(false) => Err(HttpieError::InvalidUrl { input: String::from_str(s) }),
        Err(_) => Err(HttpieError::InvalidUrl { input: String::from_str(s) }),
    }
}

} // verus!
