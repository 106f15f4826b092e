//! The failures that abort the pipeline.

use vstd::prelude::*;

verus! {

/// A failure of argument validation or of the transport.
#[derive(Debug, Clone)]
pub enum HttpieError {
    /// The URL argument is not an absolute URL with a host.
    InvalidUrl { input: String },
    /// A body token holds no `=` separator.
    MalformedPair { token: String },
    /// The transport could not complete the round trip.
    TransportFailure { reason: String },
}

/// The mathematical value of an [`HttpieError`].
pub enum HttpieErrorView {
    InvalidUrl { input: Seq<char> },
    MalformedPair { token: Seq<char> },
    TransportFailure { reason: Seq<char> },
}

impl View for HttpieError {
    type V = HttpieErrorView;

    open spec fn view(&self) -> HttpieErrorView {
        match *self {
            HttpieError::InvalidUrl { input } => HttpieErrorView::InvalidUrl { input: input@ },
            HttpieError::MalformedPair { token } => HttpieErrorView::MalformedPair { token: token@ },
            HttpieError::TransportFailure { reason } => HttpieErrorView::TransportFailure { reason: reason@ },
        }
    }
}

/// The message of a failure, as it is shown to the user.
pub open spec fn message_text(e: HttpieErrorView) -> Seq<char> {
    match e {
        HttpieErrorView::InvalidUrl { input } => "Invalid URL: "@ + input,
        HttpieErrorView::MalformedPair { token } => "Failed to parse "@ + token,
        HttpieErrorView::TransportFailure { reason } => reason,
    }
}

impl HttpieError {
    /// A message for the user that names the failure and what caused it.
    pub fn message(&self) -> (text: String)
        ensures
            text@ == message_text(self@),
    {
        match self {
            HttpieError::InvalidUrl { input } => {
                let mut text = String::from_str("Invalid URL: ");
                text.append(input.as_str());
                text
            },
            HttpieError::MalformedPair { token } => {
                let mut text = String::from_str("Failed to parse ");
                text.append(token.as_str());
                text
            },
            HttpieError::TransportFailure { reason } => reason.clone(),
        }
    }
}

} // verus!
