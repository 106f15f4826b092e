//! The pipeline of one invocation: validate the arguments, build the
//! request, and, once the transport has answered, render the response.
//! The first failure ends it; nothing is rendered after a failure.

use crate::error::{HttpieError, HttpieErrorView};
use crate::kv::{parse_kv_pair, split_pair, KvPair, KvPairView};
use crate::render::{render_response, rendering, response_text};
use crate::request::{merged, request_for, views, Get, Method, Post, RequestDescriptor, SubCommand};
use crate::response::ResponseEnvelope;
use crate::segment::{segment_views, visible_text, Segment};
use crate::text::string_views;
use crate::url::{is_absolute_url, parse_url};
use vstd::prelude::*;

verus! {

/// `i` is the position of the first token that stands for no pair.
pub open spec fn is_first_malformed(tokens: Seq<Seq<char>>, i: int) -> bool {
    &&& 0 <= i < tokens.len()
    &&& split_pair(tokens[i]) is None
    &&& forall|j: int| 0 <= j < i ==> split_pair(#[trigger] tokens[j]) is Some
}

/// Every token stands for a pair.
pub open spec fn all_well_formed(tokens: Seq<Seq<char>>) -> bool {
    forall|j: int| 0 <= j < tokens.len() ==> split_pair(#[trigger] tokens[j]) is Some
}

/// The pairs that the tokens stand for, in order.
pub open spec fn pairs_of(tokens: Seq<Seq<char>>) -> Seq<KvPairView> {
    Seq::new(tokens.len(), |i: int| split_pair(tokens[i])->0)
}

/// The first malformed token is one token.
pub proof fn lemma_first_malformed_unique(tokens: Seq<Seq<char>>, i: int, j: int)
    requires
        is_first_malformed(tokens, i),
        is_first_malformed(tokens, j),
    ensures
        i == j,
{
    if i < j {
        assert(split_pair(tokens[i]) is Some);
    } else if j < i {
        assert(split_pair(tokens[j]) is Some);
    }
}

/// The failure of a run of body tokens: none where every token stands for
/// a pair, else the first malformed token.
pub open spec fn pairs_failure(tokens: Seq<Seq<char>>) -> Option<HttpieErrorView> {
    if all_well_formed(tokens) {
        None
    } else {
        Some(
            HttpieErrorView::MalformedPair {
                token: tokens[choose|i: int| is_first_malformed(tokens, i)],
            },
        )
    }
}

/// The failure of the arguments of a subcommand, if they have one: the
/// URL is looked at first, then, for a POST, the body tokens in order.
pub open spec fn validation_failure(method: Method, url: Seq<char>, tokens: Seq<Seq<char>>)
    -> Option<HttpieErrorView> {
    if !is_absolute_url(url) {
        Some(HttpieErrorView::InvalidUrl { input: url })
    } else if method == Method::Post {
        pairs_failure(tokens)
    } else {
        None
    }
}

/// The subcommand holds the arguments given, validated.
pub open spec fn holds_arguments(
    command: SubCommand,
    method: Method,
    url: Seq<char>,
    tokens: Seq<Seq<char>>,
) -> bool {
    match command {
        SubCommand::Get(args) => method == Method::Get && args.url@ == url,
        SubCommand::Post(args) => method == Method::Post && args.url@ == url && views(args.body@)
            == pairs_of(tokens),
    }
}

/// Parses the body tokens in order and stops at the first that is
/// malformed.
pub fn parse_pairs(tokens: &Vec<String>) -> (r: Result<Vec<KvPair>, HttpieError>)
    ensures
        match r {
            Ok(pairs) => pairs_failure(string_views(tokens@)) is None && views(pairs@) == pairs_of(
                string_views(tokens@),
            ),
            Err(e) => pairs_failure(string_views(tokens@)) == Some(e@),
        },
{
    let mut pairs: Vec<KvPair> = Vec::new();
    let mut i: usize = 0;
    while i < tokens.len()
        invariant
            i <= tokens.len(),
            pairs.len() == i,
            forall|j: int| 0 <= j < i ==> split_pair(#[trigger] string_views(tokens@)[j]) is Some,
            forall|j: int|
                0 <= j < i ==> Some((#[trigger] views(pairs@)[j])) == split_pair(
                    string_views(tokens@)[j],
                ),
        decreases tokens.len() - i,
    {
        match parse_kv_pair(tokens[i].as_str()) {
            Ok(pair) => {
                let ghost before = views(pairs@);
                pairs.push(pair);
                assert(views(pairs@) =~= before.push(pair@));
            },
            Err(e) => {
                proof {
                    let all = string_views(tokens@);
                    assert(is_first_malformed(all, i as int));
                    assert(!all_well_formed(all));
                    let c = choose|c: int| is_first_malformed(all, c);
                    lemma_first_malformed_unique(all, i as int, c);
                }
                return Err(e);
            },
        }
        i += 1;
    }
    assert(views(pairs@) =~= pairs_of(string_views(tokens@)));
    Ok(pairs)
}

/// Validates the arguments of a subcommand as they stand on the command
/// line: first the URL, then, for a POST, the body tokens in order. The
/// first failure is the one reported. A GET takes no body tokens; any
/// that are given are not looked at.
pub fn validate(method: Method, url: &str, tokens: &Vec<String>) -> (r: Result<
    SubCommand,
    HttpieError,
>)
    ensures
        match r {
            Ok(command) => validation_failure(method, url@, string_views(tokens@)) is None
                && holds_arguments(command, method, url@, string_views(tokens@)),
            Err(e) => validation_failure(method, url@, string_views(tokens@)) == Some(e@),
        },
{
    let url = match parse_url(url) {
        Ok(url) => url,
        Err(e) => {
            return Err(e);
        },
    };
    match method {
        Method::Get => Ok(SubCommand::Get(Get { url })),
        Method::Post => match parse_pairs(tokens) {
            Ok(body) => Ok(SubCommand::Post(Post { url, body })),
            Err(e) => Err(e),
        },
    }
}

/// Validates the arguments and builds the one request of the invocation.
/// Nothing is built from arguments that fail validation.
pub fn prepare(method: Method, url: &str, tokens: &Vec<String>) -> (r: Result<
    RequestDescriptor,
    HttpieError,
>)
    ensures
        match r {
            Ok(request) => {
                &&& validation_failure(method, url@, string_views(tokens@)) is None
                &&& request.wf()
                &&& request.method == method
                &&& request.url@ == url@
                &&& method == Method::Post ==> request.body is Some && views(request.body->0@)
                    == merged(pairs_of(string_views(tokens@)))
            },
            Err(e) => validation_failure(method, url@, string_views(tokens@)) == Some(e@),
        },
{
    match validate(method, url, tokens) {
        Ok(command) => Ok(request_for(&command)),
        Err(e) => Err(e),
    }
}

/// Ends the pipeline with what the transport handed back: a response, of
/// whatever status code, is rendered; a transport failure is reported and
/// nothing is rendered.
pub fn conclude(outcome: Result<ResponseEnvelope, String>) -> (r: Result<
    Vec<Segment>,
    HttpieError,
>)
    ensures
        match outcome {
            Ok(envelope) => r matches Ok(segments) && segment_views(segments@) == rendering(
                envelope,
            ) && visible_text(segment_views(segments@)) == response_text(envelope),
            Err(reason) => r matches Err(e) && e@ == (HttpieErrorView::TransportFailure {
                reason: reason@,
            }),
        },
{
    match outcome {
        Ok(envelope) => Ok(render_response(&envelope)),
        Err(reason) => Err(HttpieError::TransportFailure { reason }),
    }
}

} // verus!
