//! From the text of a request to the text of its response, through the
//! interceptors.

use crate::codec::some_text;
use crate::envelope::{encode_response, parse_request, request_of, response_text};
use crate::middleware::{Decision, Middleware};
use crate::types::{Request, Response};
use vstd::prelude::*;
use vstd::string::*;

verus! {

/// The response to a payload that is no JSON.
pub open spec fn parse_error_text() -> Seq<char> {
    "{\"jsonrpc\":\"2.0\",\"error\":{\"code\":-32700,\"message\":\"Parse error\"},\"id\":null}"@
}

/// The response that stands in for one that cannot be written.
pub open spec fn internal_error_text() -> Seq<char> {
    "{\"jsonrpc\":\"2.0\",\"error\":{\"code\":-32603,\"message\":\"Internal error\"},\"id\":null}"@
}

/// The text that goes back to the peer for what the pipeline answered:
/// nothing where it answered nothing, the response as JSON text where it
/// can be written, and an internal error where it cannot.
pub open spec fn answer_text(answer: Option<Response>) -> Option<Seq<char>> {
    match answer {
        None => None,
        Some(response) => match response_text(response@) {
            Some(text) => Some(text),
            None => Some(internal_error_text()),
        },
    }
}

/// Writes what the pipeline answered: see [`answer_text`].
pub fn encode_answer(answer: Option<Response>) -> (text: Option<String>)
    ensures
        some_text(text) == answer_text(answer),
        answer matches Some(response) ==> some_text(text) == response_text(response@),
{
    match answer {
        None => None,
        Some(response) => match encode_response(&response) {
            Ok(text) => Some(text),
            Err(_) => Some(
                String::from_str(
                    "{\"jsonrpc\":\"2.0\",\"error\":{\"code\":-32603,\"message\":\"Internal error\"},\"id\":null}",
                ),
            ),
        },
    }
}

/// Handles the text of one request: reads it, runs it through the pipeline
/// with `dispatch` at its end, and writes what comes back. A payload that is
/// no JSON is answered with a parse error and reaches neither the pipeline
/// nor the dispatcher. A request that nobody answers, such as a
/// notification, has no response.
pub fn handle_request<M, P: Middleware<M, Option<Response>>, F>(pipeline: &P, content: &str, meta: M, dispatch: F) -> (out:
    Option<String>)
    where F: FnOnce(Request, M) -> Option<Response>
    requires
        forall|rq: Request, m: M| call_requires(dispatch, (rq, m)),
    ensures
        match request_of(content@) {
            None => some_text(out) == Some(parse_error_text()),
            Some(request) => exists|parsed: Request|
                parsed@ == request && match #[trigger] pipeline.decide(parsed, meta) {
                    Decision::Respond(answer) => some_text(out) == answer_text(answer),
                    Decision::Forward(rq, m) => exists|inner: Option<Response>|
                        #[trigger] call_ensures(dispatch, (rq, m), inner) && some_text(out)
                            == answer_text(pipeline.finish(parsed, meta, inner)),
                },
        },
{
    match parse_request(content) {
        Ok(request) => {
            let answer = pipeline.on_request(request, meta, dispatch);
            encode_answer(answer)
        },
        Err(_) => Some(
            String::from_str(
                "{\"jsonrpc\":\"2.0\",\"error\":{\"code\":-32700,\"message\":\"Parse error\"},\"id\":null}",
            ),
        ),
    }
}

} // verus!
