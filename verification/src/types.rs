//! The messages of JSON-RPC 2.0 on the serving side.

use crate::codec::some_text;
use crate::error::{Failure, FailureView};
use crate::id::{Id, IdView};
use vstd::prelude::*;

verus! {

/// One request object as a mathematical value.
pub enum CallView {
    MethodCall { method: Seq<char>, params: Option<Seq<char>>, id: IdView },
    Notification { method: Seq<char>, params: Option<Seq<char>> },
    Invalid { id: IdView },
}

/// One request object of the peer. Parameters are JSON text.
#[derive(Debug)]
pub enum Call {
    /// A call: it has an identifier and is answered.
    MethodCall { method: String, params: Option<String>, id: Id },
    /// A notification: it has no identifier and is not answered.
    Notification { method: String, params: Option<String> },
    /// An object that is no request; it is answered with an error under this
    /// identifier.
    Invalid { id: Id },
}

impl View for Call {
    type V = CallView;

    open spec fn view(&self) -> CallView {
        match self {
            Call::MethodCall { method, params, id } => CallView::MethodCall {
                method: method@,
                params: some_text(*params),
                id: id@,
            },
            Call::Notification { method, params } => CallView::Notification {
                method: method@,
                params: some_text(*params),
            },
            Call::Invalid { id } => CallView::Invalid { id: id@ },
        }
    }
}

/// The mathematical value of a list of request objects.
pub open spec fn calls_view(calls: Seq<Call>) -> Seq<CallView> {
    calls.map_values(|c: Call| c@)
}

/// What the peer sent, as a mathematical value.
pub enum RequestView {
    Single(CallView),
    Batch(Seq<CallView>),
}

/// What the peer sent: one request object or a batch of them.
#[derive(Debug)]
pub enum Request {
    Single(Call),
    Batch(Vec<Call>),
}

impl View for Request {
    type V = RequestView;

    open spec fn view(&self) -> RequestView {
        match self {
            Request::Single(call) => RequestView::Single(call@),
            Request::Batch(calls) => RequestView::Batch(calls_view(calls@)),
        }
    }
}

/// The answer to one call as a mathematical value.
pub enum OutputView {
    Success { result: Seq<char>, id: IdView },
    Failure { error: FailureView, id: IdView },
}

/// The answer to one call.
#[derive(Debug)]
pub enum Output {
    /// The result of the call, as JSON text.
    Success { result: String, id: Id },
    /// The error that the call ended with.
    Failure { error: Failure, id: Id },
}

impl View for Output {
    type V = OutputView;

    open spec fn view(&self) -> OutputView {
        match self {
            Output::Success { result, id } => OutputView::Success { result: result@, id: id@ },
            Output::Failure { error, id } => OutputView::Failure { error: error@, id: id@ },
        }
    }
}

/// The mathematical value of a list of answers.
pub open spec fn outputs_view(outputs: Seq<Output>) -> Seq<OutputView> {
    outputs.map_values(|o: Output| o@)
}

/// What goes back to the peer, as a mathematical value.
pub enum ResponseView {
    Single(OutputView),
    Batch(Seq<OutputView>),
}

/// What goes back to the peer: one answer or a batch of them.
#[derive(Debug)]
pub enum Response {
    Single(Output),
    Batch(Vec<Output>),
}

impl View for Response {
    type V = ResponseView;

    open spec fn view(&self) -> ResponseView {
        match self {
            Response::Single(output) => ResponseView::Single(output@),
            Response::Batch(outputs) => ResponseView::Batch(outputs_view(outputs@)),
        }
    }
}

} // verus!
