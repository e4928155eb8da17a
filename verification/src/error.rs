//! Errors of the protocol and of the engine.

use vstd::prelude::*;

verus! {

/// The error codes that JSON-RPC 2.0 reserves, and the range left to servers.
#[derive(Clone, Copy, Debug, PartialEq, Eq, Structural)]
pub enum ErrorCode {
    ParseError,
    InvalidRequest,
    MethodNotFound,
    InvalidParams,
    InternalError,
    ServerError(i64),
}

impl ErrorCode {
    /// The number that stands for this code on the wire.
    pub open spec fn spec_code(self) -> int {
        match self {
            ErrorCode::ParseError => -32700,
            ErrorCode::InvalidRequest => -32600,
            ErrorCode::MethodNotFound => -32601,
            ErrorCode::InvalidParams => -32602,
            ErrorCode::InternalError => -32603,
            ErrorCode::ServerError(code) => code as int,
        }
    }

    /// The code that a number on the wire stands for.
    pub open spec fn spec_from_code(code: i64) -> ErrorCode {
        if code == -32700 {
            ErrorCode::ParseError
        } else if code == -32600 {
            ErrorCode::InvalidRequest
        } else if code == -32601 {
            ErrorCode::MethodNotFound
        } else if code == -32602 {
            ErrorCode::InvalidParams
        } else if code == -32603 {
            ErrorCode::InternalError
        } else {
            ErrorCode::ServerError(code)
        }
    }

    /// The number that stands for this code on the wire.
    pub fn code(self) -> (code: i64)
        ensures
            code == self.spec_code(),
    {
        match self {
            ErrorCode::ParseError => -32700,
            ErrorCode::InvalidRequest => -32600,
            ErrorCode::MethodNotFound => -32601,
            ErrorCode::InvalidParams => -32602,
            ErrorCode::InternalError => -32603,
            ErrorCode::ServerError(code) => code,
        }
    }

    /// The code that a number on the wire stands for.
    pub fn from_code(code: i64) -> (kind: ErrorCode)
        ensures
            kind == ErrorCode::spec_from_code(code),
    {
        if code == -32700 {
            ErrorCode::ParseError
        } else if code == -32600 {
            ErrorCode::InvalidRequest
        } else if code == -32601 {
            ErrorCode::MethodNotFound
        } else if code == -32602 {
            ErrorCode::InvalidParams
        } else if code == -32603 {
            ErrorCode::InternalError
        } else {
            ErrorCode::ServerError(code)
        }
    }
}

/// A number on the wire names one code, and that code is written as the
/// same number.
pub proof fn lemma_code_round_trip(code: i64)
    ensures
        ErrorCode::spec_from_code(code).spec_code() == code,
{
}

/// The error object of a response, as a mathematical value.
pub struct FailureView {
    pub code: i64,
    pub message: Seq<char>,
    pub data: Option<Seq<char>>,
}

/// The error object of a response: a code, a message, and data as JSON text
/// where the peer sent any.
#[derive(Debug)]
pub struct Failure {
    pub code: i64,
    pub message: String,
    pub data: Option<String>,
}

impl View for Failure {
    type V = FailureView;

    open spec fn view(&self) -> FailureView {
        FailureView {
            code: self.code,
            message: self.message@,
            data: match self.data {
                Some(d) => Some(d@),
                None => None,
            },
        }
    }
}

/// What can end a call, as a mathematical value.
pub enum RpcErrorView {
    JsonRpc(FailureView),
    Parse,
    Serialize,
    Closed,
}

/// What can end a call.
#[derive(Debug)]
pub enum RpcError {
    /// The peer answered the call with an error object.
    JsonRpc(Failure),
    /// A payload of the peer was not a response.
    Parse,
    /// The call could not be written as a request.
    Serialize,
    /// The intake was closed before the call arrived.
    Closed,
}

impl View for RpcError {
    type V = RpcErrorView;

    open spec fn view(&self) -> RpcErrorView {
        match self {
            RpcError::JsonRpc(f) => RpcErrorView::JsonRpc(f@),
            RpcError::Parse => RpcErrorView::Parse,
            RpcError::Serialize => RpcErrorView::Serialize,
            RpcError::Closed => RpcErrorView::Closed,
        }
    }
}

/// The outcome of a call as a mathematical value: the result as JSON text, or
/// the error.
pub type OutcomeView = Result<Seq<char>, RpcErrorView>;

/// The outcome of a call.
pub type Outcome = Result<String, RpcError>;

/// The mathematical value of an outcome.
pub open spec fn outcome_view(outcome: Outcome) -> OutcomeView {
    match outcome {
        Ok(text) => Ok(text@),
        Err(error) => Err(error@),
    }
}

} // verus!
