//! The JSON-RPC 2.0 envelope on the serving side: requests are read from
//! text, responses are written as text.

use crate::codec::{
    MemberView, decimal, find_member, id_of, json_array, json_compact, json_compacted,
    json_elements, json_members, json_object, json_quote, json_quoted, json_string, json_unquoted,
    member, members_view, parse_id, some_text, text_view, texts_view, write_decimal,
};
use crate::error::{Failure, FailureView, RpcError};
use crate::id::{Id, IdView};
use crate::types::{
    Call, CallView, Output, OutputView, Request, RequestView, Response, ResponseView, calls_view,
    outputs_view,
};
use vstd::prelude::*;
use vstd::string::*;

verus! {

/// The identifier under which an object that is no request is answered: the
/// one it carries, where it carries one, and null where not.
pub open spec fn carried_id(members: Seq<MemberView>) -> IdView {
    match member(members, "id"@) {
        Some(text) => match id_of(text) {
            Some(id) => id,
            None => IdView::Null,
        },
        None => IdView::Null,
    }
}

/// The request object that a JSON text stands for. An object of version
/// `"2.0"` with a method name is a call where it has an identifier and a
/// notification where it has none. Anything else is no request.
pub open spec fn call_of(text: Seq<char>) -> CallView {
    match json_members(text) {
        Some(members) => {
            let named = match member(members, "method"@) {
                Some(method) => json_unquoted(method),
                None => None,
            };
            if member(members, "jsonrpc"@) == Some("\"2.0\""@) && named is Some {
                match member(members, "id"@) {
                    None => CallView::Notification {
                        method: named.unwrap(),
                        params: member(members, "params"@),
                    },
                    Some(id) => match id_of(id) {
                        Some(id) => CallView::MethodCall {
                            method: named.unwrap(),
                            params: member(members, "params"@),
                            id,
                        },
                        None => CallView::Invalid { id: IdView::Null },
                    },
                }
            } else {
                CallView::Invalid { id: carried_id(members) }
            }
        },
        None => CallView::Invalid { id: IdView::Null },
    }
}

/// The request objects of a batch, in order.
pub open spec fn batch_calls(items: Seq<Seq<char>>) -> Seq<CallView> {
    items.map_values(|item: Seq<char>| call_of(item))
}

/// What a payload of the peer stands for: a batch where it is a JSON array,
/// one request object where it is another JSON value, and nothing where it
/// is no JSON at all.
pub open spec fn request_of(text: Seq<char>) -> Option<RequestView> {
    match json_elements(text) {
        Some(items) => Some(RequestView::Batch(batch_calls(items))),
        None => if json_compacted(text) is Some {
            Some(RequestView::Single(call_of(text)))
        } else {
            None
        },
    }
}

/// The error that answers a payload that is no JSON.
pub open spec fn parse_error() -> FailureView {
    FailureView { code: (-32700) as i64, message: "Parse error"@, data: None }
}

fn carried(members: &Vec<(String, String)>) -> (id: Id)
    ensures
        id@ == carried_id(members_view(members@)),
{
    match find_member(members, "id") {
        Some(text) => match parse_id(text.as_str()) {
            Some(id) => id,
            None => Id::Null,
        },
        None => Id::Null,
    }
}

/// Reads one request object.
pub fn parse_call(text: &str) -> (call: Call)
    ensures
        call@ == call_of(text@),
{
    let members = match json_object(text) {
        Some(members) => members,
        None => {
            return Call::Invalid { id: Id::Null };
        },
    };
    let named = match find_member(&members, "method") {
        Some(method) => json_string(method.as_str()),
        None => None,
    };
    let versioned = match find_member(&members, "jsonrpc") {
        Some(version) => version == String::from_str("\"2.0\""),
        None => false,
    };
    match named {
        Some(method) => {
            if !versioned {
                return Call::Invalid { id: carried(&members) };
            }
            let params = find_member(&members, "params");
            match find_member(&members, "id") {
                None => Call::Notification { method, params },
                Some(id) => match parse_id(id.as_str()) {
                    Some(id) => Call::MethodCall { method, params, id },
                    None => Call::Invalid { id: Id::Null },
                },
            }
        },
        None => Call::Invalid { id: carried(&members) },
    }
}

/// Reads a payload of the peer: one request object, or a batch of them.
/// Fails with a parse error where the payload is no JSON.
pub fn parse_request(text: &str) -> (r: Result<Request, Failure>)
    ensures
        match request_of(text@) {
            Some(request) => r matches Ok(parsed) && parsed@ == request,
            None => r matches Err(failure) && failure@ == parse_error(),
        },
{
    match json_array(text) {
        Some(items) => {
            let mut calls: Vec<Call> = Vec::new();
            let ghost all = texts_view(items@);
            let mut i: usize = 0;
            while i < items.len()
                invariant
                    i <= items.len(),
                    all == texts_view(items@),
                    calls_view(calls@) == batch_calls(all.take(i as int)),
                decreases items.len() - i,
            {
                let call = parse_call(items[i].as_str());
                proof {
                    assert(all[i as int] == items@[i as int]@);
                    assert(batch_calls(all.take(i + 1)) =~= batch_calls(all.take(i as int)).push(
                        call_of(all[i as int]),
                    ));
                }
                let ghost before = calls_view(calls@);
                calls.push(call);
                assert(calls_view(calls@) =~= before.push(call@));
                i = i + 1;
            }
            assert(all.take(items.len() as int) =~= all);
            Ok(Request::Batch(calls))
        },
        None => match json_compact(text) {
            Some(_) => Ok(Request::Single(parse_call(text))),
            None => Err(
                Failure { code: -32700, message: String::from_str("Parse error"), data: None },
            ),
        },
    }
}

/// Whether a call has no parameters: none at all, or an empty array.
pub open spec fn no_params(params: Option<Seq<char>>) -> bool {
    match params {
        None => true,
        Some(text) => json_elements(text) == Some(Seq::<Seq<char>>::empty()),
    }
}

/// The error that answers parameters where none are taken.
pub open spec fn unexpected_params() -> FailureView {
    FailureView { code: (-32602) as i64, message: "No parameters were expected"@, data: None }
}

/// Accepts a call that has no parameters and rejects every other with an
/// invalid-params error.
pub fn expect_no_params(params: Option<&str>) -> (verdict: Result<(), Failure>)
    ensures
        match verdict {
            Ok(()) => no_params(text_view(params)),
            Err(failure) => !no_params(text_view(params)) && failure@
                == unexpected_params(),
        },
{
    let none = match params {
        None => true,
        Some(text) => match json_array(text) {
            Some(items) => {
                proof {
                    if items.len() == 0 {
                        assert(texts_view(items@) =~= Seq::<Seq<char>>::empty());
                    } else {
                        assert(texts_view(items@).len() != 0);
                    }
                }
                items.len() == 0
            },
            None => false,
        },
    };
    if none {
        Ok(())
    } else {
        Err(
            Failure {
                code: -32602,
                message: String::from_str("No parameters were expected"),
                data: None,
            },
        )
    }
}

/// The decimal numeral of an integer, with a minus sign where it is
/// negative.
pub open spec fn signed_decimal(n: int) -> Seq<char> {
    if n < 0 {
        "-"@ + decimal((-n) as nat)
    } else {
        decimal(n as nat)
    }
}

/// Appends the decimal numeral of `n` to `out`.
pub fn write_signed(n: i64, out: &mut String)
    ensures
        final(out)@ == old(out)@ + signed_decimal(n as int),
{
    if n < 0 {
        out.append("-");
        let magnitude: u64 = ((-(n + 1)) as u64) + 1;
        write_decimal(magnitude, out);
        assert(out@ =~= old(out)@ + signed_decimal(n as int));
    } else {
        write_decimal(n as u64, out);
    }
}

/// The JSON text of an identifier; nothing where a string identifier cannot
/// be written as a JSON string.
pub open spec fn id_text(id: IdView) -> Option<Seq<char>> {
    match id {
        IdView::Null => Some("null"@),
        IdView::Num(n) => Some(decimal(n as nat)),
        IdView::Str(s) => json_quoted(s),
    }
}

/// The JSON text of an error object, around a message that is already a
/// JSON string.
pub open spec fn failure_text(code: i64, message: Seq<char>, data: Option<Seq<char>>) -> Seq<char> {
    "{\"code\":"@ + signed_decimal(code as int) + ",\"message\":"@ + message + (match data {
        Some(d) => ",\"data\":"@ + d,
        None => Seq::<char>::empty(),
    }) + "}"@
}

/// The JSON text of one answer: the version, the result or the error, and
/// the identifier. Nothing where the identifier or the message of the error
/// cannot be written.
pub open spec fn output_text(output: OutputView) -> Option<Seq<char>> {
    match output {
        OutputView::Success { result, id } => match id_text(id) {
            Some(id) => Some("{\"jsonrpc\":\"2.0\",\"result\":"@ + result + ",\"id\":"@ + id + "}"@),
            None => None,
        },
        OutputView::Failure { error, id } => match (json_quoted(error.message), id_text(id)) {
            (Some(message), Some(id)) => Some(
                "{\"jsonrpc\":\"2.0\",\"error\":"@ + failure_text(error.code, message, error.data)
                    + ",\"id\":"@ + id + "}"@,
            ),
            _ => None,
        },
    }
}

/// The texts of the answers of a batch, separated by commas; nothing where
/// one of them cannot be written.
pub open spec fn joined_outputs(outputs: Seq<OutputView>) -> Option<Seq<char>>
    decreases outputs.len(),
{
    if outputs.len() == 0 {
        Some(Seq::empty())
    } else {
        match (joined_outputs(outputs.drop_last()), output_text(outputs.last())) {
            (Some(before), Some(last)) => Some(
                if outputs.len() == 1 {
                    last
                } else {
                    before + ","@ + last
                },
            ),
            _ => None,
        }
    }
}

/// The JSON text of a response: the answer, or the answers of a batch as a
/// JSON array.
pub open spec fn response_text(response: ResponseView) -> Option<Seq<char>> {
    match response {
        ResponseView::Single(output) => output_text(output),
        ResponseView::Batch(outputs) => match joined_outputs(outputs) {
            Some(joined) => Some("["@ + joined + "]"@),
            None => None,
        },
    }
}

/// Writes an identifier as JSON text.
pub fn encode_id(id: &Id) -> (text: Option<String>)
    ensures
        some_text(text) == id_text(id@),
        text is Some,
{
    match id {
        Id::Null => Some(String::from_str("null")),
        Id::Num(n) => {
            let mut text = String::new();
            write_decimal(*n, &mut text);
            assert(text@ =~= decimal(*n as nat));
            Some(text)
        },
        Id::Str(s) => json_quote(s.as_str()),
    }
}

/// Writes one answer as JSON text. Every identifier and every message can
/// be written as a JSON string, so the answer is always written.
pub fn encode_output(output: &Output) -> (r: Result<String, RpcError>)
    ensures
        r is Ok,
        match output_text(output@) {
            Some(text) => r matches Ok(t) && t@ == text,
            None => r matches Err(RpcError::Serialize),
        },
{
    match output {
        Output::Success { result, id } => {
            let id = match encode_id(id) {
                Some(id) => id,
                None => {
                    return Err(RpcError::Serialize);
                },
            };
            let mut text = String::from_str("{\"jsonrpc\":\"2.0\",\"result\":");
            text.append(result.as_str());
            text.append(",\"id\":");
            text.append(id.as_str());
            text.append("}");
            assert(text@ =~= output_text(output@).unwrap());
            Ok(text)
        },
        Output::Failure { error, id } => {
            let message = match json_quote(error.message.as_str()) {
                Some(message) => message,
                None => {
                    return Err(RpcError::Serialize);
                },
            };
            let id = match encode_id(id) {
                Some(id) => id,
                None => {
                    return Err(RpcError::Serialize);
                },
            };
            let mut text = String::from_str("{\"jsonrpc\":\"2.0\",\"error\":");
            text.append("{\"code\":");
            write_signed(error.code, &mut text);
            text.append(",\"message\":");
            text.append(message.as_str());
            if let Some(data) = &error.data {
                text.append(",\"data\":");
                text.append(data.as_str());
            }
            text.append("}");
            text.append(",\"id\":");
            text.append(id.as_str());
            text.append("}");
            assert(text@ =~= output_text(output@).unwrap());
            Ok(text)
        },
    }
}

/// Writes a response as JSON text: one answer as it is, a batch as a JSON
/// array of its answers in order. Every answer can be written, so the
/// response is always written.
pub fn encode_response(response: &Response) -> (r: Result<String, RpcError>)
    ensures
        r is Ok,
        match response_text(response@) {
            Some(text) => r matches Ok(t) && t@ == text,
            None => r matches Err(RpcError::Serialize),
        },
{
    match response {
        Response::Single(output) => encode_output(output),
        Response::Batch(outputs) => {
            let mut joined = String::new();
            let ghost all = outputs_view(outputs@);
            let mut i: usize = 0;
            assert(all.take(0) =~= Seq::<OutputView>::empty());
            while i < outputs.len()
                invariant
                    i <= outputs.len(),
                    all == outputs_view(outputs@),
                    response@ == ResponseView::Batch(all),
                    joined_outputs(all.take(i as int)) == Some(joined@),
                decreases outputs.len() - i,
            {
                proof {
                    assert(all.take(i + 1).drop_last() =~= all.take(i as int));
                    assert(all[i as int] == outputs@[i as int]@);
                    assert(all.take(i + 1).last() == all[i as int]);
                }
                match encode_output(&outputs[i]) {
                    Ok(text) => {
                        let ghost before = joined@;
                        if i > 0 {
                            joined.append(",");
                        }
                        joined.append(text.as_str());
                        proof {
                            if i == 0 {
                                assert(all.take(0) =~= Seq::<OutputView>::empty());
                                assert(before =~= Seq::<char>::empty());
                                assert(joined@ =~= text@);
                            } else {
                                assert(joined@ =~= before + ","@ + text@);
                            }
                        }
                    },
                    Err(_) => {
                        proof {
                            lemma_join_fails(all, i as int);
                        }
                        return Err(RpcError::Serialize);
                    },
                }
                i = i + 1;
            }
            assert(all.take(outputs.len() as int) =~= all);
            let mut text = String::from_str("[");
            text.append(joined.as_str());
            text.append("]");
            Ok(text)
        },
    }
}

/// A batch with an answer that cannot be written cannot be written.
pub proof fn lemma_join_fails(outputs: Seq<OutputView>, at: int)
    requires
        0 <= at < outputs.len(),
        output_text(outputs[at]) is None,
    ensures
        joined_outputs(outputs) is None,
    decreases outputs.len(),
{
    if at < outputs.len() - 1 {
        assert(outputs.drop_last()[at] == outputs[at]);
        lemma_join_fails(outputs.drop_last(), at);
    }
}

} // verus!
