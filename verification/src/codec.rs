//! The JSON-RPC 2.0 envelope, written and read as text.
//!
//! JSON values themselves are encoded and decoded by `serde_json`; this module
//! frames them into requests and takes responses apart into records.

use crate::error::{Failure, FailureView, Outcome, OutcomeView, RpcError, RpcErrorView, outcome_view};
use crate::id::{Id, IdView};
use vstd::prelude::*;
use vstd::string::*;

verus! {

/// The JSON string literal that `serde_json` writes for a text, where it
/// writes one.
pub uninterp spec fn json_quoted(text: Seq<char>) -> Option<Seq<char>>;

/// `serde_json::to_string` on a string slice: the text as a JSON string
/// literal, quotes and escapes included. The result depends on the text
/// alone, and there always is one: the literal is written into a vector of
/// bytes, which takes whatever is written.
#[verifier::external_body]
pub(crate) fn json_quote(text: &str) -> (r: Option<String>)
    ensures
        some_text(r) == json_quoted(text@),
        r is Some,
{
    serde_json::to_string(text).ok()
}

/// The mathematical value of an optional text.
pub open spec fn text_view(text: Option<&str>) -> Option<Seq<char>> {
    match text {
        Some(t) => Some(t@),
        None => None,
    }
}

/// The character that stands for the decimal digit `d`.
pub open spec fn digit(d: nat) -> char {
    if d == 0 {
        '0'
    } else if d == 1 {
        '1'
    } else if d == 2 {
        '2'
    } else if d == 3 {
        '3'
    } else if d == 4 {
        '4'
    } else if d == 5 {
        '5'
    } else if d == 6 {
        '6'
    } else if d == 7 {
        '7'
    } else if d == 8 {
        '8'
    } else {
        '9'
    }
}

/// The decimal numeral of `n`, without leading zeros.
pub open spec fn decimal(n: nat) -> Seq<char>
    decreases n,
{
    if n < 10 {
        seq![digit(n)]
    } else {
        decimal(n / 10).push(digit(n % 10))
    }
}

/// The text of a request: the JSON string `method`, the JSON value `params`
/// where there is one, and the identifier where the request is a call.
pub open spec fn request_text(
    method: Seq<char>,
    params: Option<Seq<char>>,
    id: Option<u64>,
) -> Seq<char> {
    "{\"jsonrpc\":\"2.0\",\"method\":"@ + method + (match params {
        Some(p) => ",\"params\":"@ + p,
        None => Seq::<char>::empty(),
    }) + (match id {
        Some(n) => ",\"id\":"@ + decimal(n as nat),
        None => Seq::<char>::empty(),
    }) + "}"@
}

fn digit_str(d: u64) -> (s: &'static str)
    requires
        d < 10,
    ensures
        s@ == seq![digit(d as nat)],
{
    proof {
        reveal_strlit("0");
        reveal_strlit("1");
        reveal_strlit("2");
        reveal_strlit("3");
        reveal_strlit("4");
        reveal_strlit("5");
        reveal_strlit("6");
        reveal_strlit("7");
        reveal_strlit("8");
        reveal_strlit("9");
    }
    let s = if d == 0 {
        "0"
    } else if d == 1 {
        "1"
    } else if d == 2 {
        "2"
    } else if d == 3 {
        "3"
    } else if d == 4 {
        "4"
    } else if d == 5 {
        "5"
    } else if d == 6 {
        "6"
    } else if d == 7 {
        "7"
    } else if d == 8 {
        "8"
    } else {
        "9"
    };
    assert(s@ =~= seq![digit(d as nat)]);
    s
}

/// Appends the decimal numeral of `n` to `out`.
pub fn write_decimal(n: u64, out: &mut String)
    ensures
        final(out)@ == old(out)@ + decimal(n as nat),
    decreases n,
{
    if n >= 10 {
        write_decimal(n / 10, out);
    }
    out.append(digit_str(n % 10));
    assert(out@ =~= old(out)@ + decimal(n as nat));
}

/// Frames a request around a method name that is already a JSON string and
/// parameters that are already a JSON value.
pub fn frame_request(method_json: &str, params_json: Option<&str>, id: Option<u64>) -> (text:
    String)
    ensures
        text@ == request_text(method_json@, text_view(params_json), id),
{
    let mut text = String::from_str("{\"jsonrpc\":\"2.0\",\"method\":");
    text.append(method_json);
    if let Some(p) = params_json {
        text.append(",\"params\":");
        text.append(p);
    }
    if let Some(n) = id {
        text.append(",\"id\":");
        write_decimal(n, &mut text);
    }
    text.append("}");
    assert(text@ =~= request_text(method_json@, text_view(params_json), id));
    text
}

/// Writes a request for `method`: a call where there is an identifier, a
/// notification where there is none. The parameters are JSON text and go into
/// the request as they are. Every method name can be written as a JSON
/// string, so the request is always written.
pub fn encode_request(method: &str, params_json: Option<&str>, id: Option<u64>) -> (r: Result<
    String,
    RpcError,
>)
    ensures
        r is Ok,
        json_quoted(method@) is Some,
        match json_quoted(method@) {
            Some(quoted) => r matches Ok(text) && text@ == request_text(
                quoted,
                text_view(params_json),
                id,
            ),
            None => r matches Err(RpcError::Serialize),
        },
{
    match json_quote(method) {
        Some(quoted) => Ok(frame_request(quoted.as_str(), params_json, id)),
        None => Err(RpcError::Serialize),
    }
}

/// One response of the peer as a mathematical value.
pub struct RecordView {
    pub id: IdView,
    pub result: OutcomeView,
}

/// One response of the peer: the identifier it names and the outcome it
/// carries.
#[derive(Debug)]
pub struct Record {
    pub id: Id,
    pub result: Outcome,
}

impl View for Record {
    type V = RecordView;

    open spec fn view(&self) -> RecordView {
        RecordView { id: self.id@, result: outcome_view(self.result) }
    }
}

/// The mathematical value of a batch of records.
pub open spec fn records_view(records: Seq<Record>) -> Seq<RecordView> {
    records.map_values(|r: Record| r@)
}

/// A member of a JSON object as a mathematical value: its name, and its
/// value as JSON text.
pub type MemberView = (Seq<char>, Seq<char>);

/// The mathematical value of a list of texts.
pub open spec fn texts_view(texts: Seq<String>) -> Seq<Seq<char>> {
    texts.map_values(|t: String| t@)
}

/// The mathematical value of a list of members.
pub open spec fn members_view(members: Seq<(String, String)>) -> Seq<MemberView> {
    members.map_values(|m: (String, String)| (m.0@, m.1@))
}

/// The mathematical value of an optional list of texts.
pub open spec fn some_texts(texts: Option<Vec<String>>) -> Option<Seq<Seq<char>>> {
    match texts {
        Some(t) => Some(texts_view(t@)),
        None => None,
    }
}

/// The mathematical value of an optional list of members.
pub open spec fn some_members(members: Option<Vec<(String, String)>>) -> Option<Seq<MemberView>> {
    match members {
        Some(m) => Some(members_view(m@)),
        None => None,
    }
}

/// The mathematical value of an optional owned text.
pub open spec fn some_text(text: Option<String>) -> Option<Seq<char>> {
    match text {
        Some(t) => Some(t@),
        None => None,
    }
}

/// The elements of the JSON array that a text holds, each as JSON text;
/// nothing where `serde_json` does not read the text as an array.
pub uninterp spec fn json_elements(text: Seq<char>) -> Option<Seq<Seq<char>>>;

/// The members of the JSON object that a text holds, each value as JSON
/// text; nothing where `serde_json` does not read the text as an object.
pub uninterp spec fn json_members(text: Seq<char>) -> Option<Seq<MemberView>>;

/// The number that a text holds, where `serde_json` reads it as an unsigned
/// integer of 64 bits.
pub uninterp spec fn json_unsigned(text: Seq<char>) -> Option<u64>;

/// The number that a text holds, where `serde_json` reads it as a signed
/// integer of 64 bits.
pub uninterp spec fn json_signed(text: Seq<char>) -> Option<i64>;

/// The string that a text holds, where `serde_json` reads it as a JSON
/// string.
pub uninterp spec fn json_unquoted(text: Seq<char>) -> Option<Seq<char>>;

/// The JSON value that a text holds, written without white space; nothing
/// where `serde_json` does not read the text as one JSON value.
pub uninterp spec fn json_compacted(text: Seq<char>) -> Option<Seq<char>>;

/// `serde_json::from_str` into a value, written back with
/// `serde_json::to_string`. The result depends on the text alone.
#[verifier::external_body]
pub(crate) fn json_compact(text: &str) -> (r: Option<String>)
    ensures
        some_text(r) == json_compacted(text@),
{
    let value: serde_json::Value = serde_json::from_str(text).ok()?;
    serde_json::to_string(&value).ok()
}

/// `serde_json::from_str` into a vector of values, each written back with
/// `serde_json::to_string`. The result depends on the text alone.
#[verifier::external_body]
pub(crate) fn json_array(text: &str) -> (r: Option<Vec<String>>)
    ensures
        some_texts(r) == json_elements(text@),
{
    let items: Vec<serde_json::Value> = serde_json::from_str(text).ok()?;
    items.iter().map(|v| serde_json::to_string(v).ok()).collect()
}

/// `serde_json::from_str` into a map of values, each value written back with
/// `serde_json::to_string`. The result depends on the text alone.
#[verifier::external_body]
pub(crate) fn json_object(text: &str) -> (r: Option<Vec<(String, String)>>)
    ensures
        some_members(r) == json_members(text@),
{
    let members: serde_json::Map<String, serde_json::Value> = serde_json::from_str(text).ok()?;
    members.iter().map(|(k, v)| Some((k.clone(), serde_json::to_string(v).ok()?))).collect()
}

/// `serde_json::from_str` into a `u64`. The result depends on the text alone.
#[verifier::external_body]
pub(crate) fn json_u64(text: &str) -> (r: Option<u64>)
    ensures
        r == json_unsigned(text@),
{
    serde_json::from_str::<u64>(text).ok()
}

/// `serde_json::from_str` into an `i64`. The result depends on the text
/// alone.
#[verifier::external_body]
pub(crate) fn json_i64(text: &str) -> (r: Option<i64>)
    ensures
        r == json_signed(text@),
{
    serde_json::from_str::<i64>(text).ok()
}

/// `serde_json::from_str` into a `String`. The result depends on the text
/// alone.
#[verifier::external_body]
pub(crate) fn json_string(text: &str) -> (r: Option<String>)
    ensures
        some_text(r) == json_unquoted(text@),
{
    serde_json::from_str::<String>(text).ok()
}

/// The value of the first member with this name.
pub open spec fn member(members: Seq<MemberView>, name: Seq<char>) -> Option<Seq<char>>
    decreases members.len(),
{
    if members.len() == 0 {
        None
    } else if members[0].0 == name {
        Some(members[0].1)
    } else {
        member(members.drop_first(), name)
    }
}

/// The identifier that the JSON text of an `id` member stands for: a number,
/// a string, or null.
pub open spec fn id_of(text: Seq<char>) -> Option<IdView> {
    if json_unsigned(text) is Some {
        Some(IdView::Num(json_unsigned(text).unwrap()))
    } else if json_unquoted(text) is Some {
        Some(IdView::Str(json_unquoted(text).unwrap()))
    } else if text == "null"@ {
        Some(IdView::Null)
    } else {
        None
    }
}

/// The error object that a JSON text stands for: an object with a code, a
/// message and, where the peer sent any, data.
pub open spec fn failure_of(text: Seq<char>) -> Option<FailureView> {
    match json_members(text) {
        Some(members) => match (member(members, "code"@), member(members, "message"@)) {
            (Some(code), Some(message)) => match (json_signed(code), json_unquoted(message)) {
                (Some(code), Some(message)) => Some(
                    FailureView { code, message, data: member(members, "data"@) },
                ),
                _ => None,
            },
            _ => None,
        },
        None => None,
    }
}

/// The record that one response object stands for: an object of version
/// `"2.0"` with an identifier and either a result or an error.
pub open spec fn record_of(text: Seq<char>) -> Option<RecordView> {
    match json_members(text) {
        Some(members) => if member(members, "jsonrpc"@) != Some("\"2.0\""@) {
            None
        } else {
            match member(members, "id"@) {
                Some(id) => match id_of(id) {
                    Some(id) => match (member(members, "result"@), member(members, "error"@)) {
                        (Some(result), None) => Some(RecordView { id, result: Ok(result) }),
                        (None, Some(error)) => match failure_of(error) {
                            Some(failure) => Some(
                                RecordView { id, result: Err(RpcErrorView::JsonRpc(failure)) },
                            ),
                            None => None,
                        },
                        _ => None,
                    },
                    None => None,
                },
                None => None,
            }
        },
        None => None,
    }
}

/// The records that the objects of a batch stand for, in order; nothing
/// where one of them is no response.
pub open spec fn batch_records(items: Seq<Seq<char>>) -> Option<Seq<RecordView>>
    decreases items.len(),
{
    if items.len() == 0 {
        Some(Seq::empty())
    } else {
        match (batch_records(items.drop_last()), record_of(items.last())) {
            (Some(records), Some(record)) => Some(records.push(record)),
            _ => None,
        }
    }
}

/// The records that a payload of the peer stands for: those of its objects
/// where it is a batch, and the one of the object that it is where not.
pub open spec fn response_records(text: Seq<char>) -> Option<Seq<RecordView>> {
    match json_elements(text) {
        Some(items) => batch_records(items),
        None => match record_of(text) {
            Some(record) => Some(seq![record]),
            None => None,
        },
    }
}

/// The value of the first member with this name.
pub fn find_member(members: &Vec<(String, String)>, name: &str) -> (value: Option<String>)
    ensures
        some_text(value) == member(members_view(members@), name@),
{
    let key = String::from_str(name);
    let ghost all = members_view(members@);
    let mut i: usize = 0;
    assert(all.skip(0) =~= all);
    while i < members.len()
        invariant
            i <= members.len(),
            key@ == name@,
            all == members_view(members@),
            member(all, name@) == member(all.skip(i as int), name@),
        decreases members.len() - i,
    {
        proof {
            assert(all.skip(i as int)[0] == all[i as int]);
            assert(all[i as int] == (members@[i as int].0@, members@[i as int].1@));
            assert(all.skip(i as int).drop_first() =~= all.skip(i + 1));
        }
        if members[i].0 == key {
            return Some(members[i].1.clone());
        }
        i = i + 1;
    }
    None
}

/// Reads the JSON text of an `id` member.
pub fn parse_id(text: &str) -> (id: Option<Id>)
    ensures
        match id_of(text@) {
            Some(view) => id matches Some(i) && i@ == view,
            None => id is None,
        },
{
    if let Some(n) = json_u64(text) {
        return Some(Id::Num(n));
    }
    if let Some(s) = json_string(text) {
        return Some(Id::Str(s));
    }
    if String::from_str(text) == String::from_str("null") {
        return Some(Id::Null);
    }
    None
}

/// Reads the JSON text of an error object.
pub fn parse_failure(text: &str) -> (failure: Option<Failure>)
    ensures
        match failure_of(text@) {
            Some(view) => failure matches Some(f) && f@ == view,
            None => failure is None,
        },
{
    let members = match json_object(text) {
        Some(members) => members,
        None => {
            return None;
        },
    };
    let code = match find_member(&members, "code") {
        Some(code) => code,
        None => {
            return None;
        },
    };
    let message = match find_member(&members, "message") {
        Some(message) => message,
        None => {
            return None;
        },
    };
    let code = match json_i64(code.as_str()) {
        Some(code) => code,
        None => {
            return None;
        },
    };
    let message = match json_string(message.as_str()) {
        Some(message) => message,
        None => {
            return None;
        },
    };
    let data = find_member(&members, "data");
    Some(Failure { code, message, data })
}

/// Reads one response object.
pub fn parse_record(text: &str) -> (record: Option<Record>)
    ensures
        match record_of(text@) {
            Some(view) => record matches Some(r) && r@ == view,
            None => record is None,
        },
{
    let members = match json_object(text) {
        Some(members) => members,
        None => {
            return None;
        },
    };
    match find_member(&members, "jsonrpc") {
        Some(version) => {
            if !(version == String::from_str("\"2.0\"")) {
                return None;
            }
        },
        None => {
            return None;
        },
    }
    let id = match find_member(&members, "id") {
        Some(id) => id,
        None => {
            return None;
        },
    };
    let id = match parse_id(id.as_str()) {
        Some(id) => id,
        None => {
            return None;
        },
    };
    match (find_member(&members, "result"), find_member(&members, "error")) {
        (Some(result), None) => Some(Record { id, result: Ok(result) }),
        (None, Some(error)) => match parse_failure(error.as_str()) {
            Some(failure) => Some(Record { id, result: Err(RpcError::JsonRpc(failure)) }),
            None => None,
        },
        _ => None,
    }
}

/// Takes a payload of the peer apart into its records: one for a single
/// response, one for each response of a batch, in order. Fails where the
/// payload, or one object of the batch, is no response.
pub fn parse_response(text: &str) -> (r: Result<Vec<Record>, RpcError>)
    ensures
        match response_records(text@) {
            Some(records) => r matches Ok(v) && records_view(v@) == records,
            None => r matches Err(RpcError::Parse),
        },
{
    let mut records: Vec<Record> = Vec::new();
    match json_array(text) {
        Some(items) => {
            let ghost all = texts_view(items@);
            let mut i: usize = 0;
            assert(all.take(0) =~= Seq::<Seq<char>>::empty());
            assert(records_view(records@) =~= Seq::<RecordView>::empty());
            while i < items.len()
                invariant
                    i <= items.len(),
                    all == texts_view(items@),
                    json_elements(text@) == Some(all),
                    batch_records(all.take(i as int)) == Some(records_view(records@)),
                decreases items.len() - i,
            {
                proof {
                    assert(all.take(i + 1).drop_last() =~= all.take(i as int));
                    assert(all[i as int] == items@[i as int]@);
                    assert(all.take(i + 1).last() == all[i as int]);
                }
                let ghost before = records_view(records@);
                match parse_record(items[i].as_str()) {
                    Some(record) => {
                        records.push(record);
                        assert(records_view(records@) =~= before.push(record@));
                    },
                    None => {
                        proof {
                            lemma_batch_fails(all, i as int);
                        }
                        return Err(RpcError::Parse);
                    },
                }
                i = i + 1;
            }
            assert(all.take(items.len() as int) =~= all);
            Ok(records)
        },
        None => match parse_record(text) {
            Some(record) => {
                records.push(record);
                assert(records_view(records@) =~= seq![record@]);
                Ok(records)
            },
            None => Err(RpcError::Parse),
        },
    }
}

/// A batch with an object that is no response has no records.
pub proof fn lemma_batch_fails(items: Seq<Seq<char>>, at: int)
    requires
        0 <= at < items.len(),
        record_of(items[at]) is None,
    ensures
        batch_records(items) is None,
    decreases items.len(),
{
    if at < items.len() - 1 {
        assert(items.drop_last()[at] == items[at]);
        lemma_batch_fails(items.drop_last(), at);
    }
}

} // verus!
