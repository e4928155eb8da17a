use jsonrpc_engine::dispatch::{encode_answer, handle_request};
use jsonrpc_engine::envelope::expect_no_params;
use jsonrpc_engine::error::Failure;
use jsonrpc_engine::handler::{
    Action, BodyPoll, CorsHeader, DispatchPoll, Event, Method, RequestHead, RpcHandler,
};
use jsonrpc_engine::id::Id;
use jsonrpc_engine::middleware::{Middleware, Noop};
use jsonrpc_engine::pubsub::{Refusal, Registry, SubscriptionId};
use jsonrpc_engine::response::ContentType;
use jsonrpc_engine::types::{Call, Output, Request, Response};

fn failure_output(failure: Failure, id: Id) -> Option<Response> {
    Some(Response::Single(Output::Failure { error: failure, id }))
}

/// A dispatcher with one method, `hello`, and nothing else.
fn hello(request: Request, _meta: u8) -> Option<Response> {
    match request {
        Request::Single(Call::MethodCall { method, id, .. }) => {
            if method == "hello" {
                Some(Response::Single(Output::Success {
                    result: "\"hello accepted\"".to_string(),
                    id,
                }))
            } else {
                failure_output(
                    Failure { code: -32601, message: "Method not found".to_string(), data: None },
                    id,
                )
            }
        }
        Request::Single(Call::Notification { .. }) => None,
        Request::Single(Call::Invalid { id }) => failure_output(
            Failure { code: -32600, message: "Invalid Request".to_string(), data: None },
            id,
        ),
        Request::Batch(_) => None,
    }
}

fn message(n: i32) -> String {
    format!(
        r#"{{ "jsonrpc":"2.0", "method":"hello", "params": {{"message": "Hello from {n}!"}}, "id": {n} }}"#,
        n = n
    )
}

fn expected_response(n: i32) -> String {
    format!(r#"{{"jsonrpc":"2.0","result":"hello accepted","id":{n}}}"#, n = n)
}

fn connection() -> RpcHandler<u8> {
    RpcHandler::new(
        RequestHead {
            method: Method::Post,
            content_type: Some(ContentType::json()),
            host_allowed: true,
        },
        false,
    )
}

fn read_and_dispatch(handler: &mut RpcHandler<u8>, body: &str) -> (String, u8) {
    assert!(matches!(handler.poll(Event::Activate), Action::ReadOrigin));
    assert!(matches!(handler.poll(Event::Origin(CorsHeader::NotRequired)), Action::ReadMetadata));
    assert!(matches!(handler.poll(Event::Metadata(0)), Action::ReadBody));
    assert!(matches!(
        handler.poll(Event::Body(BodyPoll::Chunk(body.as_bytes().to_vec()))),
        Action::ReadBody
    ));
    match handler.poll(Event::Body(BodyPoll::End)) {
        Action::Dispatch { content, metadata } => (content, metadata),
        _ => panic!("expected a dispatch"),
    }
}

fn written(handler: &mut RpcHandler<u8>, result: Option<String>) -> String {
    match handler.poll(Event::Dispatched(DispatchPoll::Ready(result))) {
        Action::Respond(reply) => reply.response.content,
        _ => panic!("expected a response"),
    }
}

#[test]
fn processes_several_requests_at_once() {
    // Two connections are in flight at the same time; each gets the answer
    // to its own request, whichever finishes first.
    let mut first = connection();
    let mut second = connection();
    let (content1, meta1) = read_and_dispatch(&mut first, &message(1));
    let (content2, meta2) = read_and_dispatch(&mut second, &message(2));
    assert!(first.is_waiting() && second.is_waiting());

    let answer2 = handle_request(&Noop, &content2, meta2, hello);
    let answer1 = handle_request(&Noop, &content1, meta1, hello);
    assert_eq!(answer1.as_deref(), Some(expected_response(1).as_str()));
    assert_eq!(answer2.as_deref(), Some(expected_response(2).as_str()));

    assert!(matches!(
        first.poll(Event::Dispatched(DispatchPoll::NotReady)),
        Action::NotReady
    ));
    assert_eq!(written(&mut second, answer2), format!("{}\n", expected_response(2)));
    assert!(matches!(first.poll(Event::Activate), Action::PollDispatch));
    assert_eq!(written(&mut first, answer1), format!("{}\n", expected_response(1)));
    assert!(first.is_done() && second.is_done());
}

#[test]
fn test_invalid_trailing_pubsub_params() {
    let mut registry: Registry<&str> = Registry::new();
    let req = r#"{"jsonrpc":"2.0","id":1,"method":"hello_subscribe","params":[]}"#;
    // The subscription takes one number, and more after it at will: empty
    // parameters are rejected, and no identifier is handed out.
    let before = registry.len();
    let res = handle_request(&Noop, req, 0u8, |request: Request, _meta: u8| match request {
        Request::Single(Call::MethodCall { method, params, id }) => {
            assert_eq!(method, "hello_subscribe");
            let verdict = match expect_no_params(params.as_deref()) {
                Ok(()) => Err(Failure {
                    code: -32602,
                    message: "Invalid params".to_string(),
                    data: None,
                }),
                Err(_) => Ok(()),
            };
            match registry.subscribe(1, "sink", verdict) {
                Ok(SubscriptionId::Number(n)) => Some(Response::Single(Output::Success {
                    result: format!("{}", n),
                    id,
                })),
                Ok(SubscriptionId::String(_)) => None,
                Err((Refusal::Rejected(failure), _)) => failure_output(failure, id),
                Err((Refusal::Exhausted, _)) => None,
            }
        }
        _ => None,
    });
    assert_eq!(
        res.as_deref(),
        Some(r#"{"jsonrpc":"2.0","error":{"code":-32602,"message":"Invalid params"},"id":1}"#)
    );
    assert_eq!(registry.len(), before);
}

#[test]
fn subscribe_hello_with_params_is_rejected_and_registers_nothing() {
    let mut registry: Registry<&str> = Registry::new();
    let kept = registry.subscribe(7, "kept", Ok(())).unwrap();
    let before = registry.len();
    let req = r#"{"jsonrpc":"2.0","id":1,"method":"subscribe_hello","params":[10]}"#;
    let res = handle_request(&Noop, req, 0u8, |request: Request, _meta: u8| match request {
        Request::Single(Call::MethodCall { params, id, .. }) => {
            match registry.subscribe(1, "sink", expect_no_params(params.as_deref())) {
                Ok(SubscriptionId::Number(n)) => Some(Response::Single(Output::Success {
                    result: format!("{}", n),
                    id,
                })),
                Err((Refusal::Rejected(failure), sink)) => {
                    assert_eq!(sink, "sink");
                    failure_output(failure, id)
                }
                _ => None,
            }
        }
        _ => None,
    });
    assert_eq!(
        res.as_deref(),
        Some(
            r#"{"jsonrpc":"2.0","error":{"code":-32602,"message":"No parameters were expected"},"id":1}"#
        )
    );
    assert_eq!(registry.len(), before);
    assert!(registry.is_subscribed(&kept));

    // Without parameters the subscription is made.
    let req = r#"{"jsonrpc":"2.0","id":2,"method":"subscribe_hello"}"#;
    let res = handle_request(&Noop, req, 0u8, |request: Request, _meta: u8| match request {
        Request::Single(Call::MethodCall { params, id, .. }) => {
            match registry.subscribe(1, "sink", expect_no_params(params.as_deref())) {
                Ok(SubscriptionId::Number(n)) => Some(Response::Single(Output::Success {
                    result: format!("{}", n),
                    id,
                })),
                _ => None,
            }
        }
        _ => None,
    });
    assert_eq!(res.as_deref(), Some(r#"{"jsonrpc":"2.0","result":1,"id":2}"#));
    assert_eq!(registry.len(), before + 1);
}

#[test]
fn malformed_json_yields_a_parse_error_without_dispatch() {
    let res = handle_request(&Noop, "{\"jsonrpc\":", 0u8, |_: Request, _: u8| -> Option<Response> {
        panic!("the dispatcher must not see a payload that is no JSON")
    });
    assert_eq!(
        res.as_deref(),
        Some(r#"{"jsonrpc":"2.0","error":{"code":-32700,"message":"Parse error"},"id":null}"#)
    );
}

#[test]
fn unregistered_method_yields_method_not_found() {
    let res = handle_request(&Noop, r#"{"jsonrpc":"2.0","method":"nope","id":3}"#, 0u8, hello);
    assert_eq!(
        res.as_deref(),
        Some(r#"{"jsonrpc":"2.0","error":{"code":-32601,"message":"Method not found"},"id":3}"#)
    );
}

#[test]
fn notification_has_no_response() {
    let res = handle_request(&Noop, r#"{"jsonrpc":"2.0","method":"hello"}"#, 0u8, hello);
    assert!(res.is_none());
    assert!(encode_answer(None).is_none());
}

/// Refuses every request whose metadata is zero.
struct Gate;

impl Middleware<u8, Option<Response>> for Gate {
    fn on_request<F>(&self, request: Request, meta: u8, next: F) -> Option<Response>
    where
        F: FnOnce(Request, u8) -> Option<Response>,
    {
        if meta == 0 {
            let id = match request {
                Request::Single(Call::MethodCall { id, .. }) => id,
                _ => Id::Null,
            };
            return failure_output(
                Failure { code: -32000, message: "Forbidden".to_string(), data: None },
                id,
            );
        }
        next(request, meta)
    }
}

#[test]
fn interceptor_answers_instead_of_the_dispatcher() {
    let req = r#"{"jsonrpc":"2.0","method":"hello","id":8}"#;
    let res = handle_request(&(Noop, Gate, Noop), req, 0u8, |_: Request, _: u8| -> Option<
        Response,
    > {
        panic!("the dispatcher must not be reached")
    });
    assert_eq!(
        res.as_deref(),
        Some(r#"{"jsonrpc":"2.0","error":{"code":-32000,"message":"Forbidden"},"id":8}"#)
    );
    let res = handle_request(&(Noop, Gate, Noop), req, 1u8, hello);
    assert_eq!(res.as_deref(), Some(r#"{"jsonrpc":"2.0","result":"hello accepted","id":8}"#));
}

#[test]
fn answer_is_written_as_it_stands() {
    let answer = Some(Response::Batch(vec![
        Output::Success { result: "1".to_string(), id: Id::Num(1) },
        Output::Success { result: "2".to_string(), id: Id::Str("two".to_string()) },
    ]));
    assert_eq!(
        encode_answer(answer).as_deref(),
        Some(r#"[{"jsonrpc":"2.0","result":1,"id":1},{"jsonrpc":"2.0","result":2,"id":"two"}]"#)
    );
}
