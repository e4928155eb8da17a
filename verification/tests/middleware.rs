use jsonrpc_engine::id::Id;
use jsonrpc_engine::middleware::{Chain, Middleware, Noop};
use jsonrpc_engine::types::{Call, Output, Request, Response};
use std::sync::{Arc, Mutex};

type Trace = Arc<Mutex<Vec<String>>>;

/// An interceptor that records that it was reached, renames the method on
/// the way in, marks the answer on the way out, and answers itself where
/// the method has its name.
struct Stage {
    name: &'static str,
    trace: Trace,
}

fn method_of(request: &Request) -> String {
    match request {
        Request::Single(Call::MethodCall { method, .. }) => method.clone(),
        Request::Single(Call::Notification { method, .. }) => method.clone(),
        _ => String::new(),
    }
}

fn success(result: &str) -> Option<Response> {
    Some(Response::Single(Output::Success { result: result.to_string(), id: Id::Num(1) }))
}

fn result_of(response: &Option<Response>) -> String {
    match response {
        Some(Response::Single(Output::Success { result, .. })) => result.clone(),
        None => "none".to_string(),
        _ => "other".to_string(),
    }
}

impl Middleware<u32, Option<Response>> for Stage {
    fn on_request<F>(&self, request: Request, meta: u32, next: F) -> Option<Response>
    where
        F: FnOnce(Request, u32) -> Option<Response>,
    {
        self.trace.lock().unwrap().push(format!("{}:{}", self.name, method_of(&request)));
        let method = method_of(&request);
        if method == self.name {
            return success(&format!("by {}", self.name));
        }
        let forwarded = Request::Single(Call::MethodCall {
            method: format!("{}+{}", method, self.name),
            params: None,
            id: Id::Num(1),
        });
        let inner = next(forwarded, meta + 1);
        success(&format!("{}({})", self.name, result_of(&inner)))
    }
}

fn stage(name: &'static str, trace: &Trace) -> Stage {
    Stage { name, trace: trace.clone() }
}

fn request(method: &str) -> Request {
    Request::Single(Call::MethodCall { method: method.to_string(), params: None, id: Id::Num(1) })
}

fn dispatcher(trace: &Trace) -> impl FnOnce(Request, u32) -> Option<Response> {
    let trace = trace.clone();
    move |request, meta| {
        trace.lock().unwrap().push(format!("dispatch:{}:{}", method_of(&request), meta));
        success("done")
    }
}

fn run<P: Middleware<u32, Option<Response>>>(pipeline: P, trace: &Trace, method: &str) -> (String, Vec<String>) {
    trace.lock().unwrap().clear();
    let response = pipeline.on_request(request(method), 0, dispatcher(trace));
    (result_of(&response), trace.lock().unwrap().clone())
}

#[test]
fn noop_passes_request_and_answer_through() {
    let trace: Trace = Default::default();
    let (result, seen) = run(Noop, &trace, "m");
    assert_eq!(result, "done");
    assert_eq!(seen, vec!["dispatch:m:0"]);

    let response: Option<Response> =
        Noop.on_request(request("n"), 5u32, |_: Request, _: u32| None);
    assert!(response.is_none());
}

#[test]
fn pair_runs_first_then_second_then_dispatch() {
    let trace: Trace = Default::default();
    let (result, seen) = run((stage("a", &trace), stage("b", &trace)), &trace, "m");
    assert_eq!(result, "a(b(done))");
    assert_eq!(seen, vec!["a:m", "b:m+a", "dispatch:m+a+b:2"]);
}

#[test]
fn three_interceptors_behave_the_same_however_grouped() {
    let trace: Trace = Default::default();
    for method in ["m", "a", "m+a", "m+a+b", "zzz"] {
        let left = run(
            ((stage("a", &trace), stage("b", &trace)), stage("c", &trace)),
            &trace,
            method,
        );
        let right = run(
            (stage("a", &trace), (stage("b", &trace), stage("c", &trace))),
            &trace,
            method,
        );
        let flat = run((stage("a", &trace), stage("b", &trace), stage("c", &trace)), &trace, method);
        assert_eq!(left, right, "{}", method);
        assert_eq!(left, flat, "{}", method);
    }
    let (result, seen) =
        run((stage("a", &trace), stage("b", &trace), stage("c", &trace)), &trace, "m");
    assert_eq!(result, "a(b(c(done)))");
    assert_eq!(seen, vec!["a:m", "b:m+a", "c:m+a+b", "dispatch:m+a+b+c:3"]);
}

#[test]
fn interceptor_that_answers_cuts_the_pipeline_short() {
    let trace: Trace = Default::default();
    // The first answers: nobody else is reached.
    let (result, seen) =
        run((stage("a", &trace), stage("b", &trace), stage("c", &trace)), &trace, "a");
    assert_eq!(result, "by a");
    assert_eq!(seen, vec!["a:a"]);
    // The second answers: the third and the dispatcher are not reached, and
    // the first still sees the answer on the way out.
    let (result, seen) =
        run((stage("a", &trace), stage("m+a", &trace), stage("c", &trace)), &trace, "m");
    assert_eq!(result, "a(by m+a)");
    assert_eq!(seen, vec!["a:m", "m+a:m+a"]);
    // The same however the three are grouped.
    let grouped = run(
        ((stage("a", &trace), stage("m+a", &trace)), stage("c", &trace)),
        &trace,
        "m",
    );
    assert_eq!(grouped, (result, seen));
}

#[test]
fn four_interceptors_run_in_order() {
    let trace: Trace = Default::default();
    let (result, seen) = run(
        (stage("a", &trace), stage("b", &trace), stage("c", &trace), stage("d", &trace)),
        &trace,
        "m",
    );
    assert_eq!(result, "a(b(c(d(done))))");
    assert_eq!(seen, vec!["a:m", "b:m+a", "c:m+a+b", "d:m+a+b+c", "dispatch:m+a+b+c+d:4"]);
    let (result, seen) = run(
        (stage("a", &trace), Noop, stage("c", &trace), Noop),
        &trace,
        "m+a",
    );
    assert_eq!(result, "a(c(done))");
    assert_eq!(seen, vec!["a:m+a", "c:m+a+a", "dispatch:m+a+a+c:2"]);
}

#[test]
fn noop_is_neutral_in_a_pair() {
    let trace: Trace = Default::default();
    let alone = run(stage("a", &trace), &trace, "m");
    assert_eq!(run((Noop, stage("a", &trace)), &trace, "m"), alone);
    assert_eq!(run((stage("a", &trace), Noop), &trace, "m"), alone);
    assert_eq!(alone.0, "a(done)");
}

fn chain(names: &[&'static str], trace: &Trace) -> Chain<Stage> {
    let mut chain = Chain::new();
    for name in names {
        chain.push(stage(name, trace));
    }
    chain
}

#[test]
fn chain_runs_its_interceptors_in_order() {
    let trace: Trace = Default::default();
    let pipeline = chain(&["a", "b", "c", "d", "e"], &trace);
    assert_eq!(pipeline.len(), 5);
    let (result, seen) = run(pipeline, &trace, "m");
    assert_eq!(result, "a(b(c(d(e(done)))))");
    assert_eq!(
        seen,
        vec!["a:m", "b:m+a", "c:m+a+b", "d:m+a+b+c", "e:m+a+b+c+d", "dispatch:m+a+b+c+d+e:5"]
    );
}

#[test]
fn chain_behaves_as_the_tuple_of_its_interceptors() {
    let trace: Trace = Default::default();
    for method in ["m", "a", "m+a", "m+a+b", "other"] {
        let listed = run(chain(&["a", "b", "c"], &trace), &trace, method);
        let tupled =
            run((stage("a", &trace), stage("b", &trace), stage("c", &trace)), &trace, method);
        assert_eq!(listed, tupled, "{}", method);
    }
    let listed = run(chain(&["a", "b"], &trace), &trace, "m");
    let paired = run((stage("a", &trace), stage("b", &trace)), &trace, "m");
    assert_eq!(listed, paired);
}

#[test]
fn empty_chain_does_nothing() {
    let trace: Trace = Default::default();
    let empty: Chain<Stage> = Chain::new();
    assert_eq!(empty.len(), 0);
    assert_eq!(run(empty, &trace, "m"), run(Noop, &trace, "m"));
}

#[test]
fn chain_stops_at_the_interceptor_that_answers() {
    let trace: Trace = Default::default();
    let (result, seen) = run(chain(&["a", "m+a", "c"], &trace), &trace, "m");
    assert_eq!(result, "a(by m+a)");
    assert_eq!(seen, vec!["a:m", "m+a:m+a"]);
    // From a later position on, the interceptors before it are not consulted.
    let pipeline = chain(&["a", "b", "c"], &trace);
    trace.lock().unwrap().clear();
    let response = pipeline.run_from(2, request("m"), 0u32, dispatcher(&trace));
    assert_eq!(result_of(&response), "c(done)");
    assert_eq!(trace.lock().unwrap().clone(), vec!["c:m", "dispatch:m+c:1"]);
    trace.lock().unwrap().clear();
    let response = pipeline.run_from(3, request("m"), 0u32, dispatcher(&trace));
    assert_eq!(result_of(&response), "done");
}

/// What stands for a response that is still under way: the steps that are
/// left before it is there.
#[derive(Debug, PartialEq)]
struct Later {
    steps: u32,
    answer: String,
}

/// An interceptor over answers that are under way: it lets requests for
/// `now` through to nobody, and delays every other answer by one step.
struct Delay;

impl Middleware<u32, Later> for Delay {
    fn on_request<F>(&self, request: Request, meta: u32, next: F) -> Later
    where
        F: FnOnce(Request, u32) -> Later,
    {
        if method_of(&request) == "now" {
            return Later { steps: 0, answer: "at once".to_string() };
        }
        let inner = next(request, meta);
        Later { steps: inner.steps + 1, answer: inner.answer }
    }
}

#[test]
fn pipeline_composes_over_answers_that_are_under_way() {
    let dispatch = |request: Request, meta: u32| Later {
        steps: meta,
        answer: format!("dispatched {}", method_of(&request)),
    };
    let answer = (Delay, Noop, Delay).on_request(request("m"), 3, dispatch);
    assert_eq!(answer, Later { steps: 5, answer: "dispatched m".to_string() });
    let answer = (Delay, (Noop, Delay)).on_request(request("m"), 3, dispatch);
    assert_eq!(answer, Later { steps: 5, answer: "dispatched m".to_string() });
    let answer = ((Delay, Noop), Delay).on_request(request("now"), 3, dispatch);
    assert_eq!(answer, Later { steps: 0, answer: "at once".to_string() });
    let mut listed = Chain::new();
    listed.push(Delay);
    listed.push(Delay);
    listed.push(Delay);
    let answer = listed.on_request(request("m"), 0, dispatch);
    assert_eq!(answer, Later { steps: 3, answer: "dispatched m".to_string() });
}
