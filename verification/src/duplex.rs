//! The client-side correlator: many outstanding calls over one duplex
//! channel, each response matched to its call by identifier.
//!
//! The correlator owns the table of pending calls and the queue of requests
//! that are not yet written. It never touches the transport: a driver performs
//! each action that [`Duplex::poll`] hands out and answers with the event that
//! the action produced.

use crate::codec::{
    Record, RecordView, encode_request, json_quoted, parse_response, records_view, request_text,
    response_records, some_text, text_view,
};
use crate::error::{Outcome, OutcomeView, RpcError, RpcErrorView, outcome_view};
use crate::id::{Id, IdView};
use std::collections::{HashMap, VecDeque};
use vstd::prelude::*;
use vstd::std_specs::hash::spec_keys_iter;
use vstd::std_specs::iter::IteratorSpec;

verus! {

broadcast use {
    vstd::std_specs::hash::group_hash_axioms,
    vstd::std_specs::vecdeque::group_vec_dequeue_axioms,
};

/// Why a correlator gave up.
#[derive(Clone, Copy, Debug, PartialEq, Eq, Structural)]
pub enum Fault {
    /// The transport failed while writing, flushing or reading.
    Transport,
    /// A payload of the peer was not a response.
    Parse,
    /// A response named an identifier that no pending call has.
    UnknownId,
    /// The driver answered an action that was not asked for.
    OutOfTurn,
}

/// Where a correlator stands within one activation.
#[derive(Clone, Copy, Debug, PartialEq, Eq, Structural)]
pub enum Phase {
    /// Between activations.
    Idle,
    /// Taking new calls from the intake.
    Intake,
    /// Handing queued requests to the transport.
    Sending,
    /// Waiting for the transport to flush.
    Flushing,
    /// Taking responses from the transport.
    Receiving,
    /// Finished successfully.
    Done,
    /// Finished with a fault.
    Failed(Fault),
}

/// What a caller hands to the correlator. `S` is the sink through which the
/// outcome of a call goes back to the caller; the correlator only keeps it.
pub enum RpcMessage<S> {
    /// A call: the peer is expected to answer it.
    Call { method: String, params: Option<String>, sender: S },
    /// A notification: it has no identifier and no answer.
    Notify { method: String, params: Option<String> },
}

impl<S> RpcMessage<S> {
    /// The name of the method.
    pub open spec fn method(self) -> Seq<char> {
        match self {
            RpcMessage::Call { method, .. } => method@,
            RpcMessage::Notify { method, .. } => method@,
        }
    }

    /// The parameters as JSON text, where there are any.
    pub open spec fn params(self) -> Option<Seq<char>> {
        match self {
            RpcMessage::Call { params, .. } => some_text(params),
            RpcMessage::Notify { params, .. } => some_text(params),
        }
    }

    /// The sink of a call; a notification has none.
    pub open spec fn sender(self) -> Option<S> {
        match self {
            RpcMessage::Call { sender, .. } => Some(sender),
            RpcMessage::Notify { .. } => None,
        }
    }
}

/// A message that the correlator did not take, with the sink of the call so
/// that the caller can be told.
pub struct Rejected<S> {
    pub error: RpcError,
    pub sender: Option<S>,
}

/// A sink together with the outcome that is owed to it, as a mathematical
/// value.
pub struct CompletionView<S> {
    pub sender: S,
    pub result: OutcomeView,
}

/// A sink together with the outcome that is owed to it. The driver sends the
/// outcome through the sink; a sink whose caller has gone is no fault.
pub struct Completion<S> {
    pub sender: S,
    pub result: Outcome,
}

impl<S> View for Completion<S> {
    type V = CompletionView<S>;

    open spec fn view(&self) -> CompletionView<S> {
        CompletionView { sender: self.sender, result: outcome_view(self.result) }
    }
}

/// The mathematical value of a list of completions.
pub open spec fn completions_view<S>(completions: Seq<Completion<S>>) -> Seq<CompletionView<S>> {
    completions.map_values(|c: Completion<S>| c@)
}

/// The state of a correlator as a mathematical value.
pub struct DuplexView<S> {
    /// The pending calls: identifier to sink.
    pub pending: Map<u64, S>,
    /// The requests that are not yet written, oldest first.
    pub outgoing: Seq<Seq<char>>,
    /// Whether new calls may still arrive.
    pub intake_open: bool,
    /// Where the search for the next identifier starts.
    pub next_id: u64,
    /// Where the correlator stands.
    pub phase: Phase,
    /// Whether the last flush completed.
    pub flushed: bool,
}

impl<S> DuplexView<S> {
    /// A correlator that has seen nothing yet. The first call gets the
    /// identifier 1.
    pub open spec fn initial() -> DuplexView<S> {
        DuplexView {
            pending: Map::empty(),
            outgoing: Seq::empty(),
            intake_open: true,
            next_id: 1,
            phase: Phase::Idle,
            flushed: false,
        }
    }

    /// The condition under which a correlator may finish on its own: no call
    /// can arrive, nothing waits to be written, nothing waits for an answer,
    /// and the transport has flushed.
    pub open spec fn may_finish(self) -> bool {
        &&& !self.intake_open
        &&& self.outgoing.len() == 0
        &&& self.pending.dom() =~= Set::<u64>::empty()
        &&& self.flushed
    }
}

/// The identifier `k` steps after `start`, wrapping round.
pub open spec fn probe(start: u64, k: nat) -> u64 {
    ((start + k) % 0x1_0000_0000_0000_0000) as u64
}

/// `id` is the first identifier, counting from `start` and wrapping round,
/// that no pending call has.
pub open spec fn is_first_free<S>(pending: Map<u64, S>, start: u64, id: u64) -> bool {
    exists|k: nat|
        {
            &&& #[trigger] probe(start, k) == id
            &&& !pending.contains_key(id)
            &&& forall|j: nat| j < k ==> pending.contains_key(#[trigger] probe(start, j))
        }
}

spec fn probes(start: u64, k: nat) -> Set<u64>
    decreases k,
{
    if k == 0 {
        Set::empty()
    } else {
        probes(start, (k - 1) as nat).insert(probe(start, (k - 1) as nat))
    }
}

proof fn lemma_probes(start: u64, k: nat)
    requires
        k <= 0x1_0000_0000_0000_0000,
    ensures
        probes(start, k).finite(),
        probes(start, k).len() == k,
        forall|x: u64|
            probes(start, k).contains(x) ==> exists|j: nat| j < k && #[trigger] probe(start, j) == x,
        forall|j: nat| j < k ==> probes(start, k).contains(#[trigger] probe(start, j)),
    decreases k,
{
    if k > 0 {
        let prev = (k - 1) as nat;
        lemma_probes(start, prev);
        let last = probe(start, prev);
        assert(!probes(start, prev).contains(last)) by {
            if probes(start, prev).contains(last) {
                let j = choose|j: nat| j < prev && #[trigger] probe(start, j) == last;
                assert(probe(start, j) != probe(start, prev));
            }
        }
        assert forall|x: u64| probes(start, k).contains(x) implies exists|j: nat|
            j < k && #[trigger] probe(start, j) == x by {
            if x == last {
                assert(probe(start, prev) == x);
            } else {
                let j = choose|j: nat| j < prev && #[trigger] probe(start, j) == x;
                assert(j < k && probe(start, j) == x);
            }
        }
    }
}

proof fn lemma_probes_bounded(dom: Set<u64>, start: u64, k: nat)
    requires
        dom.finite(),
        k <= 0x1_0000_0000_0000_0000,
        forall|j: nat| j < k ==> dom.contains(#[trigger] probe(start, j)),
    ensures
        k <= dom.len(),
{
    lemma_probes(start, k);
    assert forall|x: u64| probes(start, k).contains(x) implies dom.contains(x) by {
        let j = choose|j: nat| j < k && #[trigger] probe(start, j) == x;
    }
    vstd::set_lib::lemma_len_subset(probes(start, k), dom);
}

/// The first identifier, counting from `start` and wrapping round, that no
/// pending call has.
pub open spec fn first_free<S>(pending: Map<u64, S>, start: u64) -> u64 {
    choose|id: u64| is_first_free(pending, start, id)
}

/// There is at most one first free identifier.
pub proof fn lemma_first_free_unique<S>(pending: Map<u64, S>, start: u64, id: u64)
    requires
        is_first_free(pending, start, id),
    ensures
        first_free(pending, start) == id,
{
    let other = first_free(pending, start);
    let k = choose|k: nat|
        {
            &&& #[trigger] probe(start, k) == id
            &&& !pending.contains_key(id)
            &&& forall|j: nat| j < k ==> pending.contains_key(#[trigger] probe(start, j))
        };
    let m = choose|m: nat|
        {
            &&& #[trigger] probe(start, m) == other
            &&& !pending.contains_key(other)
            &&& forall|j: nat| j < m ==> pending.contains_key(#[trigger] probe(start, j))
        };
    if k < m {
        assert(pending.contains_key(probe(start, k)));
    } else if m < k {
        assert(pending.contains_key(probe(start, m)));
    }
}

/// Why a correlator in state `pre` does not take `message`, if it does not.
pub open spec fn rejection<S>(pre: DuplexView<S>, message: RpcMessage<S>) -> Option<RpcErrorView> {
    if !pre.intake_open {
        Some(RpcErrorView::Closed)
    } else if json_quoted(message.method()) is None {
        Some(RpcErrorView::Serialize)
    } else {
        None
    }
}

/// The state of a correlator after `message` was handed to it in state `pre`.
pub open spec fn submitted<S>(pre: DuplexView<S>, message: RpcMessage<S>) -> DuplexView<S> {
    if rejection(pre, message) is Some {
        pre
    } else {
        let quoted = json_quoted(message.method()).unwrap();
        match message.sender() {
            Some(sender) => {
                let id = first_free(pre.pending, pre.next_id);
                DuplexView {
                    pending: pre.pending.insert(id, sender),
                    outgoing: pre.outgoing.push(request_text(quoted, message.params(), Some(id))),
                    next_id: probe(id, 1),
                    ..pre
                }
            },
            None => DuplexView {
                outgoing: pre.outgoing.push(request_text(quoted, message.params(), None)),
                ..pre
            },
        }
    }
}

/// What [`Duplex::submit`] returns for `message` in state `pre`.
pub open spec fn submit_result<S>(
    pre: DuplexView<S>,
    message: RpcMessage<S>,
    r: Result<Option<u64>, Rejected<S>>,
) -> bool {
    match rejection(pre, message) {
        Some(error) => {
            &&& r matches Err(rejected)
            &&& rejected.error@ == error
            &&& rejected.sender == message.sender()
        },
        None => match message.sender() {
            Some(_) => r matches Ok(Some(id)) && id == first_free(pre.pending, pre.next_id),
            None => r matches Ok(None),
        },
    }
}

/// What the peer's records do to a table of pending calls.
pub struct Resolution<S> {
    /// The calls that still wait.
    pub pending: Map<u64, S>,
    /// The sinks that are owed an outcome, in the order of the records.
    pub completions: Seq<CompletionView<S>>,
    /// Whether a record named an identifier that no pending call had.
    pub unknown: bool,
}

/// Takes the records one by one, in order: each removes the pending call that
/// it names and pairs its sink with the record's outcome. The first record
/// that names no pending call stops the run; the records after it are not
/// looked at.
pub open spec fn resolve_spec<S>(pending: Map<u64, S>, records: Seq<RecordView>) -> Resolution<S>
    decreases records.len(),
{
    if records.len() == 0 {
        Resolution { pending, completions: Seq::empty(), unknown: false }
    } else {
        let before = resolve_spec(pending, records.drop_last());
        let record = records.last();
        if before.unknown {
            before
        } else {
            match record.id {
                IdView::Num(n) => if before.pending.contains_key(n) {
                    Resolution {
                        pending: before.pending.remove(n),
                        completions: before.completions.push(
                            CompletionView { sender: before.pending[n], result: record.result },
                        ),
                        unknown: false,
                    }
                } else {
                    Resolution { unknown: true, ..before }
                },
                _ => Resolution { unknown: true, ..before },
            }
        }
    }
}

/// What came of polling the intake.
pub enum Intake<S> {
    /// A caller handed in a message.
    Message(RpcMessage<S>),
    /// Every caller has gone: no message will arrive any more.
    Closed,
    /// No message is ready.
    NotReady,
    /// The intake reported an error; it is polled again.
    Failed,
}

/// What came of handing a request to the transport.
pub enum SendOutcome {
    /// The transport took the request.
    Accepted,
    /// The transport is busy and gave the request back.
    Rejected(String),
    /// The transport failed.
    Failed,
}

/// What came of asking the transport to flush.
pub enum FlushOutcome {
    /// Everything that was handed over is written.
    Complete,
    /// Some of it is still on its way.
    Pending,
    /// The transport failed.
    Failed,
}

/// What came of polling the transport for input.
pub enum Inbound {
    /// The peer sent this payload.
    Payload(String),
    /// The peer has closed the channel.
    End,
    /// Nothing is ready.
    NotReady,
    /// The transport failed.
    Failed,
}

/// What the driver tells the correlator.
pub enum Event<S> {
    /// The scheduler has activated the correlator.
    Activate,
    /// The answer to [`Next::PollIntake`].
    Intake(Intake<S>),
    /// The answer to [`Next::StartSend`].
    Sent(SendOutcome),
    /// The answer to [`Next::PollComplete`].
    Flushed(FlushOutcome),
    /// The answer to [`Next::PollStream`].
    Inbound(Inbound),
}

/// What the correlator asks of the driver, as a mathematical value.
pub enum NextView {
    PollIntake,
    StartSend(Seq<char>),
    PollComplete,
    PollStream,
    Ready,
    NotReady,
    Fail(Fault),
}

/// What the correlator asks of the driver.
#[derive(Debug)]
pub enum Next {
    /// Poll the intake and answer with [`Event::Intake`].
    PollIntake,
    /// Hand this request to the transport and answer with [`Event::Sent`].
    StartSend(String),
    /// Ask the transport to flush and answer with [`Event::Flushed`].
    PollComplete,
    /// Poll the transport for input and answer with [`Event::Inbound`].
    PollStream,
    /// The correlator has finished successfully.
    Ready,
    /// Nothing more can be done now: activate again when the intake or the
    /// transport makes progress.
    NotReady,
    /// The correlator has finished with this fault.
    Fail(Fault),
}

impl View for Next {
    type V = NextView;

    open spec fn view(&self) -> NextView {
        match self {
            Next::PollIntake => NextView::PollIntake,
            Next::StartSend(text) => NextView::StartSend(text@),
            Next::PollComplete => NextView::PollComplete,
            Next::PollStream => NextView::PollStream,
            Next::Ready => NextView::Ready,
            Next::NotReady => NextView::NotReady,
            Next::Fail(fault) => NextView::Fail(*fault),
        }
    }
}

/// One step of the correlator: the outcomes to deliver, then what to do next.
pub struct Step<S> {
    pub completions: Vec<Completion<S>>,
    pub next: Next,
}

/// One step of the correlator as a mathematical value.
pub struct Transition<S> {
    pub state: DuplexView<S>,
    pub completions: Seq<CompletionView<S>>,
    pub next: NextView,
}

/// A step that delivers nothing.
pub open spec fn quiet<S>(state: DuplexView<S>, next: NextView) -> Transition<S> {
    Transition { state, completions: Seq::empty(), next }
}

/// Takes the oldest request from the queue and hands it out; with an empty
/// queue, goes on to flushing.
pub open spec fn begin_sending<S>(pre: DuplexView<S>) -> Transition<S> {
    if pre.outgoing.len() > 0 {
        quiet(
            DuplexView { outgoing: pre.outgoing.drop_first(), phase: Phase::Sending, ..pre },
            NextView::StartSend(pre.outgoing[0]),
        )
    } else {
        quiet(DuplexView { phase: Phase::Flushing, ..pre }, NextView::PollComplete)
    }
}

/// Gives up with `fault`. The table and the queue stay as they are.
pub open spec fn fail<S>(pre: DuplexView<S>, fault: Fault) -> Transition<S> {
    quiet(
        DuplexView { phase: Phase::Failed(fault), intake_open: false, ..pre },
        NextView::Fail(fault),
    )
}

/// The step after the intake was polled.
pub open spec fn on_intake<S>(pre: DuplexView<S>, intake: Intake<S>) -> Transition<S> {
    match intake {
        Intake::Message(message) => Transition {
            state: submitted(pre, message),
            completions: match (rejection(pre, message), message.sender()) {
                (Some(error), Some(sender)) => seq![CompletionView { sender, result: Err(error) }],
                _ => Seq::empty(),
            },
            next: NextView::PollIntake,
        },
        Intake::Failed => quiet(pre, NextView::PollIntake),
        Intake::Closed => begin_sending(DuplexView { intake_open: false, ..pre }),
        Intake::NotReady => begin_sending(pre),
    }
}

/// The step after a request was handed to the transport.
pub open spec fn on_sent<S>(pre: DuplexView<S>, outcome: SendOutcome) -> Transition<S> {
    match outcome {
        SendOutcome::Accepted => begin_sending(pre),
        SendOutcome::Rejected(text) => quiet(
            DuplexView { outgoing: seq![text@] + pre.outgoing, phase: Phase::Flushing, ..pre },
            NextView::PollComplete,
        ),
        SendOutcome::Failed => fail(pre, Fault::Transport),
    }
}

/// The step after the transport was asked to flush.
pub open spec fn on_flushed<S>(pre: DuplexView<S>, outcome: FlushOutcome) -> Transition<S> {
    match outcome {
        FlushOutcome::Complete => quiet(
            DuplexView { flushed: true, phase: Phase::Receiving, ..pre },
            NextView::PollStream,
        ),
        FlushOutcome::Pending => quiet(
            DuplexView { flushed: false, phase: Phase::Receiving, ..pre },
            NextView::PollStream,
        ),
        FlushOutcome::Failed => fail(pre, Fault::Transport),
    }
}

/// The step after the transport was polled for input.
pub open spec fn on_inbound<S>(pre: DuplexView<S>, inbound: Inbound) -> Transition<S> {
    match inbound {
        Inbound::Payload(text) => match response_records(text@) {
            Some(records) => {
                let resolution = resolve_spec(pre.pending, records);
                let state = DuplexView { pending: resolution.pending, ..pre };
                if resolution.unknown {
                    Transition {
                        completions: resolution.completions,
                        ..fail(state, Fault::UnknownId)
                    }
                } else {
                    Transition {
                        state,
                        completions: resolution.completions,
                        next: NextView::PollStream,
                    }
                }
            },
            None => fail(pre, Fault::Parse),
        },
        Inbound::End => quiet(
            DuplexView { phase: Phase::Done, intake_open: false, ..pre },
            NextView::Ready,
        ),
        Inbound::NotReady => if pre.may_finish() {
            quiet(DuplexView { phase: Phase::Done, ..pre }, NextView::Ready)
        } else {
            quiet(DuplexView { phase: Phase::Idle, ..pre }, NextView::NotReady)
        },
        Inbound::Failed => fail(pre, Fault::Transport),
    }
}

/// One step of the correlator: what `event` does in state `pre`. A finished
/// correlator stays as it is and repeats how it finished. An event that does
/// not answer the action that was handed out last is a fault.
pub open spec fn transition<S>(pre: DuplexView<S>, event: Event<S>) -> Transition<S> {
    match pre.phase {
        Phase::Done => quiet(pre, NextView::Ready),
        Phase::Failed(fault) => quiet(pre, NextView::Fail(fault)),
        Phase::Idle => match event {
            Event::Activate => if pre.intake_open {
                quiet(DuplexView { phase: Phase::Intake, ..pre }, NextView::PollIntake)
            } else {
                begin_sending(pre)
            },
            _ => fail(pre, Fault::OutOfTurn),
        },
        Phase::Intake => match event {
            Event::Intake(intake) => on_intake(pre, intake),
            _ => fail(pre, Fault::OutOfTurn),
        },
        Phase::Sending => match event {
            Event::Sent(outcome) => on_sent(pre, outcome),
            _ => fail(pre, Fault::OutOfTurn),
        },
        Phase::Flushing => match event {
            Event::Flushed(outcome) => on_flushed(pre, outcome),
            _ => fail(pre, Fault::OutOfTurn),
        },
        Phase::Receiving => match event {
            Event::Inbound(inbound) => on_inbound(pre, inbound),
            _ => fail(pre, Fault::OutOfTurn),
        },
    }
}

/// Whether `event` hands in a message while the intake is open.
pub open spec fn takes<S>(pre: DuplexView<S>, event: Event<S>) -> bool {
    pre.intake_open && event matches Event::Intake(Intake::Message(_))
}

/// What holds of a message that is handed in while the intake is open: it is
/// taken, written and queued behind the requests that wait, and nobody is
/// told of a failure. A notification leaves the table of pending calls as it
/// is.
pub open spec fn is_taken<S>(
    pre: DuplexView<S>,
    post: DuplexView<S>,
    step: Step<S>,
    event: Event<S>,
) -> bool {
    &&& event matches Event::Intake(Intake::Message(message))
    &&& json_quoted(message.method()) is Some
    &&& step.completions@.len() == 0
    &&& step.next is PollIntake
    &&& post.outgoing == pre.outgoing.push(
        request_text(
            json_quoted(message.method()).unwrap(),
            message.params(),
            match message.sender() {
                Some(_) => Some(first_free(pre.pending, pre.next_id)),
                None => None,
            },
        ),
    )
    &&& message.sender() is None ==> post.pending == pre.pending
}

/// Whether a step came out as `transition` says.
pub open spec fn step_matches<S>(post: DuplexView<S>, step: Step<S>, t: Transition<S>) -> bool {
    &&& post == t.state
    &&& completions_view(step.completions@) == t.completions
    &&& step.next@ == t.next
}

/// Whether `post` is what is left of `pre` after the calls that their callers
/// have abandoned were dropped: nothing but the table has changed; a call
/// that is still pending was pending before, with the same sink, and
/// `abandoned` said no of it; and a call that is gone is one of which
/// `abandoned` said yes.
pub open spec fn reclaimed<S, F: Fn(&S) -> bool>(
    pre: DuplexView<S>,
    post: DuplexView<S>,
    abandoned: F,
) -> bool {
    &&& post == (DuplexView { pending: post.pending, ..pre })
    &&& forall|n: u64| #[trigger]
        post.pending.contains_key(n) ==> pre.pending.contains_key(n) && post.pending[n]
            == pre.pending[n] && call_ensures(abandoned, (&pre.pending[n],), false)
    &&& forall|n: u64| #[trigger]
        pre.pending.contains_key(n) && !post.pending.contains_key(n) ==> call_ensures(
            abandoned,
            (&pre.pending[n],),
            true,
        )
}

/// The correlator of one duplex channel.
pub struct Duplex<S> {
    next_id: u64,
    queue: HashMap<u64, S>,
    intake_open: bool,
    outgoing: VecDeque<String>,
    phase: Phase,
    flushed: bool,
}

impl<S> View for Duplex<S> {
    type V = DuplexView<S>;

    closed spec fn view(&self) -> DuplexView<S> {
        DuplexView {
            pending: self.queue@,
            outgoing: self.outgoing@.map_values(|s: String| s@),
            intake_open: self.intake_open,
            next_id: self.next_id,
            phase: self.phase,
            flushed: self.flushed,
        }
    }
}

fn as_text(text: &Option<String>) -> (r: Option<&str>)
    ensures
        text_view(r) == some_text(*text),
{
    match text {
        Some(t) => Some(t.as_str()),
        None => None,
    }
}

impl<S> Duplex<S> {
    /// A correlator with an open intake, an empty queue and no pending call.
    pub fn new() -> (duplex: Self)
        ensures
            duplex@ == DuplexView::<S>::initial(),
    {
        let duplex = Duplex {
            next_id: 1,
            queue: HashMap::new(),
            intake_open: true,
            outgoing: VecDeque::new(),
            phase: Phase::Idle,
            flushed: false,
        };
        assert(duplex@.outgoing =~= Seq::<Seq<char>>::empty());
        duplex
    }

    /// Where the correlator stands.
    pub fn phase(&self) -> (phase: Phase)
        ensures
            phase == self@.phase,
    {
        self.phase
    }

    /// Whether new calls may still arrive.
    pub fn intake_open(&self) -> (open: bool)
        ensures
            open == self@.intake_open,
    {
        self.intake_open
    }

    /// The number of calls that wait for an answer.
    pub fn pending_len(&self) -> (n: usize)
        ensures
            n == self@.pending.len(),
    {
        self.queue.len()
    }

    /// Whether a call with this identifier waits for an answer.
    pub fn is_pending(&self, id: u64) -> (pending: bool)
        ensures
            pending == self@.pending.contains_key(id),
    {
        self.queue.contains_key(&id)
    }

    /// The number of requests that are not yet written.
    pub fn outgoing_len(&self) -> (n: usize)
        ensures
            n == self@.outgoing.len(),
    {
        self.outgoing.len()
    }

    /// Whether the correlator may finish on its own.
    pub fn may_finish(&self) -> (may: bool)
        ensures
            may == self@.may_finish(),
    {
        let may = !self.intake_open && self.outgoing.len() == 0 && self.queue.len() == 0
            && self.flushed;
        proof {
            if self.queue@.len() == 0 {
                assert(self.queue@.dom() =~= Set::<u64>::empty());
            } else {
                assert(self.queue@.dom().len() != 0);
            }
        }
        may
    }

    fn pending_ids(&self) -> (ids: Vec<u64>)
        ensures
            ids@.to_set() == self@.pending.dom(),
            ids@.no_duplicates(),
    {
        let mut ids: Vec<u64> = Vec::new();
        let ghost all = spec_keys_iter(&self.queue).remaining();
        for id in it: self.queue.keys()
            invariant
                it.seq() == all,
                ids@ == all.take(it.index() as int).unref(),
        {
            ids.push(*id);
        }
        proof {
            vstd::std_specs::hash::axiom_spec_keys_iter(&self.queue);
            assert(all.take(all.len() as int) =~= all);
            assert(ids@ =~= all.unref());
        }
        ids
    }

    /// Drops the pending calls whose callers have lost interest, so that
    /// their entries do not stay in the table for good. `abandoned` says of a
    /// sink whether its caller has gone. Nothing else changes: see
    /// [`reclaimed`].
    pub fn reclaim<F: Fn(&S) -> bool>(&mut self, abandoned: F)
        requires
            forall|sink: &S| call_requires(abandoned, (sink,)),
        ensures
            reclaimed(old(self)@, final(self)@, abandoned),
    {
        let ids = self.pending_ids();
        let ghost pre = self@;
        let mut i: usize = 0;
        while i < ids.len()
            invariant
                i <= ids.len(),
                ids@.to_set() == pre.pending.dom(),
                forall|sink: &S| call_requires(abandoned, (sink,)),
                self@ == (DuplexView { pending: self@.pending, ..pre }),
                forall|n: u64| #[trigger]
                    self@.pending.contains_key(n) ==> pre.pending.contains_key(n)
                        && self@.pending[n] == pre.pending[n],
                forall|n: u64| #[trigger]
                    pre.pending.contains_key(n) && !self@.pending.contains_key(n) ==> call_ensures(
                        abandoned,
                        (&pre.pending[n],),
                        true,
                    ),
                forall|j: int|
                    0 <= j < i && self@.pending.contains_key(#[trigger] ids@[j]) ==> call_ensures(
                        abandoned,
                        (&pre.pending[ids@[j]],),
                        false,
                    ),
            decreases ids.len() - i,
        {
            let id = ids[i];
            let gone = match self.queue.get(&id) {
                Some(sink) => abandoned(sink),
                None => false,
            };
            if gone {
                let _ = self.queue.remove(&id);
            }
            i = i + 1;
        }
        proof {
            assert forall|n: u64| #[trigger] self@.pending.contains_key(n) implies call_ensures(
                abandoned,
                (&pre.pending[n],),
                false,
            ) by {
                assert(ids@.to_set().contains(n));
                let j = choose|j: int| 0 <= j < ids@.len() && ids@[j] == n;
                assert(self@.pending.contains_key(ids@[j]));
            }
        }
    }

    /// Closes the intake for good: every later message is rejected.
    pub fn close_intake(&mut self)
        ensures
            final(self)@ == (DuplexView { intake_open: false, ..old(self)@ }),
    {
        self.intake_open = false;
    }

    fn fresh_id(&self) -> (id: u64)
        ensures
            is_first_free(self@.pending, self@.next_id, id),
    {
        let mut candidate = self.next_id;
        let n = self.queue.len();
        let ghost mut k: nat = 0;
        while self.queue.contains_key(&candidate)
            invariant
                candidate == probe(self.next_id, k),
                k <= self.queue@.len(),
                self.queue@.len() <= usize::MAX,
                forall|j: nat| j < k ==> self.queue@.contains_key(#[trigger] probe(self.next_id, j)),
            decreases self.queue@.len() - k,
        {
            proof {
                lemma_probes_bounded(self.queue@.dom(), self.next_id, k + 1);
                k = k + 1;
            }
            candidate = if candidate == u64::MAX {
                0
            } else {
                candidate + 1
            };
        }
        candidate
    }

    /// Takes a message from a caller. A call gets the first identifier that
    /// no pending call has, is written as a request, queued behind the
    /// requests that wait, and recorded as pending. A notification is written
    /// and queued, and nothing is recorded for it. With the intake open every
    /// message is taken. With the intake closed nothing changes and the
    /// message comes back rejected.
    pub fn submit(&mut self, message: RpcMessage<S>) -> (r: Result<Option<u64>, Rejected<S>>)
        ensures
            final(self)@ == submitted(old(self)@, message),
            submit_result(old(self)@, message, r),
            r matches Ok(Some(id)) ==> is_first_free(old(self)@.pending, old(self)@.next_id, id),
            old(self)@.intake_open ==> r is Ok && rejection(old(self)@, message) is None,
            old(self)@.intake_open && message.sender() is None ==> final(self)@.pending == old(
                self,
            )@.pending && final(self)@.outgoing == old(self)@.outgoing.push(
                request_text(json_quoted(message.method()).unwrap(), message.params(), None),
            ),
    {
        if !self.intake_open {
            let sender = match message {
                RpcMessage::Call { sender, .. } => Some(sender),
                RpcMessage::Notify { .. } => None,
            };
            return Err(Rejected { error: RpcError::Closed, sender });
        }
        match message {
            RpcMessage::Call { method, params, sender } => {
                let id = self.fresh_id();
                proof {
                    lemma_first_free_unique(self@.pending, self@.next_id, id);
                }
                match encode_request(method.as_str(), as_text(&params), Some(id)) {
                    Ok(text) => {
                        self.queue.insert(id, sender);
                        self.outgoing.push_back(text);
                        self.next_id = if id == u64::MAX {
                            0
                        } else {
                            id + 1
                        };
                        proof {
                            let quoted = json_quoted(method@).unwrap();
                            assert(self@.outgoing =~= old(self)@.outgoing.push(
                                request_text(quoted, message.params(), Some(id)),
                            ));
                        }
                        Ok(Some(id))
                    },
                    Err(error) => Err(Rejected { error, sender: Some(sender) }),
                }
            },
            RpcMessage::Notify { method, params } => {
                match encode_request(method.as_str(), as_text(&params), None) {
                    Ok(text) => {
                        self.outgoing.push_back(text);
                        proof {
                            let quoted = json_quoted(method@).unwrap();
                            assert(self@.outgoing =~= old(self)@.outgoing.push(
                                request_text(quoted, message.params(), None),
                            ));
                        }
                        Ok(None)
                    },
                    Err(error) => Err(Rejected { error, sender: None }),
                }
            },
        }
    }
}

impl<S> Duplex<S> {
    /// Matches the records of one payload to the pending calls, in order.
    /// Each record that names a pending call removes it from the table, and
    /// its sink comes back paired with the record's outcome. The first record
    /// that names no pending call ends the matching: the flag comes back set,
    /// and the records after it are dropped.
    pub fn resolve(&mut self, records: Vec<Record>) -> (out: (Vec<Completion<S>>, bool))
        ensures
            ({
                let resolution = resolve_spec(old(self)@.pending, records_view(records@));
                &&& final(self)@ == (DuplexView { pending: resolution.pending, ..old(self)@ })
                &&& completions_view(out.0@) == resolution.completions
                &&& out.1 == resolution.unknown
            }),
    {
        let mut completions: Vec<Completion<S>> = Vec::new();
        let mut unknown = false;
        let ghost pre = self@;
        let ghost all = records_view(records@);
        assert(all.take(0) =~= Seq::<RecordView>::empty());
        assert(completions_view(completions@) =~= Seq::<CompletionView<S>>::empty());
        for record in it: records.into_iter()
            invariant
                it.seq() == records@,
                all == records_view(records@),
                ({
                    let resolution = resolve_spec(pre.pending, all.take(it.index() as int));
                    &&& self@ == (DuplexView { pending: resolution.pending, ..pre })
                    &&& completions_view(completions@) == resolution.completions
                    &&& unknown == resolution.unknown
                }),
        {
            let ghost i = it.index() as int;
            let ghost before = resolve_spec(pre.pending, all.take(i));
            let ghost done = completions_view(completions@);
            proof {
                assert(all.take(i + 1).drop_last() =~= all.take(i));
                assert(all.take(i + 1).last() == record@);
            }
            if !unknown {
                match record.id {
                    Id::Num(n) => {
                        assert(record@.id == IdView::Num(n));
                        match self.queue.remove(&n) {
                            Some(sender) => {
                                completions.push(Completion { sender, result: record.result });
                                assert(completions_view(completions@) =~= done.push(
                                    CompletionView {
                                        sender: before.pending[n],
                                        result: record@.result,
                                    },
                                ));
                            },
                            None => {
                                unknown = true;
                            },
                        }
                    },
                    _ => {
                        unknown = true;
                    },
                }
            }
            proof {
                let after = resolve_spec(pre.pending, all.take(i + 1));
                assert(unknown == after.unknown);
                assert(self@.pending == after.pending);
                assert(completions_view(completions@) == after.completions);
            }
        }
        proof {
            assert(all.take(all.len() as int) =~= all);
        }
        (completions, unknown)
    }

    fn begin_sending(&mut self) -> (next: Next)
        ensures
            final(self)@ == begin_sending(old(self)@).state,
            next@ == begin_sending(old(self)@).next,
    {
        match self.outgoing.pop_front() {
            Some(text) => {
                self.phase = Phase::Sending;
                proof {
                    assert(self@.outgoing =~= old(self)@.outgoing.drop_first());
                }
                Next::StartSend(text)
            },
            None => {
                self.phase = Phase::Flushing;
                proof {
                    assert(self@.outgoing =~= old(self)@.outgoing);
                }
                Next::PollComplete
            },
        }
    }

    fn fail(&mut self, fault: Fault) -> (next: Next)
        ensures
            final(self)@ == fail(old(self)@, fault).state,
            next@ == fail(old(self)@, fault).next,
    {
        self.phase = Phase::Failed(fault);
        self.intake_open = false;
        Next::Fail(fault)
    }

    fn on_intake(&mut self, intake: Intake<S>) -> (step: Step<S>)
        ensures
            step_matches(final(self)@, step, on_intake(old(self)@, intake)),
            takes(old(self)@, Event::Intake(intake)) ==> is_taken(
                old(self)@,
                final(self)@,
                step,
                Event::Intake(intake),
            ),
    {
        let mut completions: Vec<Completion<S>> = Vec::new();
        assert(completions_view(completions@) =~= Seq::<CompletionView<S>>::empty());
        let next = match intake {
            Intake::Message(message) => {
                match self.submit(message) {
                    Ok(_) => {},
                    Err(rejected) => {
                        let Rejected { error, sender } = rejected;
                        match sender {
                            Some(sender) => {
                                completions.push(Completion { sender, result: Err(error) });
                                proof {
                                    assert(completions_view(completions@) =~= seq![
                                        CompletionView { sender, result: Err(error@) },
                                    ]);
                                }
                            },
                            None => {},
                        }
                    },
                }
                Next::PollIntake
            },
            Intake::Failed => Next::PollIntake,
            Intake::Closed => {
                self.intake_open = false;
                self.begin_sending()
            },
            Intake::NotReady => self.begin_sending(),
        };
        Step { completions, next }
    }

    fn on_sent(&mut self, outcome: SendOutcome) -> (next: Next)
        ensures
            final(self)@ == on_sent(old(self)@, outcome).state,
            next@ == on_sent(old(self)@, outcome).next,
    {
        match outcome {
            SendOutcome::Accepted => self.begin_sending(),
            SendOutcome::Rejected(text) => {
                self.outgoing.push_front(text);
                self.phase = Phase::Flushing;
                proof {
                    assert(self@.outgoing =~= seq![text@] + old(self)@.outgoing);
                }
                Next::PollComplete
            },
            SendOutcome::Failed => self.fail(Fault::Transport),
        }
    }

    fn on_flushed(&mut self, outcome: FlushOutcome) -> (next: Next)
        ensures
            final(self)@ == on_flushed(old(self)@, outcome).state,
            next@ == on_flushed(old(self)@, outcome).next,
    {
        match outcome {
            FlushOutcome::Complete => {
                self.flushed = true;
                self.phase = Phase::Receiving;
                Next::PollStream
            },
            FlushOutcome::Pending => {
                self.flushed = false;
                self.phase = Phase::Receiving;
                Next::PollStream
            },
            FlushOutcome::Failed => self.fail(Fault::Transport),
        }
    }

    fn on_inbound(&mut self, inbound: Inbound) -> (step: Step<S>)
        ensures
            step_matches(final(self)@, step, on_inbound(old(self)@, inbound)),
    {
        match inbound {
            Inbound::Payload(text) => match parse_response(text.as_str()) {
                Ok(records) => {
                    let (completions, unknown) = self.resolve(records);
                    let next = if unknown {
                        self.fail(Fault::UnknownId)
                    } else {
                        Next::PollStream
                    };
                    Step { completions, next }
                },
                Err(_) => {
                    let next = self.fail(Fault::Parse);
                    Self::quiet(next)
                },
            },
            Inbound::End => {
                self.phase = Phase::Done;
                self.intake_open = false;
                Self::quiet(Next::Ready)
            },
            Inbound::NotReady => {
                if self.may_finish() {
                    self.phase = Phase::Done;
                    Self::quiet(Next::Ready)
                } else {
                    self.phase = Phase::Idle;
                    Self::quiet(Next::NotReady)
                }
            },
            Inbound::Failed => {
                let next = self.fail(Fault::Transport);
                Self::quiet(next)
            },
        }
    }

    fn quiet(next: Next) -> (step: Step<S>)
        ensures
            step.next == next,
            completions_view(step.completions@) == Seq::<CompletionView<S>>::empty(),
    {
        let completions: Vec<Completion<S>> = Vec::new();
        assert(completions_view(completions@) =~= Seq::<CompletionView<S>>::empty());
        Step { completions, next }
    }

    /// One step of the correlator. The driver starts an activation with
    /// [`Event::Activate`], performs the action that each step hands out,
    /// delivers the outcomes that come with it, and answers with the event
    /// that the action produced, until the step says [`Next::Ready`],
    /// [`Next::NotReady`] or [`Next::Fail`].
    pub fn poll(&mut self, event: Event<S>) -> (step: Step<S>)
        ensures
            step_matches(final(self)@, step, transition(old(self)@, event)),
            old(self)@.phase is Intake && takes(old(self)@, event) ==> is_taken(
                old(self)@,
                final(self)@,
                step,
                event,
            ),
    {
        match self.phase {
            Phase::Done => Self::quiet(Next::Ready),
            Phase::Failed(fault) => Self::quiet(Next::Fail(fault)),
            Phase::Idle => match event {
                Event::Activate => {
                    if self.intake_open {
                        self.phase = Phase::Intake;
                        Self::quiet(Next::PollIntake)
                    } else {
                        let next = self.begin_sending();
                        Self::quiet(next)
                    }
                },
                _ => {
                    let next = self.fail(Fault::OutOfTurn);
                    Self::quiet(next)
                },
            },
            Phase::Intake => match event {
                Event::Intake(intake) => self.on_intake(intake),
                _ => {
                    let next = self.fail(Fault::OutOfTurn);
                    Self::quiet(next)
                },
            },
            Phase::Sending => match event {
                Event::Sent(outcome) => {
                    let next = self.on_sent(outcome);
                    Self::quiet(next)
                },
                _ => {
                    let next = self.fail(Fault::OutOfTurn);
                    Self::quiet(next)
                },
            },
            Phase::Flushing => match event {
                Event::Flushed(outcome) => {
                    let next = self.on_flushed(outcome);
                    Self::quiet(next)
                },
                _ => {
                    let next = self.fail(Fault::OutOfTurn);
                    Self::quiet(next)
                },
            },
            Phase::Receiving => match event {
                Event::Inbound(inbound) => self.on_inbound(inbound),
                _ => {
                    let next = self.fail(Fault::OutOfTurn);
                    Self::quiet(next)
                },
            },
        }
    }
}

/// A new correlator, as [`Duplex::new`] makes it.
pub fn duplex<S>() -> (correlator: Duplex<S>)
    ensures
        correlator@ == DuplexView::<S>::initial(),
{
    Duplex::new()
}

/// Whether the record names a call of the table.
pub open spec fn names_pending<S>(pending: Map<u64, S>, record: RecordView) -> bool {
    record.id matches IdView::Num(n) && pending.contains_key(n)
}

/// The number that the record's identifier holds, where it is a number.
pub open spec fn call_of(record: RecordView) -> u64 {
    record.id->Num_0
}

/// Every record names a pending call, and no two records name the same call.
pub open spec fn answers_pending<S>(pending: Map<u64, S>, records: Seq<RecordView>) -> bool {
    &&& forall|i: int| 0 <= i < records.len() ==> names_pending(pending, #[trigger] records[i])
    &&& forall|i: int, j: int|
        0 <= i < j < records.len() ==> (#[trigger] records[i]).id != (#[trigger] records[j]).id
}

/// Whether one of the records names the call `n`.
pub open spec fn is_answered(records: Seq<RecordView>, n: u64) -> bool {
    exists|i: int| 0 <= i < records.len() && (#[trigger] records[i]).id == IdView::Num(n)
}

/// Answers to pending calls resolve them whatever order they arrive in:
/// where each record names a pending call and no call is named twice, no
/// record is unknown, the sink of the call that a record names gets that
/// record's outcome, and exactly the calls that no record names stay pending.
pub proof fn lemma_every_call_resolves<S>(pending: Map<u64, S>, records: Seq<RecordView>)
    requires
        answers_pending(pending, records),
    ensures
        ({
            let resolution = resolve_spec(pending, records);
            &&& !resolution.unknown
            &&& resolution.completions.len() == records.len()
            &&& forall|i: int|
                0 <= i < records.len() ==> (#[trigger] resolution.completions[i])
                    == (CompletionView {
                    sender: pending[call_of(records[i])],
                    result: records[i].result,
                })
            &&& forall|n: u64| #[trigger]
                resolution.pending.contains_key(n) <==> pending.contains_key(n) && !is_answered(
                    records,
                    n,
                )
            &&& forall|n: u64| #[trigger]
                resolution.pending.contains_key(n) ==> resolution.pending[n] == pending[n]
        }),
    decreases records.len(),
{
    if records.len() > 0 {
        let init = records.drop_last();
        let last = records.last();
        let end = records.len() - 1;
        assert forall|i: int| 0 <= i < init.len() implies names_pending(
            pending,
            #[trigger] init[i],
        ) by {
            assert(init[i] == records[i]);
        }
        assert forall|i: int, j: int| 0 <= i < j < init.len() implies (#[trigger] init[i]).id != (
        #[trigger] init[j]).id by {
            assert(init[i] == records[i] && init[j] == records[j]);
        }
        lemma_every_call_resolves(pending, init);
        let before = resolve_spec(pending, init);
        let after = resolve_spec(pending, records);
        assert(records[end] == last);
        let m = call_of(last);
        assert(names_pending(pending, records[end]));
        assert(last.id == IdView::Num(m) && pending.contains_key(m));
        assert(!is_answered(init, m)) by {
            if is_answered(init, m) {
                let i = choose|i: int| 0 <= i < init.len() && (#[trigger] init[i]).id == IdView::Num(m);
                assert(init[i] == records[i]);
                assert(records[i].id != records[end].id);
            }
        }
        assert(before.pending.contains_key(m));
        assert forall|i: int| 0 <= i < records.len() implies (#[trigger] after.completions[i])
            == (CompletionView {
            sender: pending[call_of(records[i])],
            result: records[i].result,
        }) by {
            if i < end {
                assert(init[i] == records[i]);
                assert(after.completions[i] == before.completions[i]);
            }
        }
        assert forall|n: u64| #[trigger]
            after.pending.contains_key(n) <==> pending.contains_key(n) && !is_answered(
                records,
                n,
            ) by {
            if is_answered(records, n) {
                let i = choose|i: int| 0 <= i < records.len() && (#[trigger] records[i]).id == IdView::Num(n);
                if i < end {
                    assert(init[i] == records[i]);
                    assert(is_answered(init, n));
                }
            }
            if is_answered(init, n) {
                let i = choose|i: int| 0 <= i < init.len() && (#[trigger] init[i]).id == IdView::Num(n);
                assert(init[i] == records[i]);
            }
            if n == m {
                assert(records[end].id == IdView::Num(n));
            }
        }
    }
}

/// Where the records between them answer every pending call, once each, the
/// table is empty afterwards.
pub proof fn lemma_all_answered_leaves_none<S>(pending: Map<u64, S>, records: Seq<RecordView>)
    requires
        answers_pending(pending, records),
        forall|n: u64| pending.contains_key(n) ==> is_answered(records, n),
    ensures
        resolve_spec(pending, records).pending.dom() =~= Set::<u64>::empty(),
        !resolve_spec(pending, records).unknown,
{
    lemma_every_call_resolves(pending, records);
    let resolution = resolve_spec(pending, records);
    assert forall|n: u64| !resolution.pending.dom().contains(n) by {
        if resolution.pending.contains_key(n) {
            assert(pending.contains_key(n) && !is_answered(records, n));
        }
    }
}

/// Answers may arrive in any number of payloads: taking the records of two
/// payloads one after the other is the same as taking them all at once, as
/// long as the first payload holds no unknown record.
pub proof fn lemma_resolve_in_parts<S>(
    pending: Map<u64, S>,
    first: Seq<RecordView>,
    second: Seq<RecordView>,
)
    requires
        !resolve_spec(pending, first).unknown,
    ensures
        ({
            let one = resolve_spec(pending, first);
            let two = resolve_spec(one.pending, second);
            resolve_spec(pending, first + second) == (Resolution {
                pending: two.pending,
                completions: one.completions + two.completions,
                unknown: two.unknown,
            })
        }),
    decreases second.len(),
{
    let one = resolve_spec(pending, first);
    if second.len() == 0 {
        assert(first + second =~= first);
        assert(one.completions + Seq::<CompletionView<S>>::empty() =~= one.completions);
    } else {
        lemma_resolve_in_parts(pending, first, second.drop_last());
        assert((first + second).drop_last() =~= first + second.drop_last());
        assert((first + second).last() == second.last());
        let before = resolve_spec(one.pending, second.drop_last());
        let two = resolve_spec(one.pending, second);
        if !before.unknown && !two.unknown {
            assert(one.completions + two.completions =~= (one.completions
                + before.completions).push(two.completions.last()));
        }
    }
}

/// The calls that still wait after a run of records were all pending before
/// it, with the same sinks.
pub proof fn lemma_resolve_only_removes<S>(pending: Map<u64, S>, records: Seq<RecordView>)
    ensures
        forall|n: u64| #[trigger]
            resolve_spec(pending, records).pending.contains_key(n) ==> pending.contains_key(n)
                && resolve_spec(pending, records).pending[n] == pending[n],
    decreases records.len(),
{
    if records.len() > 0 {
        let before = resolve_spec(pending, records.drop_last());
        let after = resolve_spec(pending, records);
        lemma_resolve_only_removes(pending, records.drop_last());
        assert forall|n: u64| #[trigger] after.pending.contains_key(n) implies pending.contains_key(
            n,
        ) && after.pending[n] == pending[n] by {
            assert(before.pending.contains_key(n));
        }
    }
}

/// A record that names no pending call is unknown: where one of the records
/// carries an identifier that is not in the table, the run ends unknown.
pub proof fn lemma_stranger_is_unknown<S>(pending: Map<u64, S>, records: Seq<RecordView>, at: int)
    requires
        0 <= at < records.len(),
        !names_pending(pending, records[at]),
    ensures
        resolve_spec(pending, records).unknown,
    decreases records.len(),
{
    let init = records.drop_last();
    if at < records.len() - 1 {
        assert(init[at] == records[at]);
        lemma_stranger_is_unknown(pending, init, at);
    } else {
        let before = resolve_spec(pending, init);
        lemma_resolve_only_removes(pending, init);
        assert(records.last() == records[at]);
        if let IdView::Num(n) = records[at].id {
            if before.pending.contains_key(n) {
                assert(pending.contains_key(n));
            }
        }
    }
}

/// A response to a call that is not pending desynchronises the correlator
/// for good: it gives up with [`Fault::UnknownId`], and from then on every
/// step repeats the fault, hands no request to the transport, changes
/// nothing, and every message is rejected.
pub proof fn lemma_unknown_id_is_fatal<S>(
    pre: DuplexView<S>,
    payload: String,
    at: int,
    later: Event<S>,
    message: RpcMessage<S>,
)
    requires
        pre.phase == Phase::Receiving,
        response_records(payload@) matches Some(records) && 0 <= at < records.len()
            && !names_pending(pre.pending, records[at]),
    ensures
        ({
            let t = transition(pre, Event::Inbound(Inbound::Payload(payload)));
            &&& t.next == NextView::Fail(Fault::UnknownId)
            &&& t.state.phase == Phase::Failed(Fault::UnknownId)
            &&& t.state.outgoing == pre.outgoing
            &&& transition(t.state, later) == quiet(t.state, NextView::Fail(Fault::UnknownId))
            &&& submitted(t.state, message) == t.state
            &&& rejection(t.state, message) == Some(RpcErrorView::Closed)
        }),
{
    lemma_stranger_is_unknown(pre.pending, response_records(payload@).unwrap(), at);
}

/// A finished correlator is absorbing: whatever the driver tells it, it
/// stays as it is, delivers nothing and hands no request to the transport.
pub proof fn lemma_finished_is_absorbing<S>(pre: DuplexView<S>, event: Event<S>)
    requires
        pre.phase is Done || pre.phase is Failed,
    ensures
        transition(pre, event).state == pre,
        transition(pre, event).completions.len() == 0,
        !(transition(pre, event).next is StartSend),
{
}

/// A message that arrives after the intake has closed is rejected at once:
/// the correlator stays exactly as it was, so the message is neither queued
/// nor recorded.
pub proof fn lemma_closed_intake_rejects<S>(pre: DuplexView<S>, message: RpcMessage<S>)
    requires
        !pre.intake_open,
    ensures
        rejection(pre, message) == Some(RpcErrorView::Closed),
        submitted(pre, message) == pre,
{
}

/// The intake closes for good: no step and no message opens it again.
pub proof fn lemma_intake_stays_closed<S>(
    pre: DuplexView<S>,
    event: Event<S>,
    message: RpcMessage<S>,
)
    requires
        !pre.intake_open,
    ensures
        !transition(pre, event).state.intake_open,
        !submitted(pre, message).intake_open,
{
}

/// A notification is written and queued like a call, but the table of
/// pending calls does not change: nothing will wait for an answer to it.
pub proof fn lemma_notification_is_not_pending<S>(pre: DuplexView<S>, message: RpcMessage<S>)
    requires
        message.sender() is None,
    ensures
        submitted(pre, message).pending == pre.pending,
        rejection(pre, message) is None ==> submitted(pre, message).outgoing
            == pre.outgoing.push(
            request_text(json_quoted(message.method()).unwrap(), message.params(), None),
        ),
        submitted(pre, message).may_finish() ==> pre.pending.dom() =~= Set::<u64>::empty(),
{
}

/// A call that is taken gets an identifier that no pending call has, so no
/// two pending calls ever share one, and the calls that were pending stay
/// pending with their sinks.
pub proof fn lemma_submit_keeps_ids_apart<S>(pre: DuplexView<S>, message: RpcMessage<S>, n: u64)
    requires
        pre.pending.dom().finite(),
        pre.pending.dom().len() <= usize::MAX,
        rejection(pre, message) is None,
        message.sender() is Some,
    ensures
        !pre.pending.contains_key(first_free(pre.pending, pre.next_id)),
        pre.pending.contains_key(n) ==> submitted(pre, message).pending.contains_key(n)
            && submitted(pre, message).pending[n] == pre.pending[n],
        submitted(pre, message).pending[first_free(pre.pending, pre.next_id)]
            == message.sender().unwrap(),
{
    lemma_first_free_exists(pre.pending, pre.next_id);
}

/// While the table holds fewer calls than there are identifiers, one is free.
pub proof fn lemma_first_free_exists<S>(pending: Map<u64, S>, start: u64)
    requires
        pending.dom().finite(),
        pending.dom().len() <= usize::MAX,
    ensures
        is_first_free(pending, start, first_free(pending, start)),
{
    lemma_free_within(pending, start, 0);
}

proof fn lemma_free_within<S>(pending: Map<u64, S>, start: u64, k: nat)
    requires
        pending.dom().finite(),
        pending.dom().len() <= usize::MAX,
        k <= pending.dom().len(),
        forall|j: nat| j < k ==> pending.contains_key(#[trigger] probe(start, j)),
    ensures
        exists|id: u64| is_first_free(pending, start, id),
    decreases pending.dom().len() - k,
{
    if pending.contains_key(probe(start, k)) {
        lemma_probes_bounded(pending.dom(), start, k + 1);
        lemma_free_within(pending, start, k + 1);
    } else {
        assert(is_first_free(pending, start, probe(start, k)));
    }
}

/// The correlator finishes successfully only when the peer has closed the
/// channel, or when no call can arrive, nothing waits to be written, nothing
/// waits for an answer, and the transport has flushed.
pub proof fn lemma_ready_only_when_drained<S>(pre: DuplexView<S>, event: Event<S>)
    requires
        !(pre.phase is Done),
        transition(pre, event).next is Ready,
    ensures
        pre.phase is Receiving,
        event matches Event::Inbound(inbound) && (inbound is End || (inbound is NotReady
            && pre.may_finish())),
{
}

/// Requests leave in the order in which they were queued: the one handed to
/// the transport is the oldest, a request that the transport gives back goes
/// to the front again, and a new request goes to the back.
pub proof fn lemma_outgoing_is_fifo<S>(pre: DuplexView<S>, text: String, message: RpcMessage<S>)
    requires
        pre.outgoing.len() > 0,
        rejection(pre, message) is None,
    ensures
        begin_sending(pre).next == NextView::StartSend(pre.outgoing.first()),
        on_sent(begin_sending(pre).state, SendOutcome::Rejected(text)).state.outgoing == seq![
            text@,
        ] + pre.outgoing.drop_first(),
        submitted(pre, message).outgoing.drop_last() == pre.outgoing,
        submitted(pre, message).outgoing.first() == pre.outgoing.first(),
{
}

} // verus!
