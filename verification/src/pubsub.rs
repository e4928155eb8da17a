//! The subscription registry: who is subscribed to what, under which
//! identifier, and for how long.
//!
//! The registry keeps the sink of each subscription but never sends through
//! it: a producer asks for the sink, sends, and tells the registry when the
//! peer has gone.

use crate::codec::{decimal, encode_request, json_quoted, request_text};
use crate::error::{Failure, RpcError};
use vstd::prelude::*;
use vstd::string::*;

verus! {

/// The identifier of a subscription as a mathematical value.
pub enum SubscriptionIdView {
    Number(u64),
    String(Seq<char>),
}

/// The identifier of a subscription, as it stands on the wire. The registry
/// hands out numbers only.
#[derive(Debug)]
pub enum SubscriptionId {
    Number(u64),
    String(String),
}

impl View for SubscriptionId {
    type V = SubscriptionIdView;

    open spec fn view(&self) -> SubscriptionIdView {
        match self {
            SubscriptionId::Number(n) => SubscriptionIdView::Number(*n),
            SubscriptionId::String(s) => SubscriptionIdView::String(s@),
        }
    }
}

/// One subscription: its identifier, the session that owns it, and the sink
/// through which its notifications go.
pub struct Entry<K> {
    pub id: u64,
    pub session: u64,
    pub sink: K,
}

/// The subscriptions other than `id`.
pub open spec fn other_than<K>(id: u64) -> spec_fn(Entry<K>) -> bool {
    |e: Entry<K>| e.id != id
}

/// The subscriptions of `session`.
pub open spec fn owned_by<K>(session: u64) -> spec_fn(Entry<K>) -> bool {
    |e: Entry<K>| e.session == session
}

/// The subscriptions of other sessions than `session`.
pub open spec fn not_owned_by<K>(session: u64) -> spec_fn(Entry<K>) -> bool {
    |e: Entry<K>| e.session != session
}

/// The sink of a subscription.
pub open spec fn sink_of<K>() -> spec_fn(Entry<K>) -> K {
    |e: Entry<K>| e.sink
}

/// A registry as a mathematical value.
pub struct RegistryView<K> {
    /// The subscriptions, oldest first.
    pub entries: Seq<Entry<K>>,
    /// The identifier that the next subscription gets.
    pub next_id: u64,
}

impl<K> RegistryView<K> {
    /// No two subscriptions share an identifier, and every identifier in use
    /// was handed out before.
    pub open spec fn wf(self) -> bool {
        &&& forall|i: int| 0 <= i < self.entries.len() ==> (#[trigger] self.entries[i]).id
            < self.next_id
        &&& forall|i: int, j: int|
            0 <= i < j < self.entries.len() ==> (#[trigger] self.entries[i]).id != (
            #[trigger] self.entries[j]).id
    }

    /// A registry without subscriptions.
    pub open spec fn initial() -> RegistryView<K> {
        RegistryView { entries: Seq::empty(), next_id: 0 }
    }

    /// Whether a subscription has this identifier.
    pub open spec fn is_bound(self, id: u64) -> bool {
        exists|i: int| 0 <= i < self.entries.len() && (#[trigger] self.entries[i]).id == id
    }

    /// Where the subscription with this identifier stands, if there is one.
    pub open spec fn position(self, id: u64) -> int {
        choose|i: int| 0 <= i < self.entries.len() && (#[trigger] self.entries[i]).id == id
    }

    /// The number that a wire identifier holds, where the registry can have
    /// handed it out.
    pub open spec fn issued(id: SubscriptionIdView) -> Option<u64> {
        match id {
            SubscriptionIdView::Number(n) => Some(n),
            SubscriptionIdView::String(_) => None,
        }
    }

    /// Whether a subscription has this wire identifier.
    pub open spec fn holds(self, id: SubscriptionIdView) -> bool {
        Self::issued(id) matches Some(n) && self.is_bound(n)
    }

    /// The registry after a subscription was added for `session`.
    pub open spec fn subscribed(self, session: u64, sink: K) -> RegistryView<K> {
        RegistryView {
            entries: self.entries.push(Entry { id: self.next_id, session, sink }),
            next_id: (self.next_id + 1) as u64,
        }
    }

    /// The registry without the subscription `id`.
    pub open spec fn unsubscribed(self, id: u64) -> RegistryView<K> {
        RegistryView { entries: self.entries.filter(other_than(id)), ..self }
    }

    /// The registry without the subscriptions of `session`.
    pub open spec fn torn_down(self, session: u64) -> RegistryView<K> {
        RegistryView { entries: self.entries.filter(not_owned_by(session)), ..self }
    }

    /// The sinks of the subscriptions of `session`, oldest first.
    pub open spec fn sinks_of(self, session: u64) -> Seq<K> {
        self.entries.filter(owned_by(session)).map_values(sink_of())
    }
}

/// Why a subscription was not made.
#[derive(Debug)]
pub enum Refusal {
    /// The parameters of the subscribe call were not what the subscription
    /// takes; the error goes back to the caller as it is.
    Rejected(Failure),
    /// Every identifier has been handed out.
    Exhausted,
}

/// The text of a notification for the subscription `id`: a notification of
/// `method` (a JSON string) whose parameters name the subscription and carry
/// the payload (a JSON value) as the result.
pub open spec fn notification_text(method: Seq<char>, id: u64, payload: Seq<char>) -> Seq<char> {
    request_text(
        method,
        Some("{\"subscription\":"@ + decimal(id as nat) + ",\"result\":"@ + payload + "}"@),
        None,
    )
}

/// The subscriptions of one server.
pub struct Registry<K> {
    entries: Vec<Entry<K>>,
    next_id: u64,
}

impl<K> View for Registry<K> {
    type V = RegistryView<K>;

    closed spec fn view(&self) -> RegistryView<K> {
        RegistryView { entries: self.entries@, next_id: self.next_id }
    }
}

impl<K> Registry<K> {
    #[verifier::type_invariant]
    spec fn inv(self) -> bool {
        self@.wf()
    }

    /// A registry without subscriptions.
    pub fn new() -> (registry: Self)
        ensures
            registry@ == RegistryView::<K>::initial(),
            registry@.wf(),
    {
        Registry { entries: Vec::new(), next_id: 0 }
    }

    /// The number of subscriptions.
    pub fn len(&self) -> (n: usize)
        ensures
            n == self@.entries.len(),
            self@.wf(),
    {
        proof {
            use_type_invariant(self);
        }
        self.entries.len()
    }

    fn find(&self, id: u64) -> (at: Option<usize>)
        ensures
            match at {
                Some(i) => i < self@.entries.len() && self@.entries[i as int].id == id
                    && self@.position(id) == i,
                None => !self@.is_bound(id),
            },
    {
        proof {
            use_type_invariant(self);
        }
        let mut i: usize = 0;
        while i < self.entries.len()
            invariant
                i <= self.entries.len(),
                self@.wf(),
                forall|j: int| 0 <= j < i ==> (#[trigger] self.entries@[j]).id != id,
            decreases self.entries.len() - i,
        {
            if self.entries[i].id == id {
                proof {
                    let p = self@.position(id);
                    assert(self@.entries[i as int].id == id);
                    if p < i {
                        assert(self@.entries[p].id != self@.entries[i as int].id);
                    } else if p > i {
                        assert(self@.entries[i as int].id != self@.entries[p].id);
                    }
                }
                return Some(i);
            }
            i = i + 1;
        }
        None
    }

    /// Whether a subscription has this identifier.
    pub fn is_subscribed(&self, id: &SubscriptionId) -> (bound: bool)
        ensures
            bound == self@.holds(id@),
    {
        match id {
            SubscriptionId::Number(n) => self.find(*n).is_some(),
            SubscriptionId::String(_) => false,
        }
    }

    /// Makes a subscription for `session`, where the subscribe call was
    /// accepted: the subscription gets an identifier that no subscription
    /// had before, and `sink` is bound to it. Where `verdict` rejects the
    /// call, no identifier is handed out, the registry stays as it is, and
    /// the rejection and the sink come back.
    pub fn subscribe(&mut self, session: u64, sink: K, verdict: Result<(), Failure>) -> (r: Result<
        SubscriptionId,
        (Refusal, K),
    >)
        ensures
            final(self)@.wf(),
            match verdict {
                Err(failure) => {
                    &&& final(self)@ == old(self)@
                    &&& r matches Err((Refusal::Rejected(f), k))
                    &&& f == failure
                    &&& k == sink
                },
                Ok(()) => if old(self)@.next_id == u64::MAX {
                    &&& final(self)@ == old(self)@
                    &&& r matches Err((Refusal::Exhausted, k))
                    &&& k == sink
                } else {
                    &&& final(self)@ == old(self)@.subscribed(session, sink)
                    &&& r matches Ok(SubscriptionId::Number(id))
                    &&& id == old(self)@.next_id
                },
            },
    {
        proof {
            use_type_invariant(&*self);
        }
        match verdict {
            Err(failure) => Err((Refusal::Rejected(failure), sink)),
            Ok(()) => {
                if self.next_id == u64::MAX {
                    return Err((Refusal::Exhausted, sink));
                }
                let id = self.next_id;
                let mut entries = Vec::new();
                std::mem::swap(&mut self.entries, &mut entries);
                entries.push(Entry { id, session, sink });
                self.next_id = id + 1;
                proof {
                    let after = RegistryView { entries: entries@, next_id: self.next_id };
                    assert forall|i: int| 0 <= i < after.entries.len() implies (
                    #[trigger] after.entries[i]).id < after.next_id by {
                        if i < old(self)@.entries.len() {
                            assert(after.entries[i] == old(self)@.entries[i]);
                        }
                    }
                    assert forall|i: int, j: int|
                        0 <= i < j < after.entries.len() implies (#[trigger] after.entries[i]).id
                        != (#[trigger] after.entries[j]).id by {
                        assert(after.entries[i] == old(self)@.entries[i]);
                        if j < old(self)@.entries.len() {
                            assert(after.entries[j] == old(self)@.entries[j]);
                        }
                    }
                }
                self.entries = entries;
                Ok(SubscriptionId::Number(id))
            },
        }
    }

    /// The sink of a subscription, for a producer to send through. For an
    /// identifier that has no subscription, or no longer, there is none, and
    /// that is no fault.
    pub fn sink(&self, id: &SubscriptionId) -> (sink: Option<&K>)
        ensures
            match sink {
                Some(k) => self@.holds(id@) && *k == self@.entries[self@.position(
                    RegistryView::<K>::issued(id@).unwrap(),
                )].sink,
                None => !self@.holds(id@),
            },
    {
        match id {
            SubscriptionId::Number(n) => match self.find(*n) {
                Some(i) => Some(&self.entries[i].sink),
                None => None,
            },
            SubscriptionId::String(_) => None,
        }
    }

    /// Removes a subscription. Says whether there was one: for an identifier
    /// that was never handed out, or whose subscription is gone already, the
    /// answer is `false` and nothing changes.
    pub fn unsubscribe(&mut self, id: &SubscriptionId) -> (removed: bool)
        ensures
            final(self)@.wf(),
            removed == old(self)@.holds(id@),
            match RegistryView::<K>::issued(id@) {
                Some(n) => final(self)@ == old(self)@.unsubscribed(n),
                None => final(self)@ == old(self)@,
            },
            !removed ==> final(self)@ == old(self)@,
            removed ==> final(self)@.entries == old(self)@.entries.remove(
                old(self)@.position(RegistryView::<K>::issued(id@).unwrap()),
            ),
    {
        proof {
            use_type_invariant(&*self);
        }
        match id {
            SubscriptionId::Number(n) => {
                match self.find(*n) {
                    Some(i) => {
                        proof {
                            lemma_filter_out_one(self@, *n, i as int);
                        }
                        let mut entries = Vec::new();
                        std::mem::swap(&mut self.entries, &mut entries);
                        let _ = entries.remove(i);
                        self.entries = entries;
                        true
                    },
                    None => {
                        proof {
                            lemma_filter_out_none(self@, *n);
                        }
                        false
                    },
                }
            },
            SubscriptionId::String(_) => false,
        }
    }

    /// Ends every subscription of a session that has gone, and hands back
    /// their sinks, oldest first, for the driver to close. The subscriptions
    /// of other sessions stay as they are.
    pub fn teardown(&mut self, session: u64) -> (sinks: Vec<K>)
        ensures
            final(self)@.wf(),
            final(self)@ == old(self)@.torn_down(session),
            sinks@ == old(self)@.sinks_of(session),
    {
        proof {
            use_type_invariant(&*self);
        }
        let mut entries = Vec::new();
        std::mem::swap(&mut self.entries, &mut entries);
        let mut kept: Vec<Entry<K>> = Vec::new();
        let mut sinks: Vec<K> = Vec::new();
        let ghost all = entries@;
        proof {
            reveal(Seq::filter);
            assert(all.take(0) =~= Seq::<Entry<K>>::empty());
            assert(all.take(0).filter(owned_by(session)).map_values(sink_of()) =~= Seq::<
                K,
            >::empty());
        }
        for entry in it: entries.into_iter()
            invariant
                it.seq() == all,
                kept@ == all.take(it.index() as int).filter(not_owned_by(session)),
                sinks@ == all.take(it.index() as int).filter(owned_by(session)).map_values(
                    sink_of(),
                ),
        {
            proof {
                reveal(Seq::filter);
                let i = it.index() as int;
                assert(all.take(i + 1).drop_last() =~= all.take(i));
                assert(all.take(i + 1).last() == entry);
                if entry.session == session {
                    assert(all.take(i + 1).filter(owned_by(session)).map_values(sink_of())
                        =~= all.take(i).filter(owned_by(session)).map_values(sink_of()).push(
                        entry.sink,
                    ));
                }
            }
            if entry.session == session {
                sinks.push(entry.sink);
            } else {
                kept.push(entry);
            }
        }
        proof {
            assert(all.take(all.len() as int) =~= all);
            lemma_filter_wf(old(self)@, not_owned_by(session));
        }
        self.entries = kept;
        sinks
    }

    /// Prepares a notification for a subscription: the sink to send through,
    /// and the text to send. For an identifier that has no subscription, or
    /// no longer, there is nothing to send, and that is no fault. For one
    /// that has a subscription there always is.
    pub fn notify(&self, id: &SubscriptionId, method: &str, payload_json: &str) -> (r: Result<
        Option<(&K, String)>,
        RpcError,
    >)
        ensures
            r is Ok,
            r matches Ok(sent) && (sent is Some <==> self@.holds(id@)),
            match RegistryView::<K>::issued(id@) {
                Some(n) if self@.is_bound(n) => match json_quoted(method@) {
                    Some(quoted) => {
                        &&& r matches Ok(Some((sink, text)))
                        &&& *sink == self@.entries[self@.position(n)].sink
                        &&& text@ == notification_text(quoted, n, payload_json@)
                    },
                    None => r matches Err(RpcError::Serialize),
                },
                _ => r matches Ok(None),
            },
    {
        let n = match id {
            SubscriptionId::Number(n) => *n,
            SubscriptionId::String(_) => {
                return Ok(None);
            },
        };
        match self.find(n) {
            Some(i) => {
                let mut params = String::from_str("{\"subscription\":");
                crate::codec::write_decimal(n, &mut params);
                params.append(",\"result\":");
                params.append(payload_json);
                params.append("}");
                match encode_request(method, Some(params.as_str()), None) {
                    Ok(text) => Ok(Some((&self.entries[i].sink, text))),
                    Err(error) => Err(error),
                }
            },
            None => Ok(None),
        }
    }

    /// Takes note of how a delivery went. Where the sink reported that the
    /// peer has gone, the subscription is ended. Says whether the
    /// subscription is still there, so that its producer can stop when it is
    /// not.
    pub fn delivered(&mut self, id: &SubscriptionId, peer_gone: bool) -> (active: bool)
        ensures
            final(self)@.wf(),
            active == (!peer_gone && old(self)@.holds(id@)),
            match RegistryView::<K>::issued(id@) {
                Some(n) if peer_gone => final(self)@ == old(self)@.unsubscribed(n),
                _ => final(self)@ == old(self)@,
            },
    {
        proof {
            use_type_invariant(&*self);
        }
        if peer_gone {
            let _ = self.unsubscribe(id);
            false
        } else {
            self.is_subscribed(id)
        }
    }
}

/// Removing an identifier that no subscription has leaves the registry as it
/// is.
pub proof fn lemma_filter_out_none<K>(view: RegistryView<K>, id: u64)
    requires
        !view.is_bound(id),
    ensures
        view.unsubscribed(id) == view,
{
    let keep = other_than::<K>(id);
    assert forall|i: int| 0 <= i < view.entries.len() implies keep(#[trigger] view.entries[i]) by {}
    lemma_filter_keeps_all(view.entries, keep);
    assert(view.entries.filter(keep) =~= view.entries);
}

/// Removing the identifier of the subscription at `at` removes that
/// subscription and no other.
pub proof fn lemma_filter_out_one<K>(view: RegistryView<K>, id: u64, at: int)
    requires
        view.wf(),
        0 <= at < view.entries.len(),
        view.entries[at].id == id,
    ensures
        view.unsubscribed(id).entries == view.entries.remove(at),
        view.unsubscribed(id).wf(),
{
    let keep = other_than::<K>(id);
    assert forall|i: int| 0 <= i < view.entries.len() && i != at implies keep(
        #[trigger] view.entries[i],
    ) by {
        if i < at {
            assert(view.entries[i].id != view.entries[at].id);
        } else {
            assert(view.entries[at].id != view.entries[i].id);
        }
    }
    lemma_filter_single(view.entries, keep, at);
    lemma_filter_wf(view, keep);
}

proof fn lemma_filter_keeps_all<T>(s: Seq<T>, keep: spec_fn(T) -> bool)
    requires
        forall|i: int| 0 <= i < s.len() ==> keep(#[trigger] s[i]),
    ensures
        s.filter(keep) == s,
    decreases s.len(),
{
    reveal(Seq::filter);
    if s.len() > 0 {
        let init = s.drop_last();
        assert forall|i: int| 0 <= i < init.len() implies keep(#[trigger] init[i]) by {
            assert(init[i] == s[i]);
        }
        lemma_filter_keeps_all(init, keep);
        assert(init.push(s.last()) =~= s);
    } else {
        assert(s.filter(keep) =~= s);
    }
}

/// What is left of a registry when some subscriptions are taken out still
/// has no identifier twice, and holds no identifier that was not there.
pub proof fn lemma_filter_wf<K>(view: RegistryView<K>, keep: spec_fn(Entry<K>) -> bool)
    requires
        view.wf(),
    ensures
        (RegistryView { entries: view.entries.filter(keep), ..view }).wf(),
        forall|i: int|
            0 <= i < view.entries.filter(keep).len() ==> view.is_bound(
                (#[trigger] view.entries.filter(keep)[i]).id,
            ) && keep(view.entries.filter(keep)[i]),
    decreases view.entries.len(),
{
    reveal(Seq::filter);
    let s = view.entries;
    if s.len() > 0 {
        let init = s.drop_last();
        let before = RegistryView { entries: init, ..view };
        assert forall|i: int| 0 <= i < init.len() implies (#[trigger] init[i]).id
            < view.next_id by {
            assert(init[i] == s[i]);
        }
        assert forall|i: int, j: int| 0 <= i < j < init.len() implies (#[trigger] init[i]).id != (
        #[trigger] init[j]).id by {
            assert(init[i] == s[i] && init[j] == s[j]);
        }
        lemma_filter_wf(before, keep);
        let kept = init.filter(keep);
        let all = s.filter(keep);
        assert forall|i: int| 0 <= i < kept.len() implies (#[trigger] kept[i]).id != s.last().id
            && view.is_bound(kept[i].id) by {
            assert(before.is_bound(kept[i].id));
            let p = choose|p: int| 0 <= p < init.len() && (#[trigger] init[p]).id == kept[i].id;
            assert(init[p] == s[p]);
            assert(s[p].id != s[s.len() - 1].id);
        }
        assert(s[s.len() - 1] == s.last());
        assert forall|i: int| 0 <= i < all.len() implies view.is_bound((#[trigger] all[i]).id)
            && keep(all[i]) by {
            if i < kept.len() {
                assert(all[i] == kept[i]);
            }
        }
        assert forall|i: int, j: int| 0 <= i < j < all.len() implies (#[trigger] all[i]).id != (
        #[trigger] all[j]).id by {
            assert(all[i] == kept[i]);
            if j < kept.len() {
                assert(all[j] == kept[j]);
            }
        }
        assert forall|i: int| 0 <= i < all.len() implies (#[trigger] all[i]).id < view.next_id by {
            let p = choose|p: int| 0 <= p < s.len() && (#[trigger] s[p]).id == all[i].id;
        }
    }
}

proof fn lemma_filter_single<T>(s: Seq<T>, keep: spec_fn(T) -> bool, at: int)
    requires
        0 <= at < s.len(),
        !keep(s[at]),
        forall|i: int| 0 <= i < s.len() && i != at ==> keep(#[trigger] s[i]),
    ensures
        s.filter(keep) == s.remove(at),
    decreases s.len(),
{
    reveal(Seq::filter);
    let init = s.drop_last();
    if at == s.len() - 1 {
        assert forall|i: int| 0 <= i < init.len() implies keep(#[trigger] init[i]) by {
            assert(init[i] == s[i]);
        }
        lemma_filter_keeps_all(init, keep);
        assert(init.filter(keep) =~= init);
        assert(s.remove(at) =~= init);
    } else {
        assert forall|i: int| 0 <= i < init.len() && i != at implies keep(#[trigger] init[i]) by {
            assert(init[i] == s[i]);
        }
        assert(init[at] == s[at]);
        lemma_filter_single(init, keep, at);
        assert(s.remove(at) =~= init.remove(at).push(s.last()));
    }
}

/// Unsubscribing is idempotent and touches nothing else: after it the
/// identifier has no subscription, so that a second attempt finds none and
/// changes nothing; every other subscription is there as before, in the same
/// place relative to the others; and no identifier is handed out again.
pub proof fn lemma_unsubscribe<K>(view: RegistryView<K>, id: u64, other: u64)
    requires
        view.wf(),
    ensures
        !view.unsubscribed(id).is_bound(id),
        view.unsubscribed(id).unsubscribed(id) == view.unsubscribed(id),
        !view.is_bound(id) ==> view.unsubscribed(id) == view,
        other != id ==> (view.unsubscribed(id).is_bound(other) <==> view.is_bound(other)),
        other != id && view.is_bound(other) ==> view.unsubscribed(id).entries[view.unsubscribed(
            id,
        ).position(other)] == view.entries[view.position(other)],
        view.unsubscribed(id).next_id == view.next_id,
        view.unsubscribed(id).wf(),
{
    let keep = other_than::<K>(id);
    let after = view.unsubscribed(id);
    lemma_filter_wf(view, keep);
    if after.is_bound(id) {
        let i = after.position(id);
        assert(keep(after.entries[i]));
    }
    lemma_filter_out_none(after, id);
    if !view.is_bound(id) {
        lemma_filter_out_none(view, id);
    }
    if other != id {
        if view.is_bound(other) {
            let p = view.position(other);
            assert(keep(view.entries[p]));
            view.entries.lemma_filter_contains(keep, p);
            let q = choose|q: int|
                0 <= q < after.entries.len() && after.entries[q] == view.entries[p];
            assert(after.entries[q].id == other);
            assert(after.is_bound(other));
            let r = after.position(other);
            if r < q {
                assert(after.entries[r].id != after.entries[q].id);
            } else if q < r {
                assert(after.entries[q].id != after.entries[r].id);
            }
        }
        if after.is_bound(other) {
            let q = after.position(other);
            assert(view.is_bound(after.entries[q].id));
        }
    }
}

/// When a session goes, all of its subscriptions go with it and no other:
/// afterwards no subscription belongs to the session, and a subscription of
/// another session is there exactly if it was there before.
pub proof fn lemma_teardown<K>(view: RegistryView<K>, session: u64, i: int)
    requires
        view.wf(),
    ensures
        view.torn_down(session).wf(),
        0 <= i < view.torn_down(session).entries.len() ==> view.torn_down(session).entries[i].session
            != session,
        0 <= i < view.entries.len() && view.entries[i].session != session ==> view.torn_down(
            session,
        ).entries.contains(view.entries[i]),
        0 <= i < view.torn_down(session).entries.len() ==> view.entries.contains(
            view.torn_down(session).entries[i],
        ),
{
    let keep = not_owned_by::<K>(session);
    lemma_filter_wf(view, keep);
    if 0 <= i < view.entries.len() && view.entries[i].session != session {
        view.entries.lemma_filter_contains(keep, i);
    }
    if 0 <= i < view.torn_down(session).entries.len() {
        let e = view.torn_down(session).entries[i];
        assert(view.entries.filter(keep).contains(e));
        view.entries.lemma_filter_contains_rev(keep, e);
    }
}

/// An identifier is handed out once: a new subscription gets an identifier
/// that no subscription has, and that is above every identifier in use, so
/// that it was never handed out before.
pub proof fn lemma_identifiers_are_fresh<K>(view: RegistryView<K>, session: u64, sink: K, i: int)
    requires
        view.wf(),
        view.next_id < u64::MAX,
    ensures
        !view.is_bound(view.next_id),
        0 <= i < view.entries.len() ==> view.entries[i].id < view.next_id,
        view.subscribed(session, sink).wf(),
        view.subscribed(session, sink).next_id > view.next_id,
        view.subscribed(session, sink).is_bound(view.next_id),
{
    let after = view.subscribed(session, sink);
    if view.is_bound(view.next_id) {
        let p = view.position(view.next_id);
        assert(view.entries[p].id < view.next_id);
    }
    assert(after.entries[view.entries.len() as int].id == view.next_id);
    assert forall|a: int| 0 <= a < after.entries.len() implies (#[trigger] after.entries[a]).id
        < after.next_id by {
        if a < view.entries.len() {
            assert(after.entries[a] == view.entries[a]);
        }
    }
    assert forall|a: int, b: int| 0 <= a < b < after.entries.len() implies (
    #[trigger] after.entries[a]).id != (#[trigger] after.entries[b]).id by {
        assert(after.entries[a] == view.entries[a]);
        if b < view.entries.len() {
            assert(after.entries[b] == view.entries[b]);
        }
    }
}

} // verus!
