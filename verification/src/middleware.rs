//! Interceptors around the dispatch of a request.

use crate::types::Request;
use vstd::prelude::*;

verus! {

/// What an interceptor decides when a request reaches it. `R` is what a
/// pipeline answers with: the response where the dispatch is immediate, or
/// whatever stands for a response that is still under way.
pub enum Decision<M, R> {
    /// It answers the request itself; the rest of the pipeline is not
    /// consulted.
    Respond(R),
    /// It hands this request and metadata on to the rest of the pipeline.
    Forward(Request, M),
}

/// An interceptor around the dispatch of a request.
///
/// What an interceptor does is described by three functions of the request:
/// what it decides, what it makes of the answer that comes back, and how many
/// interceptors the request reaches within it. An interceptor that does not
/// say leaves them open.
pub trait Middleware<M, R>: Sized {
    /// What the interceptor decides for a request.
    open spec fn decide(&self, request: Request, meta: M) -> Decision<M, R> {
        arbitrary()
    }

    /// What the interceptor makes of the answer of the rest of the pipeline
    /// to a request that it handed on.
    open spec fn finish(&self, request: Request, meta: M, inner: R) -> R {
        arbitrary()
    }

    /// How many interceptors the request reaches within this one.
    open spec fn reached(&self, request: Request, meta: M) -> nat {
        1
    }

    /// Handles a request: answers it, or hands it to `next` and answers with
    /// what it makes of the result.
    fn on_request<F>(&self, request: Request, meta: M, next: F) -> (response: R)
        where F: FnOnce(Request, M) -> R
        requires
            self.decide(request, meta) matches Decision::Forward(rq, m) ==> call_requires(
                next,
                (rq, m),
            ),
        ensures
            match self.decide(request, meta) {
                Decision::Respond(answer) => response == answer,
                Decision::Forward(rq, m) => exists|inner: R|
                    #[trigger] call_ensures(next, (rq, m), inner) && response == self.finish(
                        request,
                        meta,
                        inner,
                    ),
            },
    ;
}

/// The interceptor that does nothing: it hands every request on and answers
/// with the answer it gets.
pub struct Noop;

impl<M, R> Middleware<M, R> for Noop {
    open spec fn decide(&self, request: Request, meta: M) -> Decision<M, R> {
        Decision::Forward(request, meta)
    }

    open spec fn finish(&self, request: Request, meta: M, inner: R) -> R {
        inner
    }

    open spec fn reached(&self, request: Request, meta: M) -> nat {
        1
    }

    fn on_request<F>(&self, request: Request, meta: M, next: F) -> (response: R)
        where F: FnOnce(Request, M) -> R
    {
        next(request, meta)
    }
}

impl<M, R, A: Middleware<M, R>, B: Middleware<M, R>> Middleware<M, R> for (A, B) {
    open spec fn decide(&self, request: Request, meta: M) -> Decision<M, R> {
        match self.0.decide(request, meta) {
            Decision::Respond(answer) => Decision::Respond(answer),
            Decision::Forward(rq, m) => match self.1.decide(rq, m) {
                Decision::Respond(answer) => Decision::Respond(
                    self.0.finish(request, meta, answer),
                ),
                Decision::Forward(rq2, m2) => Decision::Forward(rq2, m2),
            },
        }
    }

    open spec fn finish(&self, request: Request, meta: M, inner: R) -> R {
        match self.0.decide(request, meta) {
            Decision::Respond(answer) => answer,
            Decision::Forward(rq, m) => self.0.finish(request, meta, self.1.finish(rq, m, inner)),
        }
    }

    open spec fn reached(&self, request: Request, meta: M) -> nat {
        match self.0.decide(request, meta) {
            Decision::Respond(_) => self.0.reached(request, meta),
            Decision::Forward(rq, m) => self.0.reached(request, meta) + self.1.reached(rq, m),
        }
    }

    fn on_request<F>(&self, request: Request, meta: M, next: F) -> (response: R)
        where F: FnOnce(Request, M) -> R
    {
        let second = &self.1;
        let inner = move |rq: Request, m: M| -> (r: R)
            requires
                second.decide(rq, m) matches Decision::Forward(rq2, m2) ==> call_requires(
                    next,
                    (rq2, m2),
                ),
            ensures
                match second.decide(rq, m) {
                    Decision::Respond(answer) => r == answer,
                    Decision::Forward(rq2, m2) => exists|inner: R|
                        #[trigger] call_ensures(next, (rq2, m2), inner) && r == second.finish(
                            rq,
                            m,
                            inner,
                        ),
                },
            { second.on_request(rq, m, next) };
        self.0.on_request(request, meta, inner)
    }
}

impl<M, R, A: Middleware<M, R>, B: Middleware<M, R>, C: Middleware<M, R>> Middleware<M, R> for (A, B, C) {
    open spec fn decide(&self, request: Request, meta: M) -> Decision<M, R> {
        (self.0, (self.1, self.2)).decide(request, meta)
    }

    open spec fn finish(&self, request: Request, meta: M, inner: R) -> R {
        (self.0, (self.1, self.2)).finish(request, meta, inner)
    }

    open spec fn reached(&self, request: Request, meta: M) -> nat {
        (self.0, (self.1, self.2)).reached(request, meta)
    }

    fn on_request<F>(&self, request: Request, meta: M, next: F) -> (response: R)
        where F: FnOnce(Request, M) -> R
    {
        let second = &self.1;
        let third = &self.2;
        let innermost = move |rq: Request, m: M| -> (r: R)
            requires
                third.decide(rq, m) matches Decision::Forward(rq2, m2) ==> call_requires(
                    next,
                    (rq2, m2),
                ),
            ensures
                match third.decide(rq, m) {
                    Decision::Respond(answer) => r == answer,
                    Decision::Forward(rq2, m2) => exists|inner: R|
                        #[trigger] call_ensures(next, (rq2, m2), inner) && r == third.finish(
                            rq,
                            m,
                            inner,
                        ),
                },
            { third.on_request(rq, m, next) };
        let inner = move |rq: Request, m: M| -> (r: R)
            requires
                (*second, *third).decide(rq, m) matches Decision::Forward(rq2, m2)
                    ==> call_requires(next, (rq2, m2)),
            ensures
                match (*second, *third).decide(rq, m) {
                    Decision::Respond(answer) => r == answer,
                    Decision::Forward(rq2, m2) => exists|inner: R|
                        #[trigger] call_ensures(next, (rq2, m2), inner) && r == (
                            *second,
                            *third,
                        ).finish(rq, m, inner),
                },
            { second.on_request(rq, m, innermost) };
        self.0.on_request(request, meta, inner)
    }
}

impl<M, R, A: Middleware<M, R>, B: Middleware<M, R>, C: Middleware<M, R>, D: Middleware<M, R>> Middleware<M, R> for (A, B, C, D) {
    open spec fn decide(&self, request: Request, meta: M) -> Decision<M, R> {
        (self.0, (self.1, self.2, self.3)).decide(request, meta)
    }

    open spec fn finish(&self, request: Request, meta: M, inner: R) -> R {
        (self.0, (self.1, self.2, self.3)).finish(request, meta, inner)
    }

    open spec fn reached(&self, request: Request, meta: M) -> nat {
        (self.0, (self.1, self.2, self.3)).reached(request, meta)
    }

    fn on_request<F>(&self, request: Request, meta: M, next: F) -> (response: R)
        where F: FnOnce(Request, M) -> R
    {
        let second = &self.1;
        let third = &self.2;
        let fourth = &self.3;
        let innermost = move |rq: Request, m: M| -> (r: R)
            requires
                fourth.decide(rq, m) matches Decision::Forward(rq2, m2) ==> call_requires(
                    next,
                    (rq2, m2),
                ),
            ensures
                match fourth.decide(rq, m) {
                    Decision::Respond(answer) => r == answer,
                    Decision::Forward(rq2, m2) => exists|inner: R|
                        #[trigger] call_ensures(next, (rq2, m2), inner) && r == fourth.finish(
                            rq,
                            m,
                            inner,
                        ),
                },
            { fourth.on_request(rq, m, next) };
        let middle = move |rq: Request, m: M| -> (r: R)
            requires
                (*third, *fourth).decide(rq, m) matches Decision::Forward(rq2, m2)
                    ==> call_requires(next, (rq2, m2)),
            ensures
                match (*third, *fourth).decide(rq, m) {
                    Decision::Respond(answer) => r == answer,
                    Decision::Forward(rq2, m2) => exists|inner: R|
                        #[trigger] call_ensures(next, (rq2, m2), inner) && r == (
                            *third,
                            *fourth,
                        ).finish(rq, m, inner),
                },
            { third.on_request(rq, m, innermost) };
        let inner = move |rq: Request, m: M| -> (r: R)
            requires
                (*second, *third, *fourth).decide(rq, m) matches Decision::Forward(rq2, m2)
                    ==> call_requires(next, (rq2, m2)),
            ensures
                match (*second, *third, *fourth).decide(rq, m) {
                    Decision::Respond(answer) => r == answer,
                    Decision::Forward(rq2, m2) => exists|inner: R|
                        #[trigger] call_ensures(next, (rq2, m2), inner) && r == (
                            *second,
                            *third,
                            *fourth,
                        ).finish(rq, m, inner),
                },
            { second.on_request(rq, m, middle) };
        self.0.on_request(request, meta, inner)
    }
}

/// What the interceptors of a list decide for a request, from position
/// `from` on: the first of them that answers decides, and those before it
/// make of its answer what they make of any; where none answers, the request
/// goes on as the last of them hands it on.
pub open spec fn chain_decide<M, R, T: Middleware<M, R>>(
    list: Seq<T>,
    from: int,
    request: Request,
    meta: M,
) -> Decision<M, R>
    decreases list.len() - from,
{
    if from < 0 || from >= list.len() {
        Decision::Forward(request, meta)
    } else {
        match list[from].decide(request, meta) {
            Decision::Respond(answer) => Decision::Respond(answer),
            Decision::Forward(rq, m) => match chain_decide(list, from + 1, rq, m) {
                Decision::Respond(answer) => Decision::Respond(
                    list[from].finish(request, meta, answer),
                ),
                Decision::Forward(rq2, m2) => Decision::Forward(rq2, m2),
            },
        }
    }
}

/// What the interceptors of a list, from position `from` on, make of the
/// answer to a request that they handed on: each makes of it what it makes,
/// the last first.
pub open spec fn chain_finish<M, R, T: Middleware<M, R>>(
    list: Seq<T>,
    from: int,
    request: Request,
    meta: M,
    inner: R,
) -> R
    decreases list.len() - from,
{
    if from < 0 || from >= list.len() {
        inner
    } else {
        match list[from].decide(request, meta) {
            Decision::Respond(answer) => answer,
            Decision::Forward(rq, m) => list[from].finish(
                request,
                meta,
                chain_finish(list, from + 1, rq, m, inner),
            ),
        }
    }
}

/// How many interceptors a request reaches in a list, from position `from`
/// on.
pub open spec fn chain_reached<M, R, T: Middleware<M, R>>(
    list: Seq<T>,
    from: int,
    request: Request,
    meta: M,
) -> nat
    decreases list.len() - from,
{
    if from < 0 || from >= list.len() {
        0
    } else {
        match list[from].decide(request, meta) {
            Decision::Respond(_) => list[from].reached(request, meta),
            Decision::Forward(rq, m) => list[from].reached(request, meta) + chain_reached(
                list,
                from + 1,
                rq,
                m,
            ),
        }
    }
}

/// A pipeline of any length, built at run time: interceptors of one type, in
/// the order in which requests reach them.
pub struct Chain<T> {
    pub interceptors: Vec<T>,
}

impl<T> Chain<T> {
    /// A pipeline without interceptors.
    pub fn new() -> (chain: Self)
        ensures
            chain.interceptors@ == Seq::<T>::empty(),
    {
        Chain { interceptors: Vec::new() }
    }

    /// Puts an interceptor behind those that are there.
    pub fn push(&mut self, interceptor: T)
        ensures
            final(self).interceptors@ == old(self).interceptors@.push(interceptor),
    {
        self.interceptors.push(interceptor);
    }

    /// The number of interceptors.
    pub fn len(&self) -> (n: usize)
        ensures
            n == self.interceptors@.len(),
    {
        self.interceptors.len()
    }

    /// Runs a request through the interceptors from position `from` on, with
    /// `next` behind the last of them. From a position behind the last, the
    /// request goes to `next` as it is.
    pub fn run_from<M, R, F>(&self, from: usize, request: Request, meta: M, next: F) -> (response:
        R)
        where T: Middleware<M, R>, F: FnOnce(Request, M) -> R
        requires
            chain_decide(self.interceptors@, from as int, request, meta) matches Decision::Forward(
                rq,
                m,
            ) ==> call_requires(next, (rq, m)),
        ensures
            match chain_decide(self.interceptors@, from as int, request, meta) {
                Decision::Respond(answer) => response == answer,
                Decision::Forward(rq, m) => exists|inner: R|
                    #[trigger] call_ensures(next, (rq, m), inner) && response == chain_finish(
                        self.interceptors@,
                        from as int,
                        request,
                        meta,
                        inner,
                    ),
            },
        decreases self.interceptors.len() - from,
    {
        if from >= self.interceptors.len() {
            next(request, meta)
        } else {
            let rest = move |rq: Request, m: M| -> (r: R)
                requires
                    from < self.interceptors.len(),
                    chain_decide(self.interceptors@, from + 1, rq, m) matches Decision::Forward(
                        rq2,
                        m2,
                    ) ==> call_requires(next, (rq2, m2)),
                ensures
                    match chain_decide(self.interceptors@, from + 1, rq, m) {
                        Decision::Respond(answer) => r == answer,
                        Decision::Forward(rq2, m2) => exists|inner: R|
                            #[trigger] call_ensures(next, (rq2, m2), inner) && r == chain_finish(
                                self.interceptors@,
                                from + 1,
                                rq,
                                m,
                                inner,
                            ),
                    },
                { self.run_from(from + 1, rq, m, next) };
            self.interceptors[from].on_request(request, meta, rest)
        }
    }
}

impl<M, R, T: Middleware<M, R>> Middleware<M, R> for Chain<T> {
    open spec fn decide(&self, request: Request, meta: M) -> Decision<M, R> {
        chain_decide(self.interceptors@, 0, request, meta)
    }

    open spec fn finish(&self, request: Request, meta: M, inner: R) -> R {
        chain_finish(self.interceptors@, 0, request, meta, inner)
    }

    open spec fn reached(&self, request: Request, meta: M) -> nat {
        chain_reached(self.interceptors@, 0, request, meta)
    }

    fn on_request<F>(&self, request: Request, meta: M, next: F) -> (response: R)
        where F: FnOnce(Request, M) -> R
    {
        self.run_from(0, request, meta, next)
    }
}

/// A list is the composition of its interceptors: a list of none hands every
/// request on as it is, as the interceptor that does nothing does, and a
/// list of two behaves as the pair. They
/// decide the same, a request reaches as many interceptors, and what they
/// make of the answer to a request that they hand on is the same.
pub proof fn lemma_chain_is_composition<M, R, T: Middleware<M, R>>(
    list: Seq<T>,
    request: Request,
    meta: M,
    inner: R,
)
    ensures
        list.len() == 0 ==> chain_decide(list, 0, request, meta) == Decision::<M, R>::Forward(
            request,
            meta,
        )
            && chain_finish(list, 0, request, meta, inner) == inner,
        list.len() == 2 ==> chain_decide(list, 0, request, meta) == (list[0], list[1]).decide(
            request,
            meta,
        ) && chain_reached(list, 0, request, meta) == (list[0], list[1]).reached(request, meta),
        list.len() == 2 && (list[0], list[1]).decide(request, meta) is Forward ==> chain_finish(
            list,
            0,
            request,
            meta,
            inner,
        ) == (list[0], list[1]).finish(request, meta, inner),
{
    if list.len() == 2 {
        reveal_with_fuel(chain_decide, 3);
        reveal_with_fuel(chain_finish, 3);
        reveal_with_fuel(chain_reached, 3);
    }
}

/// In a list too, an interceptor that answers a request itself cuts the
/// pipeline short: its answer is the answer from its position on, and no
/// interceptor behind it is reached.
pub proof fn lemma_chain_short_circuit<M, R, T: Middleware<M, R>>(
    list: Seq<T>,
    at: int,
    request: Request,
    meta: M,
)
    requires
        0 <= at < list.len(),
        list[at].decide(request, meta) is Respond,
    ensures
        chain_decide(list, at, request, meta) == list[at].decide(request, meta),
        chain_reached(list, at, request, meta) == list[at].reached(request, meta),
{
}

/// Composition is associative: three interceptors behave the same whether
/// the first two or the last two are grouped, and the same as the three in a
/// row. Either way a request reaches them in the order first, second, third,
/// stops at the same one, and the answer is the same.
pub proof fn lemma_composition_is_associative<
    M,
    R,
    A: Middleware<M, R>,
    B: Middleware<M, R>,
    C: Middleware<M, R>,
>(a: A, b: B, c: C, request: Request, meta: M, inner: R)
    ensures
        ((a, b), c).decide(request, meta) == (a, (b, c)).decide(request, meta),
        ((a, b), c).finish(request, meta, inner) == (a, (b, c)).finish(request, meta, inner),
        ((a, b), c).reached(request, meta) == (a, (b, c)).reached(request, meta),
        (a, b, c).decide(request, meta) == (a, (b, c)).decide(request, meta),
        (a, b, c).finish(request, meta, inner) == (a, (b, c)).finish(request, meta, inner),
        (a, b, c).reached(request, meta) == (a, (b, c)).reached(request, meta),
{
}

/// The interceptor that does nothing changes nothing: put before or after
/// another interceptor, it leaves that one's decision and answer as they are.
pub proof fn lemma_noop_is_neutral<M, R, A: Middleware<M, R>>(
    a: A,
    request: Request,
    meta: M,
    inner: R,
)
    ensures
        (Noop, a).decide(request, meta) == a.decide(request, meta),
        (a, Noop).decide(request, meta) == a.decide(request, meta),
        a.decide(request, meta) is Forward ==> (Noop, a).finish(request, meta, inner) == a.finish(
            request,
            meta,
            inner,
        ) && (a, Noop).finish(request, meta, inner) == a.finish(request, meta, inner),
{
}

/// An interceptor that answers a request itself cuts the pipeline short:
/// the interceptors behind it are not reached, and its answer is the answer
/// of the pipeline.
pub proof fn lemma_short_circuit<M, R, A: Middleware<M, R>, B: Middleware<M, R>>(
    a: A,
    b: B,
    request: Request,
    meta: M,
)
    requires
        a.decide(request, meta) is Respond,
    ensures
        (a, b).decide(request, meta) == a.decide(request, meta),
        (a, b).reached(request, meta) == a.reached(request, meta),
{
}

} // verus!
