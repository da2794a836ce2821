//! Run one request to completion by serving each call with the default client of its target.

use std::sync::Arc;
use vstd::prelude::*;

use crate::driver::{responded, CallLlmRequest, Step};
use crate::error::{ErrorOf, ErrorView, Failure};
use crate::target::{share_client, Decision, RoutedRequest};
use crate::types::Response;

verus! {

/// The loop that drains a step stream: it holds the decisions seen so far.
pub struct RunLoop<D: ?Sized> {
    trace: Vec<Arc<D>>,
}

impl<D: ?Sized> View for RunLoop<D> {
    type V = Seq<Arc<D>>;

    closed spec fn view(&self) -> Seq<Arc<D>> {
        self.trace@
    }
}

/// What the host does next.
pub enum RunNext<D: ?Sized, C: ?Sized, P, E> {
    /// Pull the next step of the stream.
    Pull { run: RunLoop<D> },
    /// Have `client` serve `routed`, then answer `call` with the outcome.
    Serve {
        run: RunLoop<D>,
        client: Arc<C>,
        routed: RoutedRequest<D, C>,
        call: CallLlmRequest<D, C, P>,
    },
    /// The request is settled: the decision trace and the final response, or a failure.
    Return { outcome: Result<(Vec<Arc<D>>, Response), Failure<E>> },
}

/// `next` returns this error of the library.
pub open spec fn returns_error<D: ?Sized, C: ?Sized, P, E>(
    next: RunNext<D, C, P, E>,
    error: ErrorView,
) -> bool {
    next matches RunNext::Return { outcome } && outcome matches Err(Failure::Library(e)) && e@
        == error
}

/// `next` has the client of `call` serve its request, with `trace` seen so far.
pub open spec fn serves<D: ?Sized, C: ?Sized, P, E>(
    next: RunNext<D, C, P, E>,
    trace: Seq<Arc<D>>,
    call: CallLlmRequest<D, C, P>,
) -> bool {
    match next {
        RunNext::Serve { run, client, routed, call: answered } => {
            &&& run@ == trace
            &&& answered == call
            &&& call.routed() matches Some(asked)
            &&& asked.default_client == Some(client)
            &&& routed.request@ == asked.request@
            &&& routed.decision == asked.decision
            &&& routed.default_client == asked.default_client
        },
        _ => false,
    }
}

/// What follows an item of the stream, with `trace` seen before it. `None` is the end of the
/// stream.
pub open spec fn follows<D: Decision + ?Sized, C: ?Sized, P, E>(
    trace: Seq<Arc<D>>,
    item: Option<Result<Step<D, C, P>, Failure<E>>>,
    next: RunNext<D, C, P, E>,
) -> bool {
    match item {
        Some(Ok(Step::CallLlm(call))) => match call.routed() {
            Some(routed) => match routed.default_client {
                Some(_) => serves(next, trace, call),
                None => returns_error(next, ErrorOf::NoClient(routed.decision.model())),
            },
            None => returns_error(next, ErrorOf::RequestTypeMismatch),
        },
        Some(Ok(Step::Decision(decision))) => next matches RunNext::Pull { run } && run@
            == trace.push(decision),
        Some(Ok(Step::ReturnToAgent(response))) => {
            &&& next matches RunNext::Return { outcome }
            &&& outcome matches Ok(settled)
            &&& settled.0@ == trace
            &&& settled.1 == response
        },
        Some(Err(failure)) => next == (RunNext::<D, C, P, E>::Return { outcome: Err(failure) }),
        None => returns_error(next, ErrorOf::StreamEnded),
    }
}

impl<D: Decision + ?Sized> RunLoop<D> {
    /// A loop that has seen no step yet.
    pub fn new() -> (r: Self)
        ensures
            r@ == Seq::<Arc<D>>::empty(),
    {
        RunLoop { trace: Vec::new() }
    }

    /// Take in the next item of the stream, or its end. A decision joins the trace. A call is
    /// served by its default client, and fails the run where its target has none. The final
    /// response settles the request at once.
    pub fn on_item<C: ?Sized, P, E>(
        self,
        item: Option<Result<Step<D, C, P>, Failure<E>>>,
    ) -> (r: RunNext<D, C, P, E>)
        ensures
            follows(self@, item, r),
    {
        match item {
            Some(Ok(Step::CallLlm(call))) => {
                let routed: RoutedRequest<D, C> = match call.get_routed() {
                    Ok(routed) => routed.clone(),
                    Err(error) => {
                        return RunNext::Return { outcome: Err(Failure::Library(error)) };
                    },
                };
                match share_client(&routed.default_client) {
                    Some(client) => RunNext::Serve { run: self, client, routed, call },
                    None => {
                        let model: String = routed.decision.selected_model().to_string();
                        RunNext::Return {
                            outcome: Err(Failure::Library(ErrorOf::NoClient(model))),
                        }
                    },
                }
            },
            Some(Ok(Step::Decision(decision))) => {
                let mut trace = self.trace;
                trace.push(decision);
                RunNext::Pull { run: RunLoop { trace } }
            },
            Some(Ok(Step::ReturnToAgent(response))) => {
                RunNext::Return { outcome: Ok((self.trace, response)) }
            },
            Some(Err(failure)) => RunNext::Return { outcome: Err(failure) },
            None => RunNext::Return { outcome: Err(Failure::Library(ErrorOf::StreamEnded)) },
        }
    }

    /// Go on after a served call was answered: pull the next step, or fail where the algorithm
    /// no longer waits for the answer.
    pub fn on_served<C: ?Sized, P, E>(self, delivered: bool) -> (r: RunNext<D, C, P, E>)
        ensures
            if delivered {
                r matches RunNext::Pull { run } && run@ == self@
            } else {
                returns_error(r, ErrorOf::ReceiverDropped)
            },
    {
        match responded(delivered) {
            Ok(_) => RunNext::Pull { run: self },
            Err(error) => RunNext::Return { outcome: Err(Failure::Library(error)) },
        }
    }
}

} // verus!
