//! What happens to the steps and promises that travel between an algorithm and its consumer.
//!
//! The host carries steps over a bounded channel and answers over one-shot promises. This module
//! settles what each outcome of that transport means to the two sides. Payloads travel with
//! their type erased, so the host hands in what came out of reading a payload as the type it
//! should have: `None` where it has another one.

use std::sync::Arc;
use vstd::prelude::*;

use crate::error::{Error, ErrorOf, Failure};
use crate::target::RoutedRequest;
use crate::types::{Request, Response};

verus! {

/// One item on the raw step stream.
pub enum DriverStep<Q, I, R> {
    /// A request that waits for a response.
    Request(Q),
    /// A payload that expects no response.
    Info(I),
    /// The terminal result of a producer.
    Done(R),
}

/// What became of a promise.
pub enum Reply<P, E> {
    /// The consumer fulfilled it.
    Fulfilled(Result<P, Failure<E>>),
    /// The consumer dropped it without an answer.
    Dropped,
}

/// What a producer does next to have its request fulfilled.
pub enum FulfillStep<P, T, E> {
    /// Wait for what becomes of the promise.
    Await,
    /// Read the payload as the type of the response.
    Read(P),
    /// The request is settled.
    Settled(Result<T, Failure<E>>),
}

/// What follows the offer of a request to the stream.
pub open spec fn offered<P, T, E>(accepted: bool) -> FulfillStep<P, T, E> {
    if accepted {
        FulfillStep::Await
    } else {
        FulfillStep::Settled(Err(Failure::Library(ErrorOf::StreamClosed)))
    }
}

/// What follows the fate of a promise.
pub open spec fn replied<P, T, E>(reply: Reply<P, E>) -> FulfillStep<P, T, E> {
    match reply {
        Reply::Fulfilled(Ok(payload)) => FulfillStep::Read(payload),
        Reply::Fulfilled(Err(failure)) => FulfillStep::Settled(Err(failure)),
        Reply::Dropped => FulfillStep::Settled(Err(Failure::Library(ErrorOf::PromiseDropped))),
    }
}

/// What follows the reading of a payload.
pub open spec fn read_as<P, T, E>(typed: Option<T>) -> FulfillStep<P, T, E> {
    match typed {
        Some(response) => FulfillStep::Settled(Ok(response)),
        None => FulfillStep::Settled(Err(Failure::Library(ErrorOf::ResponseTypeMismatch))),
    }
}

/// The outcome of publishing a step: an error exactly if the stream is closed.
pub fn published(accepted: bool) -> (r: Result<(), Error>)
    ensures
        r == (if accepted {
            Ok::<(), Error>(())
        } else {
            Err(ErrorOf::StreamClosed)
        }),
{
    if accepted {
        Ok(())
    } else {
        Err(ErrorOf::StreamClosed)
    }
}

/// The outcome of answering a promise: an error exactly if the producer stopped waiting.
pub fn responded(delivered: bool) -> (r: Result<(), Error>)
    ensures
        r == (if delivered {
            Ok::<(), Error>(())
        } else {
            Err(ErrorOf::ReceiverDropped)
        }),
{
    if delivered {
        Ok(())
    } else {
        Err(ErrorOf::ReceiverDropped)
    }
}

/// The payload of a request, read as the type the consumer expects.
pub fn typed_request<T>(typed: Option<T>) -> (r: Result<T, Error>)
    ensures
        r == (match typed {
            Some(request) => Ok::<T, Error>(request),
            None => Err(ErrorOf::RequestTypeMismatch),
        }),
{
    match typed {
        Some(request) => Ok(request),
        None => Err(ErrorOf::RequestTypeMismatch),
    }
}

/// A producer offered its request to the stream.
pub fn fulfill_offered<P, T, E>(accepted: bool) -> (r: FulfillStep<P, T, E>)
    ensures
        r == offered::<P, T, E>(accepted),
{
    match published(accepted) {
        Ok(_) => FulfillStep::Await,
        Err(error) => FulfillStep::Settled(Err(Failure::Library(error))),
    }
}

/// A producer learned what became of its promise. An error of the consumer is passed on as it
/// came.
pub fn fulfill_replied<P, T, E>(reply: Reply<P, E>) -> (r: FulfillStep<P, T, E>)
    ensures
        r == replied::<P, T, E>(reply),
{
    match reply {
        Reply::Fulfilled(Ok(payload)) => FulfillStep::Read(payload),
        Reply::Fulfilled(Err(failure)) => FulfillStep::Settled(Err(failure)),
        Reply::Dropped => FulfillStep::Settled(Err(Failure::Library(ErrorOf::PromiseDropped))),
    }
}

/// A producer read the payload of its response.
pub fn fulfill_read<P, T, E>(typed: Option<T>) -> (r: FulfillStep<P, T, E>)
    ensures
        r == read_as::<P, T, E>(typed),
{
    match typed {
        Some(response) => FulfillStep::Settled(Ok(response)),
        None => FulfillStep::Settled(Err(Failure::Library(ErrorOf::ResponseTypeMismatch))),
    }
}

/// A value that can be taken once: the consumer end of a step channel.
pub struct TakeOnce<R> {
    slot: Option<R>,
}

impl<R> View for TakeOnce<R> {
    type V = Option<R>;

    closed spec fn view(&self) -> Option<R> {
        self.slot
    }
}

impl<R> TakeOnce<R> {
    /// Hold a value until it is taken.
    pub fn new(value: R) -> (r: Self)
        ensures
            r@ == Some(value),
    {
        TakeOnce { slot: Some(value) }
    }

    /// Take the value. Errors exactly if it was taken before.
    pub fn take(&mut self) -> (r: Result<R, Error>)
        ensures
            final(self)@ is None,
            r == (match old(self)@ {
                Some(value) => Ok::<R, Error>(value),
                None => Err(ErrorOf::StreamAlreadyTaken),
            }),
    {
        match self.slot.take() {
            Some(value) => Ok(value),
            None => Err(ErrorOf::StreamAlreadyTaken),
        }
    }
}

/// The host-facing half of an offloaded model call: the routed request to serve and the promise
/// `P` to answer.
pub struct CallLlmRequest<D: ?Sized, C: ?Sized, P> {
    routed: Option<RoutedRequest<D, C>>,
    promise: P,
}

impl<D: ?Sized, C: ?Sized, P> CallLlmRequest<D, C, P> {
    /// The payload, read as a routed request.
    pub closed spec fn routed(&self) -> Option<RoutedRequest<D, C>> {
        self.routed
    }

    /// The promise to answer.
    pub closed spec fn promise(&self) -> P {
        self.promise
    }

    /// A call with its payload, read as a routed request, and its promise.
    pub fn new(routed: Option<RoutedRequest<D, C>>, promise: P) -> (r: Self)
        ensures
            r.routed() == routed,
            r.promise() == promise,
    {
        CallLlmRequest { routed, promise }
    }

    /// The routed request the host should serve. Errors exactly if the payload is none.
    pub fn get_routed(&self) -> (r: Result<&RoutedRequest<D, C>, Error>)
        ensures
            match r {
                Ok(routed) => self.routed() == Some(*routed),
                Err(error) => self.routed() is None && error == ErrorOf::<
                    String,
                >::RequestTypeMismatch,
            },
    {
        typed_request(self.routed.as_ref())
    }

    /// The model request to perform: the request inside the routed request.
    pub fn get_request(&self) -> (r: Result<&Request, Error>)
        ensures
            match r {
                Ok(request) => self.routed() matches Some(routed) && *request == routed.request,
                Err(error) => self.routed() is None && error == ErrorOf::<
                    String,
                >::RequestTypeMismatch,
            },
    {
        match self.get_routed() {
            Ok(routed) => Ok(&routed.request),
            Err(error) => Err(error),
        }
    }

    /// The decision that led to this call.
    pub fn get_decision(&self) -> (r: Result<&Arc<D>, Error>)
        ensures
            match r {
                Ok(decision) => self.routed() matches Some(routed) && *decision
                    == routed.decision,
                Err(error) => self.routed() is None && error == ErrorOf::<
                    String,
                >::RequestTypeMismatch,
            },
    {
        match self.get_routed() {
            Ok(routed) => Ok(&routed.decision),
            Err(error) => Err(error),
        }
    }

    /// Fulfill the promise with the outcome of the model call: hand the host the promise and
    /// what to send on it. This consumes the call, so a promise is fulfilled at most once.
    pub fn respond<E>(self, result: Result<Response, Failure<E>>) -> (r: (
        P,
        Result<Response, Failure<E>>,
    ))
        ensures
            r == (self.promise(), result),
    {
        (self.promise, result)
    }
}

/// One item of the step stream of a run.
pub enum Step<D: ?Sized, C: ?Sized, P> {
    /// The algorithm needs this model call performed.
    CallLlm(CallLlmRequest<D, C, P>),
    /// A decision the algorithm made, published as it happens.
    Decision(Arc<D>),
    /// The algorithm finished with its final response.
    ReturnToAgent(Response),
}

/// A raw item with its payloads read as the types they should have.
pub type TypedItem<D, C, P, E> = Result<
    DriverStep<(Option<RoutedRequest<D, C>>, P), Option<Arc<D>>, Option<Response>>,
    Failure<E>,
>;

/// Turn a raw item into a step. A payload that does not have the type its step expects becomes
/// an error, and an error item is passed on.
pub fn typed_step<D: ?Sized, C: ?Sized, P, E>(item: TypedItem<D, C, P, E>) -> (r: Result<
    Step<D, C, P>,
    Failure<E>,
>)
    ensures
        match item {
            Ok(DriverStep::Request((Some(routed), promise))) => r matches Ok(Step::CallLlm(call))
                && call.routed() == Some(routed) && call.promise() == promise,
            Ok(DriverStep::Request((None, _))) => r == Err::<Step<D, C, P>, Failure<E>>(
                Failure::Library(ErrorOf::RequestTypeMismatch),
            ),
            Ok(DriverStep::Info(Some(decision))) => r == Ok::<Step<D, C, P>, Failure<E>>(
                Step::Decision(decision),
            ),
            Ok(DriverStep::Info(None)) => r == Err::<Step<D, C, P>, Failure<E>>(
                Failure::Library(ErrorOf::InfoNotDecision),
            ),
            Ok(DriverStep::Done(Some(response))) => r == Ok::<Step<D, C, P>, Failure<E>>(
                Step::ReturnToAgent(response),
            ),
            Ok(DriverStep::Done(None)) => r == Err::<Step<D, C, P>, Failure<E>>(
                Failure::Library(ErrorOf::DoneNotResponse),
            ),
            Err(failure) => r == Err::<Step<D, C, P>, Failure<E>>(failure),
        },
{
    match item {
        Ok(DriverStep::Request((payload, promise))) => match typed_request(payload) {
            Ok(routed) => Ok(Step::CallLlm(CallLlmRequest::new(Some(routed), promise))),
            Err(error) => Err(Failure::Library(error)),
        },
        Ok(DriverStep::Info(payload)) => match payload {
            Some(decision) => Ok(Step::Decision(decision)),
            None => Err(Failure::Library(ErrorOf::InfoNotDecision)),
        },
        Ok(DriverStep::Done(payload)) => match payload {
            Some(response) => Ok(Step::ReturnToAgent(response)),
            None => Err(Failure::Library(ErrorOf::DoneNotResponse)),
        },
        Err(failure) => Err(failure),
    }
}

/// The terminal item of a run: the final response on success, an error item on failure.
pub fn terminal_item<Q, I, E>(outcome: Result<Response, Failure<E>>) -> (r: Result<
    DriverStep<Q, I, Response>,
    Failure<E>,
>)
    ensures
        r == (match outcome {
            Ok(response) => Ok::<DriverStep<Q, I, Response>, Failure<E>>(
                DriverStep::Done(response),
            ),
            Err(failure) => Err(failure),
        }),
{
    match outcome {
        Ok(response) => Ok(DriverStep::Done(response)),
        Err(failure) => Err(failure),
    }
}

} // verus!
