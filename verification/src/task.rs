//! The protocol between an algorithm and the host that runs it.
//!
//! An algorithm never performs a call itself. It hands the host one [`Action`] at a time, the
//! host performs it and hands back the [`Event`] that answers it.

use std::sync::Arc;
use vstd::prelude::*;

use crate::error::{Error, Failure, FailureView};
use crate::score::{score_view, Score, ScoreView};
use crate::target::{Decision, RoutedRequest, RoutedView};
use crate::types::{Context, Request, Response, Signals};

verus! {

/// What an algorithm asks of its host.
pub enum Action<D, C: ?Sized, E> {
    /// Publish a decision on the step stream.
    Publish(Arc<D>),
    /// Perform one model call.
    Call(RoutedRequest<D, C>),
    /// Perform several model calls concurrently.
    FanOut(Vec<RoutedRequest<D, C>>),
    /// Read a text as a floating-point number.
    ReadScore(String),
    /// The run is over.
    Finish(Result<Response, Failure<E>>),
}

/// What the host reports back.
pub enum Event<E> {
    /// The decision was published, or the stream refused it.
    Published(Result<(), Failure<E>>),
    /// The outcome of a model call.
    Replied(Result<Response, Failure<E>>),
    /// The outcomes of several model calls, in the order of the calls.
    AllReplied(Vec<Result<Response, Failure<E>>>),
    /// The number that a text stands for, or `None` where it stands for none.
    ScoreRead(Option<Score>),
}

/// The view of an [`Action`].
pub enum ActionView<V, C: ?Sized, E> {
    Publish(V),
    Call(RoutedView<V, C>),
    FanOut(Seq<RoutedView<V, C>>),
    ReadScore(Seq<char>),
    Finish(Result<Response, FailureView<E>>),
}

/// The view of an [`Event`].
pub enum EventView<E> {
    Published(Result<(), FailureView<E>>),
    Replied(Result<Response, FailureView<E>>),
    AllReplied(Seq<Result<Response, FailureView<E>>>),
    ScoreRead(Option<ScoreView>),
}

/// The view of a result that may hold a [`Failure`].
pub open spec fn outcome_view<T, E>(outcome: Result<T, Failure<E>>) -> Result<T, FailureView<E>> {
    match outcome {
        Ok(value) => Ok(value),
        Err(failure) => Err(failure@),
    }
}

/// The views of several results.
pub open spec fn outcome_views<T, E>(outcomes: Seq<Result<T, Failure<E>>>) -> Seq<
    Result<T, FailureView<E>>,
> {
    outcomes.map_values(|outcome: Result<T, Failure<E>>| outcome_view(outcome))
}

/// The views of several routed requests.
pub open spec fn routed_views<D: View, C: ?Sized>(calls: Seq<RoutedRequest<D, C>>) -> Seq<
    RoutedView<D::V, C>,
> {
    calls.map_values(|call: RoutedRequest<D, C>| call@)
}

impl<D: View, C: ?Sized, E> View for Action<D, C, E> {
    type V = ActionView<D::V, C, E>;

    open spec fn view(&self) -> ActionView<D::V, C, E> {
        match *self {
            Action::Publish(decision) => ActionView::Publish(decision@),
            Action::Call(call) => ActionView::Call(call@),
            Action::FanOut(calls) => ActionView::FanOut(routed_views(calls@)),
            Action::ReadScore(text) => ActionView::ReadScore(text@),
            Action::Finish(outcome) => ActionView::Finish(outcome_view(outcome)),
        }
    }
}

impl<E> View for Event<E> {
    type V = EventView<E>;

    open spec fn view(&self) -> EventView<E> {
        match *self {
            Event::Published(outcome) => EventView::Published(outcome_view(outcome)),
            Event::Replied(outcome) => EventView::Replied(outcome_view(outcome)),
            Event::AllReplied(outcomes) => EventView::AllReplied(outcome_views(outcomes@)),
            Event::ScoreRead(score) => EventView::ScoreRead(score_view(score)),
        }
    }
}

/// The kinds of answers an action can ask for.
pub enum Answer {
    /// Whether a decision was published.
    Publication,
    /// The outcome of one call.
    Reply,
    /// The outcomes of this many calls.
    Replies(nat),
    /// What number a text stands for.
    Number,
    /// None: the run is over.
    Nothing,
}

/// The answer that an action asks for.
pub open spec fn asked_by<V, C: ?Sized, E>(action: ActionView<V, C, E>) -> Answer {
    match action {
        ActionView::Publish(_) => Answer::Publication,
        ActionView::Call(_) => Answer::Reply,
        ActionView::FanOut(calls) => Answer::Replies(calls.len()),
        ActionView::ReadScore(_) => Answer::Number,
        ActionView::Finish(_) => Answer::Nothing,
    }
}

/// The answer that an event gives.
pub open spec fn answer_of<E>(event: EventView<E>) -> Answer {
    match event {
        EventView::Published(_) => Answer::Publication,
        EventView::Replied(_) => Answer::Reply,
        EventView::AllReplied(outcomes) => Answer::Replies(outcomes.len()),
        EventView::ScoreRead(_) => Answer::Number,
    }
}

/// A routing algorithm. [`create_run_task`](Algorithm::create_run_task) begins the run of one
/// request and [`resume`](Algorithm::resume) continues it with the event that answers the last
/// action. One algorithm serves many runs, whose steps may interleave.
///
/// `C` is the client type of the targets. `E` is the error type of the host.
pub trait Algorithm<C: ?Sized>: Sized {
    /// What the algorithm decides.
    type Decision: Decision + View;

    /// The state of one run between two actions.
    type Run: View;

    /// The answer that a run waits for.
    spec fn awaits(run: Self::Run) -> Answer;

    /// The state of a run is well-formed.
    spec fn run_wf(run: Self::Run) -> bool;

    /// The state of the algorithm is well-formed.
    spec fn wf(&self) -> bool;

    /// The counters of the algorithm can take in what the next event of a run may settle.
    spec fn has_room(&self, run: Self::Run) -> bool;

    /// Whether the counters of the algorithm can take in what the next event of a run may
    /// settle.
    fn can_resume(&self, run: &Self::Run) -> (r: bool)
        requires
            self.wf(),
        ensures
            r == self.has_room(*run),
    ;

    /// Begin the run of one request. The run waits for the answer that its first action asks
    /// for.
    fn create_run_task<E>(&mut self, ctx: Context, request: Request) -> (r: (
        Self::Run,
        Action<Self::Decision, C, E>,
    ))
        requires
            old(self).wf(),
        ensures
            final(self).wf(),
            Self::run_wf(r.0),
            Self::awaits(r.0) == asked_by(r.1@),
    ;

    /// Continue a run with an event that answers its last action. The run then waits for the
    /// answer that the new action asks for.
    fn resume<E>(&mut self, run: Self::Run, event: Event<E>) -> (r: (
        Self::Run,
        Action<Self::Decision, C, E>,
    ))
        requires
            Self::run_wf(run),
            Self::awaits(run) == answer_of(event@),
            old(self).wf(),
            old(self).has_room(run),
        ensures
            final(self).wf(),
            Self::run_wf(r.0),
            Self::awaits(r.0) == asked_by(r.1@),
    ;

    /// Feed the algorithm events of the agentic stack.
    fn process_signals(&mut self, signals: Signals) -> (r: Result<(), Error>)
        requires
            old(self).wf(),
        ensures
            final(self).wf(),
    ;
}

} // verus!
