//! Random router: choose one target of the set uniformly at random and call it.

use std::sync::Arc;
use vstd::pervasive::unreached;
use vstd::prelude::*;

use ::rand::seq::SliceRandom;

use crate::draws::{one_draw, Draw, Draws};
use crate::error::{Error, ErrorOf, Failure, FailureView};
use crate::target::{Decision, LlmTarget, LlmTargetSet, RoutedRequest, RoutedView};
use crate::task::{Action, ActionView, Algorithm, Answer, Event, EventView};
use crate::types::{Context, Request, RequestView, Signals};

verus! {

/// One target of a list, chosen by `rand::seq::SliceRandom::choose` with the generator of
/// `rand::thread_rng`. It draws one index below the length of the list and returns the element
/// there; for an empty list it draws nothing and returns `None`. The draw joins the record
/// `draws`. That every index is as likely as any other is not stated: which one is drawn is left
/// to chance.
#[verifier::external_body]
fn choose_target<'a, C: ?Sized>(targets: &'a [LlmTarget<C>], draws: &mut Draws) -> (r: Option<
    &'a LlmTarget<C>,
>)
    ensures
        r is None <==> targets@.len() == 0,
        r matches Some(target) ==> targets@.contains(*target),
        targets@.len() == 0 ==> final(draws)@ == old(draws)@,
        r matches Some(target) ==> one_draw(old(draws)@, final(draws)@, targets@.len())
            && *target == targets@[final(draws)@.last().index as int],
{
    targets.choose(&mut ::rand::thread_rng())
}

/// Decision produced by [`RandomOrchAlgo`]: which target was chosen and why.
pub struct RandomDecision {
    /// The randomly selected target.
    pub selected_model: String,
    /// Human-readable explanation of the choice.
    pub reasoning: String,
}

/// The view of a [`RandomDecision`].
#[verifier::ext_equal]
pub struct RandomDecisionView {
    pub selected_model: Seq<char>,
    pub reasoning: Seq<char>,
}

impl View for RandomDecision {
    type V = RandomDecisionView;

    open spec fn view(&self) -> RandomDecisionView {
        RandomDecisionView { selected_model: self.selected_model@, reasoning: self.reasoning@ }
    }
}

impl Decision for RandomDecision {
    open spec fn model(&self) -> Seq<char> {
        self.selected_model@
    }

    open spec fn explanation(&self) -> Option<Seq<char>> {
        Some(self.reasoning@)
    }

    fn selected_model(&self) -> (r: &str) {
        self.selected_model.as_str()
    }

    fn reasoning(&self) -> (r: Option<&str>) {
        Some(self.reasoning.as_str())
    }
}

/// The decision for a chosen target.
pub open spec fn random_decision(selected: Seq<char>) -> RandomDecisionView {
    RandomDecisionView {
        selected_model: selected,
        reasoning: "random routing selected target '"@ + selected + "'"@,
    }
}

/// Uniform random router over a target set.
pub struct RandomOrchAlgo<C: ?Sized> {
    target_set: LlmTargetSet<C>,
    /// The draws made for the requests so far.
    draws: Draws,
}

impl<C: ?Sized> View for RandomOrchAlgo<C> {
    type V = Seq<LlmTarget<C>>;

    closed spec fn view(&self) -> Seq<LlmTarget<C>> {
        self.target_set@
    }
}

/// One request on its way through the random router, between two actions. A host holds it and
/// hands it back; only the router makes one.
pub struct RandomRun<C: ?Sized> {
    state: RandomState<C>,
}

/// Where a run stands.
enum RandomState<C: ?Sized> {
    /// The decision is being published; `call` comes next.
    Announcing { call: RoutedRequest<RandomDecision, C> },
    /// The chosen target was called.
    Calling,
    /// The run is over.
    Done,
}

/// The view of a [`RandomRun`].
pub enum RandomRunView<C: ?Sized> {
    Announcing { call: RoutedView<RandomDecisionView, C> },
    Calling,
    Done,
}

impl<C: ?Sized> View for RandomRun<C> {
    type V = RandomRunView<C>;

    closed spec fn view(&self) -> RandomRunView<C> {
        match self.state {
            RandomState::Announcing { call } => RandomRunView::Announcing { call: call@ },
            RandomState::Calling => RandomRunView::Calling,
            RandomState::Done => RandomRunView::Done,
        }
    }
}

/// What a step of the random router leads to: the run and the next action.
pub type RandomNext<C, E> = (RandomRunView<C>, ActionView<RandomDecisionView, C, E>);

/// The run ends with a failure.
pub open spec fn failed<C: ?Sized, E>(failure: FailureView<E>) -> RandomNext<C, E> {
    (RandomRunView::Done, ActionView::Finish(Err(failure)))
}

/// A target was chosen, or none where there is none to choose: the decision is published and
/// the request, as it came, is to be routed to the target.
pub open spec fn routed<C: ?Sized, E>(
    chosen: Option<LlmTarget<C>>,
    request: RequestView,
) -> RandomNext<C, E> {
    match chosen {
        Some(target) => {
            let decision = random_decision(target.semantic_name@);
            (
                RandomRunView::Announcing {
                    call: RoutedView { request, decision, default_client: target.llm_client },
                },
                ActionView::Publish(decision),
            )
        },
        None => failed(FailureView::Library(ErrorOf::NoTargets)),
    }
}

/// How a run continues after an event.
pub open spec fn resumed<C: ?Sized, E>(
    run: RandomRunView<C>,
    event: EventView<E>,
) -> RandomNext<C, E> {
    match (run, event) {
        (RandomRunView::Announcing { call }, EventView::Published(outcome)) => match outcome {
            Ok(_) => (RandomRunView::Calling, ActionView::Call(call)),
            Err(failure) => failed(failure),
        },
        (RandomRunView::Calling, EventView::Replied(reply)) => (
            RandomRunView::Done,
            ActionView::Finish(reply),
        ),
        _ => arbitrary(),
    }
}

/// The answer that a run waits for.
pub open spec fn random_awaits<C: ?Sized>(run: RandomRunView<C>) -> Answer {
    match run {
        RandomRunView::Announcing { .. } => Answer::Publication,
        RandomRunView::Calling => Answer::Reply,
        RandomRunView::Done => Answer::Nothing,
    }
}

/// Begin the run of a request with the target that was chosen for it, or end it where there
/// was none to choose.
pub fn route_to<C: ?Sized, E>(chosen: Option<LlmTarget<C>>, request: Request) -> (r: (
    RandomRun<C>,
    Action<RandomDecision, C, E>,
))
    ensures
        (r.0@, r.1@) == routed::<C, E>(chosen, request@),
{
    match chosen {
        Some(target) => {
            let selected: String = target.semantic_name.clone();
            let mut reasoning = "random routing selected target '".to_string();
            reasoning.append(selected.as_str());
            reasoning.append("'");
            let decision = Arc::new(RandomDecision { selected_model: selected, reasoning });
            let call = RoutedRequest::to_target(&target, request, decision.clone());
            (
                RandomRun { state: RandomState::Announcing { call } },
                Action::Publish(decision),
            )
        },
        None => (
            RandomRun { state: RandomState::Done },
            Action::Finish(Err(Failure::Library(ErrorOf::NoTargets))),
        ),
    }
}

impl<C: ?Sized> RandomOrchAlgo<C> {
    /// Create a router over `target_set`.
    pub fn new(target_set: LlmTargetSet<C>) -> (r: Self)
        ensures
            r@ == target_set@,
            r.draws() == Seq::<Draw>::empty(),
    {
        RandomOrchAlgo { target_set, draws: Draws::new() }
    }

    /// The draws this router has made, in order.
    pub closed spec fn draws(&self) -> Seq<Draw> {
        self.draws@
    }

    /// The targets this router chooses among.
    pub fn get_target_set(&self) -> (r: LlmTargetSet<C>)
        ensures
            r@ == self@,
    {
        self.target_set.clone()
    }

    /// Choose a target at random, if there is one: draw one index below the number of targets
    /// and take the target there.
    pub fn select(&mut self) -> (r: Option<LlmTarget<C>>)
        ensures
            final(self)@ == old(self)@,
            r is None <==> old(self)@.len() == 0,
            r matches Some(target) ==> old(self)@.contains(target),
            old(self)@.len() == 0 ==> final(self).draws() == old(self).draws(),
            r matches Some(target) ==> one_draw(
                old(self).draws(),
                final(self).draws(),
                old(self)@.len(),
            ) && target == old(self)@[final(self).draws().last().index as int],
    {
        match choose_target(self.target_set.targets(), &mut self.draws) {
            Some(target) => Some(target.clone()),
            None => None,
        }
    }
}

impl<C: ?Sized> Algorithm<C> for RandomOrchAlgo<C> {
    type Decision = RandomDecision;

    type Run = RandomRun<C>;

    open spec fn awaits(run: RandomRun<C>) -> Answer {
        random_awaits(run@)
    }

    open spec fn run_wf(run: RandomRun<C>) -> bool {
        true
    }

    open spec fn wf(&self) -> bool {
        true
    }

    open spec fn has_room(&self, run: RandomRun<C>) -> bool {
        true
    }

    fn can_resume(&self, run: &RandomRun<C>) -> (r: bool) {
        true
    }

    fn create_run_task<E>(&mut self, ctx: Context, request: Request) -> (r: (
        RandomRun<C>,
        Action<RandomDecision, C, E>,
    ))
        ensures
            final(self)@ == old(self)@,
            exists|chosen: Option<LlmTarget<C>>|
                {
                    &&& chosen is None <==> old(self)@.len() == 0
                    &&& chosen matches Some(target) ==> old(self)@.contains(target)
                    &&& (r.0@, r.1@) == #[trigger] routed::<C, E>(chosen, request@)
                },
            old(self)@.len() == 0 ==> {
                &&& final(self).draws() == old(self).draws()
                &&& (r.0@, r.1@) == routed::<C, E>(None, request@)
            },
            old(self)@.len() > 0 ==> {
                &&& one_draw(old(self).draws(), final(self).draws(), old(self)@.len())
                &&& (r.0@, r.1@) == routed::<C, E>(
                    Some(old(self)@[final(self).draws().last().index as int]),
                    request@,
                )
            },
    {
        let chosen = self.select();
        route_to(chosen, request)
    }

    fn resume<E>(&mut self, run: RandomRun<C>, event: Event<E>) -> (r: (
        RandomRun<C>,
        Action<RandomDecision, C, E>,
    ))
        ensures
            final(self)@ == old(self)@,
            final(self).draws() == old(self).draws(),
            (r.0@, r.1@) == resumed::<C, E>(run@, event@),
    {
        match (run.state, event) {
            (RandomState::Announcing { call }, Event::Published(outcome)) => match outcome {
                Ok(_) => (
                    RandomRun { state: RandomState::Calling },
                    Action::Call(call),
                ),
                Err(failure) => (
                    RandomRun { state: RandomState::Done },
                    Action::Finish(Err(failure)),
                ),
            },
            (RandomState::Calling, Event::Replied(reply)) => (
                RandomRun { state: RandomState::Done },
                Action::Finish(reply),
            ),
            _ => unreached(),
        }
    }

    fn process_signals(&mut self, signals: Signals) -> (r: Result<(), Error>)
        ensures
            r == Ok::<(), Error>(()),
            final(self)@ == old(self)@,
    {
        Ok(())
    }
}

} // verus!
