//! Ensemble router: fan out to candidates, judge the best, then commit.
//!
//! Each request is fanned out to a set of candidate models. A judge model then picks the best
//! response, which is returned to the agent. The algorithm tallies which candidate the judge
//! preferred and, after `exploration_turns` turns, commits to the winningest model: every later
//! request goes straight to that model, with no fan-out and no judge call.
//!
//! Every decision is published as it is made: the candidates', the judge's and the committed
//! model's before they are called, the winner's before its response is returned.

use std::sync::Arc;
use vstd::multiset::Multiset;
use vstd::pervasive::unreached;
use vstd::prelude::*;

use crate::error::{Error, ErrorOf, ErrorView, Failure, FailureView};
use crate::tally::WinTally;
use crate::target::{find_target, Decision, LlmTarget, LlmTargetSet, RoutedRequest, RoutedView};
use crate::task::{
    outcome_view, outcome_views, routed_views, Action, ActionView, Algorithm, Answer, Event,
    EventView,
};
use crate::text::{decimal, decimal_text, first_number, first_number_up_to, string_views};
use crate::types::{Context, Request, RequestView, Response, Signals};

verus! {

/// Which step of the ensemble flow produced a decision.
#[derive(Clone, Copy, Debug, PartialEq, Eq, Structural)]
pub enum EnsemblePhase {
    /// A fan-out call to one candidate model during an exploration turn.
    Candidate,
    /// The judge call that scores the candidate responses.
    Judge,
    /// The candidate selected on an exploration turn.
    Winner,
    /// The single model the algorithm committed to after exploration.
    Committed,
}

/// The name of a phase.
pub open spec fn phase_name(phase: EnsemblePhase) -> Seq<char> {
    match phase {
        EnsemblePhase::Candidate => "candidate"@,
        EnsemblePhase::Judge => "judge"@,
        EnsemblePhase::Winner => "winner"@,
        EnsemblePhase::Committed => "committed"@,
    }
}

impl EnsemblePhase {
    /// Stable string form of the phase.
    pub fn as_str(self) -> (r: &'static str)
        ensures
            r@ == phase_name(self),
    {
        match self {
            EnsemblePhase::Candidate => "candidate",
            EnsemblePhase::Judge => "judge",
            EnsemblePhase::Winner => "winner",
            EnsemblePhase::Committed => "committed",
        }
    }
}

/// Decision produced at each step of the ensemble flow.
pub struct EnsembleDecision {
    /// The model this step concerns: a candidate, the judge, the winner or the committed model.
    pub selected_model: String,
    /// Human-readable explanation of the step.
    pub reasoning: String,
    /// Which step of the ensemble flow produced this decision.
    pub phase: EnsemblePhase,
}

/// The view of an [`EnsembleDecision`].
#[verifier::ext_equal]
pub struct EnsembleDecisionView {
    pub selected_model: Seq<char>,
    pub reasoning: Seq<char>,
    pub phase: EnsemblePhase,
}

impl View for EnsembleDecision {
    type V = EnsembleDecisionView;

    open spec fn view(&self) -> EnsembleDecisionView {
        EnsembleDecisionView {
            selected_model: self.selected_model@,
            reasoning: self.reasoning@,
            phase: self.phase,
        }
    }
}

impl Decision for EnsembleDecision {
    open spec fn model(&self) -> Seq<char> {
        self.selected_model@
    }

    open spec fn explanation(&self) -> Option<Seq<char>> {
        Some(self.reasoning@)
    }

    fn selected_model(&self) -> (r: &str) {
        self.selected_model.as_str()
    }

    fn reasoning(&self) -> (r: Option<&str>) {
        Some(self.reasoning.as_str())
    }
}

/// The decision behind the call of one candidate.
pub open spec fn candidate_decision(model: Seq<char>) -> EnsembleDecisionView {
    EnsembleDecisionView {
        selected_model: model,
        reasoning: "ensemble candidate '"@ + model + "'"@,
        phase: EnsemblePhase::Candidate,
    }
}

/// The decision behind the judge call over `count` responses.
pub open spec fn judge_decision(judge: Seq<char>, count: nat) -> EnsembleDecisionView {
    EnsembleDecisionView {
        selected_model: judge,
        reasoning: "judging "@ + decimal(count) + " candidate responses"@,
        phase: EnsemblePhase::Judge,
    }
}

/// The decision for the winner of a turn.
pub open spec fn winner_decision(model: Seq<char>) -> EnsembleDecisionView {
    EnsembleDecisionView {
        selected_model: model,
        reasoning: "judge selected '"@ + model + "' as best response"@,
        phase: EnsemblePhase::Winner,
    }
}

/// The decision behind the call of the committed model.
pub open spec fn committed_decision(model: Seq<char>, exploration_turns: nat) -> EnsembleDecisionView {
    EnsembleDecisionView {
        selected_model: model,
        reasoning: "committed to '"@ + model + "' after "@ + decimal(exploration_turns)
            + " turns"@,
        phase: EnsemblePhase::Committed,
    }
}

fn new_candidate_decision(model: &String) -> (r: EnsembleDecision)
    ensures
        r@ == candidate_decision(model@),
{
    let mut reasoning = "ensemble candidate '".to_string();
    reasoning.append(model.as_str());
    reasoning.append("'");
    EnsembleDecision { selected_model: model.clone(), reasoning, phase: EnsemblePhase::Candidate }
}

fn new_judge_decision(judge: &String, count: usize) -> (r: EnsembleDecision)
    ensures
        r@ == judge_decision(judge@, count as nat),
{
    let mut reasoning = "judging ".to_string();
    reasoning.append(decimal_text(count as u64).as_str());
    reasoning.append(" candidate responses");
    EnsembleDecision { selected_model: judge.clone(), reasoning, phase: EnsemblePhase::Judge }
}

fn new_winner_decision(model: String) -> (r: EnsembleDecision)
    ensures
        r@ == winner_decision(model@),
{
    let mut reasoning = "judge selected '".to_string();
    reasoning.append(model.as_str());
    reasoning.append("' as best response");
    EnsembleDecision { selected_model: model, reasoning, phase: EnsemblePhase::Winner }
}

fn new_committed_decision(model: String, exploration_turns: u64) -> (r: EnsembleDecision)
    ensures
        r@ == committed_decision(model@, exploration_turns as nat),
{
    let mut reasoning = "committed to '".to_string();
    reasoning.append(model.as_str());
    reasoning.append("' after ");
    reasoning.append(decimal_text(exploration_turns).as_str());
    reasoning.append(" turns");
    EnsembleDecision { selected_model: model, reasoning, phase: EnsemblePhase::Committed }
}

/// A candidate's response that takes part in the judging, with the candidate's name.
pub type Survivor = (String, Response);

/// The view of survivors.
pub open spec fn survivor_views(survivors: Seq<Survivor>) -> Seq<(Seq<char>, Response)> {
    survivors.map_values(|survivor: Survivor| (survivor.0@, survivor.1))
}

/// The completions of the surviving responses.
pub open spec fn completions(survivors: Seq<(Seq<char>, Response)>) -> Seq<Seq<char>> {
    survivors.map_values(
        |survivor: (Seq<char>, Response)| survivor.1.llm_response.completion@,
    )
}

/// The candidates whose calls succeeded, in candidate order, with their responses.
pub open spec fn survivors_of<E>(
    models: Seq<Seq<char>>,
    outcomes: Seq<Result<Response, FailureView<E>>>,
) -> Seq<(Seq<char>, Response)>
    decreases outcomes.len(),
{
    if outcomes.len() == 0 {
        Seq::empty()
    } else {
        let before = survivors_of(models, outcomes.drop_last());
        match outcomes.last() {
            Ok(response) => before.push((models[outcomes.len() - 1], response)),
            Err(_) => before,
        }
    }
}

/// The responses as the judge sees them: numbered from one, without the model names.
pub open spec fn numbered_responses(completions: Seq<Seq<char>>) -> Seq<char>
    decreases completions.len(),
{
    if completions.len() == 0 {
        Seq::empty()
    } else {
        numbered_responses(completions.drop_last()) + ("Response "@ + decimal(completions.len())
            + ":\n"@ + completions.last() + "\n\n"@)
    }
}

/// The prompt the judge is asked.
pub open spec fn judge_prompt(user_prompt: Seq<char>, completions: Seq<Seq<char>>) -> Seq<char> {
    "You are an impartial judge. Choose which response best answers the user request.\n\n"@
        + "User request:\n"@ + user_prompt + "\n\n"@ + numbered_responses(completions)
        + "Reply with only the number (1-"@ + decimal(completions.len())
        + ") of the best response."@
}

/// Build the judge prompt. Responses are presented without model names, so the judge scores on
/// content alone.
pub fn build_judge_prompt(user_prompt: &str, survivors: &[Survivor]) -> (r: String)
    ensures
        r@ == judge_prompt(user_prompt@, completions(survivor_views(survivors@))),
{
    let ghost all = completions(survivor_views(survivors@));
    let mut prompt =
        "You are an impartial judge. Choose which response best answers the user request.\n\n".to_string();
    prompt.append("User request:\n");
    prompt.append(user_prompt);
    prompt.append("\n\n");
    let ghost head = prompt@;
    assert(head + numbered_responses(all.take(0)) =~= head);
    for i in 0..survivors.len()
        invariant
            all == completions(survivor_views(survivors@)),
            prompt@ == head + numbered_responses(all.take(i as int)),
    {
        let ghost so_far = prompt@;
        prompt.append("Response ");
        prompt.append(decimal_text((i + 1) as u64).as_str());
        prompt.append(":\n");
        prompt.append(survivors[i].1.llm_response.completion.as_str());
        prompt.append("\n\n");
        proof {
            let longer = all.take(i + 1);
            assert(longer.drop_last() =~= all.take(i as int));
            assert(longer.last() == survivors@[i as int].1.llm_response.completion@);
            assert(prompt@ =~= so_far + ("Response "@ + decimal((i + 1) as nat) + ":\n"@
                + longer.last() + "\n\n"@));
            assert(prompt@ =~= head + numbered_responses(longer));
        }
    }
    assert(all.take(survivors@.len() as int) =~= all);
    prompt.append("Reply with only the number (1-");
    prompt.append(decimal_text(survivors.len() as u64).as_str());
    prompt.append(") of the best response.");
    prompt
}

/// The response a judge's reply chooses among `count`: the first number in the reply, counted
/// from one, or the first response where that number is missing or out of range.
pub open spec fn judge_choice(reply: Seq<char>, count: nat) -> nat {
    match first_number(reply) {
        Some(n) => if 1 <= n && n <= count {
            (n - 1) as nat
        } else {
            0
        },
        None => 0,
    }
}

/// Parse the judge's 1-based pick into a 0-based index, failing open to the first response.
/// Reads the first run of digits in the reply, so "2" and "Response 2 is best" both select
/// index 1.
pub fn parse_choice(completion: &str, count: usize) -> (r: usize)
    ensures
        r == judge_choice(completion@, count as nat),
{
    match first_number_up_to(completion, count) {
        Some(n) => if n >= 1 {
            n - 1
        } else {
            0
        },
        None => 0,
    }
}

/// The models that several calls go to.
pub open spec fn called_models<C: ?Sized>(
    calls: Seq<RoutedView<EnsembleDecisionView, C>>,
) -> Seq<Seq<char>> {
    calls.map_values(|call: RoutedView<EnsembleDecisionView, C>| call.decision.selected_model)
}

/// Ensemble router: fan out to candidates, judge the best, then commit.
pub struct EnsembleOrchAlgo<C: ?Sized> {
    candidate_models: Vec<String>,
    judge_model: String,
    /// Number of ensemble turns to run before committing to the best model. `0` disables
    /// committing: the algorithm ensembles on every request.
    exploration_turns: u64,
    target_set: LlmTargetSet<C>,
    /// The wins of the completed exploration turns.
    wins: WinTally,
    /// The model committed to once exploration is over; `None` while exploring.
    committed: Option<String>,
}

/// The view of an [`EnsembleOrchAlgo`].
#[verifier::ext_equal]
pub struct EnsembleView<C: ?Sized> {
    pub candidates: Seq<Seq<char>>,
    pub judge: Seq<char>,
    pub exploration_turns: nat,
    pub targets: Seq<LlmTarget<C>>,
    /// The winners of the completed exploration turns, one per turn.
    pub winners: Multiset<Seq<char>>,
    pub committed: Option<Seq<char>>,
}

impl<C: ?Sized> View for EnsembleOrchAlgo<C> {
    type V = EnsembleView<C>;

    closed spec fn view(&self) -> EnsembleView<C> {
        EnsembleView {
            candidates: string_views(self.candidate_models@),
            judge: self.judge_model@,
            exploration_turns: self.exploration_turns as nat,
            targets: self.target_set@,
            winners: self.wins@,
            committed: match self.committed {
                Some(model) => Some(model@),
                None => None,
            },
        }
    }
}

/// `candidates[i]` has the most wins, and every earlier candidate has fewer.
pub open spec fn is_best(
    candidates: Seq<Seq<char>>,
    winners: Multiset<Seq<char>>,
    i: int,
) -> bool {
    &&& 0 <= i < candidates.len()
    &&& forall|j: int|
        0 <= j < candidates.len() ==> winners.count(#[trigger] candidates[j]) <= winners.count(
            candidates[i],
        )
    &&& forall|j: int|
        0 <= j < i ==> winners.count(#[trigger] candidates[j]) < winners.count(candidates[i])
}

/// The candidate with the most wins, ties broken toward the earlier one.
pub open spec fn best_candidate(
    candidates: Seq<Seq<char>>,
    winners: Multiset<Seq<char>>,
) -> Option<Seq<char>> {
    if exists|i: int| is_best(candidates, winners, i) {
        Some(candidates[choose|i: int| is_best(candidates, winners, i)])
    } else {
        None
    }
}

/// A candidate with the most wins, the earliest of those that have as many, is the best.
pub proof fn lemma_best_candidate(candidates: Seq<Seq<char>>, winners: Multiset<Seq<char>>, i: int)
    requires
        is_best(candidates, winners, i),
    ensures
        best_candidate(candidates, winners) == Some(candidates[i]),
{
    let k = choose|k: int| is_best(candidates, winners, k);
    assert(is_best(candidates, winners, k));
    if k < i {
        assert(winners.count(candidates[k]) < winners.count(candidates[i]));
    }
    if i < k {
        assert(winners.count(candidates[i]) < winners.count(candidates[k]));
    }
}

/// The algorithm committed, or commits now: the model to route to, or `None` to keep
/// ensembling.
pub open spec fn resolved<C: ?Sized>(ensemble: EnsembleView<C>) -> Result<
    Option<Seq<char>>,
    ErrorView,
> {
    if ensemble.committed is Some {
        Ok(ensemble.committed)
    } else if 0 < ensemble.exploration_turns <= ensemble.winners.len() {
        match best_candidate(ensemble.candidates, ensemble.winners) {
            Some(model) => Ok(Some(model)),
            None => Err(ErrorOf::NoCandidates),
        }
    } else {
        Ok(None)
    }
}

/// The algorithm with the resolved model committed.
pub open spec fn after_resolving<C: ?Sized>(ensemble: EnsembleView<C>) -> EnsembleView<C> {
    match resolved(ensemble) {
        Ok(Some(model)) => EnsembleView { committed: Some(model), ..ensemble },
        _ => ensemble,
    }
}

impl<C: ?Sized> EnsembleOrchAlgo<C> {
    /// The tally of wins is well-formed.
    pub closed spec fn well_formed(&self) -> bool {
        self.wins.wf()
    }

    /// Create an ensemble over `candidate_models`, judged by `judge_model`, exploring for
    /// `exploration_turns` before committing to the winningest candidate (`0`: never commit),
    /// routing among `target_set`.
    pub fn new(
        candidate_models: Vec<String>,
        judge_model: String,
        exploration_turns: u64,
        target_set: LlmTargetSet<C>,
    ) -> (r: Self)
        ensures
            r.well_formed(),
            r@ == (EnsembleView {
                candidates: string_views(candidate_models@),
                judge: judge_model@,
                exploration_turns: exploration_turns as nat,
                targets: target_set@,
                winners: Multiset::empty(),
                committed: None,
            }),
    {
        EnsembleOrchAlgo {
            candidate_models,
            judge_model,
            exploration_turns,
            target_set,
            wins: WinTally::new(),
            committed: None,
        }
    }

    /// The candidate with the most judge-wins, breaking ties toward the earlier candidate.
    /// Errors only if there are no candidates.
    pub fn pick_best(&self) -> (r: Result<String, Error>)
        requires
            self.well_formed(),
        ensures
            match r {
                Ok(model) => best_candidate(self@.candidates, self@.winners) == Some(model@),
                Err(error) => self@.candidates.len() == 0 && error@ == ErrorOf::NoCandidates::<
                    Seq<char>,
                >,
            },
    {
        let ghost candidates = self@.candidates;
        let ghost winners = self@.winners;
        if self.candidate_models.len() == 0 {
            return Err(ErrorOf::NoCandidates);
        }
        let mut best: usize = 0;
        let mut best_wins: u64 = self.wins.count(&self.candidate_models[0]);
        assert(candidates[0] == self.candidate_models@[0]@);
        for i in 1..self.candidate_models.len()
            invariant
                self.well_formed(),
                candidates == self@.candidates,
                winners == self@.winners,
                best < i,
                i <= candidates.len() == self.candidate_models@.len(),
                best_wins == winners.count(candidates[best as int]),
                forall|j: int|
                    0 <= j < i ==> winners.count(#[trigger] candidates[j]) <= best_wins,
                forall|j: int|
                    0 <= j < best ==> winners.count(#[trigger] candidates[j]) < best_wins,
        {
            let wins: u64 = self.wins.count(&self.candidate_models[i]);
            assert(candidates[i as int] == self.candidate_models@[i as int]@);
            if wins > best_wins {
                best = i;
                best_wins = wins;
            }
        }
        proof {
            assert(is_best(candidates, winners, best as int));
            lemma_best_candidate(candidates, winners, best as int);
        }
        Ok(self.candidate_models[best].clone())
    }

    /// If exploration is over, return the committed model, committing on the first request
    /// after it. `None` means keep ensembling.
    pub fn resolve_committed(&mut self) -> (r: Result<Option<String>, Error>)
        requires
            old(self).well_formed(),
        ensures
            final(self).well_formed(),
            final(self)@ == after_resolving(old(self)@),
            match r {
                Ok(Some(model)) => resolved(old(self)@) == Ok::<Option<Seq<char>>, ErrorView>(
                    Some(model@),
                ),
                Ok(None) => resolved(old(self)@) == Ok::<Option<Seq<char>>, ErrorView>(None),
                Err(error) => resolved(old(self)@) == Err::<Option<Seq<char>>, ErrorView>(error@),
            },
    {
        if let Some(model) = &self.committed {
            return Ok(Some(model.clone()));
        }
        if self.exploration_turns > 0 && self.wins.turns() >= self.exploration_turns {
            match self.pick_best() {
                Ok(best) => {
                    self.committed = Some(best.clone());
                    Ok(Some(best))
                },
                Err(error) => Err(error),
            }
        } else {
            Ok(None)
        }
    }
}

/// One request on its way through the ensemble, between two actions. A host holds it and hands
/// it back; only the ensemble makes one.
pub struct EnsembleRun<C: ?Sized> {
    state: EnsembleState<C>,
}

/// Where a run stands. Every decision is published as it is made: before the calls it is behind.
enum EnsembleState<C: ?Sized> {
    /// The committed decision is being published; `call` comes next.
    Committing { call: RoutedRequest<EnsembleDecision, C> },
    /// The committed model was called.
    Calling,
    /// The decision of the last of `calls` is being published. The candidates after it are yet
    /// to be announced.
    Announcing { request: Request, calls: Vec<RoutedRequest<EnsembleDecision, C>> },
    /// All candidates were called. `models` holds their names in candidate order.
    Exploring { request: Request, models: Vec<String> },
    /// The judge's decision is being published; `call` comes next.
    Summoning { survivors: Vec<Survivor>, call: RoutedRequest<EnsembleDecision, C> },
    /// The judge was called.
    Judging { survivors: Vec<Survivor> },
    /// The winner's decision is being published; `response` is returned next.
    Crowning { response: Response },
    /// The run is over.
    Done,
}

/// The view of an [`EnsembleRun`].
pub enum EnsembleRunView<C: ?Sized> {
    Committing { call: RoutedView<EnsembleDecisionView, C> },
    Calling,
    Announcing { request: RequestView, calls: Seq<RoutedView<EnsembleDecisionView, C>> },
    Exploring { request: RequestView, models: Seq<Seq<char>> },
    Summoning {
        survivors: Seq<(Seq<char>, Response)>,
        call: RoutedView<EnsembleDecisionView, C>,
    },
    Judging { survivors: Seq<(Seq<char>, Response)> },
    Crowning { response: Response },
    Done,
}

impl<C: ?Sized> View for EnsembleRun<C> {
    type V = EnsembleRunView<C>;

    closed spec fn view(&self) -> EnsembleRunView<C> {
        match self.state {
            EnsembleState::Committing { call } => EnsembleRunView::Committing { call: call@ },
            EnsembleState::Calling => EnsembleRunView::Calling,
            EnsembleState::Announcing { request, calls } => EnsembleRunView::Announcing {
                request: request@,
                calls: routed_views(calls@),
            },
            EnsembleState::Exploring { request, models } => EnsembleRunView::Exploring {
                request: request@,
                models: string_views(models@),
            },
            EnsembleState::Summoning { survivors, call } => EnsembleRunView::Summoning {
                survivors: survivor_views(survivors@),
                call: call@,
            },
            EnsembleState::Judging { survivors } => EnsembleRunView::Judging {
                survivors: survivor_views(survivors@),
            },
            EnsembleState::Crowning { response } => EnsembleRunView::Crowning { response },
            EnsembleState::Done => EnsembleRunView::Done,
        }
    }
}

/// What an ensemble step leads to: the run and the next action.
pub type EnsembleNext<C, E> = (EnsembleRunView<C>, ActionView<EnsembleDecisionView, C, E>);

/// The run ends with a failure.
pub open spec fn failed<C: ?Sized, E>(failure: FailureView<E>) -> EnsembleNext<C, E> {
    (EnsembleRunView::Done, ActionView::Finish(Err(failure)))
}

/// A request is to go to the committed model, as it came: the decision is published first.
pub open spec fn routed_committed<C: ?Sized, E>(
    ensemble: EnsembleView<C>,
    request: RequestView,
    model: Seq<char>,
) -> EnsembleNext<C, E> {
    match find_target(ensemble.targets, model) {
        Some(target) => {
            let decision = committed_decision(model, ensemble.exploration_turns);
            (
                EnsembleRunView::Committing {
                    call: RoutedView { request, decision, default_client: target.llm_client },
                },
                ActionView::Publish(decision),
            )
        },
        None => failed(FailureView::Library(ErrorOf::TargetNotFound(model))),
    }
}

/// The calls of the first candidates are announced. The next candidate is announced, unless it
/// has no target; after the last one all are called.
pub open spec fn announced<C: ?Sized, E>(
    ensemble: EnsembleView<C>,
    request: RequestView,
    calls: Seq<RoutedView<EnsembleDecisionView, C>>,
) -> EnsembleNext<C, E> {
    if calls.len() < ensemble.candidates.len() {
        let model = ensemble.candidates[calls.len() as int];
        match find_target(ensemble.targets, model) {
            Some(target) => {
                let decision = candidate_decision(model);
                let call = RoutedView { request, decision, default_client: target.llm_client };
                (
                    EnsembleRunView::Announcing { request, calls: calls.push(call) },
                    ActionView::Publish(decision),
                )
            },
            None => failed(FailureView::Library(ErrorOf::TargetNotFound(model))),
        }
    } else {
        (
            EnsembleRunView::Exploring { request, models: called_models(calls) },
            ActionView::FanOut(calls),
        )
    }
}

/// How the run of a request begins.
pub open spec fn started<C: ?Sized, E>(
    ensemble: EnsembleView<C>,
    request: RequestView,
) -> EnsembleNext<C, E> {
    match resolved(ensemble) {
        Ok(Some(model)) => routed_committed(ensemble, request, model),
        Ok(None) => announced(ensemble, request, Seq::empty()),
        Err(error) => failed(FailureView::Library(error)),
    }
}

/// The judge is to choose among at least two survivors: its decision is published first.
pub open spec fn judged<C: ?Sized, E>(
    ensemble: EnsembleView<C>,
    request: RequestView,
    survivors: Seq<(Seq<char>, Response)>,
) -> EnsembleNext<C, E> {
    match find_target(ensemble.targets, ensemble.judge) {
        Some(target) => {
            let decision = judge_decision(ensemble.judge, survivors.len());
            (
                EnsembleRunView::Summoning {
                    survivors,
                    call: RoutedView {
                        request: request.with_prompt(
                            judge_prompt(request.prompt, completions(survivors)),
                        ),
                        decision,
                        default_client: target.llm_client,
                    },
                },
                ActionView::Publish(decision),
            )
        },
        None => failed(FailureView::Library(ErrorOf::TargetNotFound(ensemble.judge))),
    }
}

/// A survivor won the turn: its decision is published before its response is returned.
pub open spec fn won<C: ?Sized, E>(winner: (Seq<char>, Response)) -> EnsembleNext<C, E> {
    (
        EnsembleRunView::Crowning { response: winner.1 },
        ActionView::Publish(winner_decision(winner.0)),
    )
}

/// A candidate won the turn: its win is recorded.
pub open spec fn crowned<C: ?Sized>(
    ensemble: EnsembleView<C>,
    model: Seq<char>,
) -> EnsembleView<C> {
    EnsembleView { winners: ensemble.winners.insert(model), ..ensemble }
}

/// The survivor that won the turn, once the event has settled it.
pub open spec fn turn_winner<C: ?Sized, E>(
    run: EnsembleRunView<C>,
    event: EventView<E>,
) -> Option<(Seq<char>, Response)> {
    match (run, event) {
        (EnsembleRunView::Exploring { models, .. }, EventView::AllReplied(outcomes)) => {
            let survivors = survivors_of(models, outcomes);
            if survivors.len() == 1 {
                Some(survivors[0])
            } else {
                None
            }
        },
        (EnsembleRunView::Judging { survivors }, EventView::Replied(Ok(reply))) => Some(
            survivors[judge_choice(reply.llm_response.completion@, survivors.len()) as int],
        ),
        _ => None,
    }
}

/// The algorithm after an event: the winner of the turn is recorded, if the event settled it.
pub open spec fn after_event<C: ?Sized, E>(
    ensemble: EnsembleView<C>,
    run: EnsembleRunView<C>,
    event: EventView<E>,
) -> EnsembleView<C> {
    match turn_winner(run, event) {
        Some((model, _)) => crowned(ensemble, model),
        None => ensemble,
    }
}

/// How a run continues after an event.
pub open spec fn resumed<C: ?Sized, E>(
    ensemble: EnsembleView<C>,
    run: EnsembleRunView<C>,
    event: EventView<E>,
) -> EnsembleNext<C, E> {
    match (run, event) {
        (EnsembleRunView::Committing { call }, EventView::Published(outcome)) => match outcome {
            Ok(_) => (EnsembleRunView::Calling, ActionView::Call(call)),
            Err(failure) => failed(failure),
        },
        (EnsembleRunView::Calling, EventView::Replied(reply)) => (
            EnsembleRunView::Done,
            ActionView::Finish(reply),
        ),
        (EnsembleRunView::Announcing { request, calls }, EventView::Published(outcome)) => {
            match outcome {
                Ok(_) => announced(ensemble, request, calls),
                Err(failure) => failed(failure),
            }
        },
        (EnsembleRunView::Exploring { request, models }, EventView::AllReplied(outcomes)) => {
            let survivors = survivors_of(models, outcomes);
            if survivors.len() == 0 {
                failed(FailureView::Library(ErrorOf::AllCandidatesFailed))
            } else if survivors.len() == 1 {
                won(survivors[0])
            } else {
                judged(ensemble, request, survivors)
            }
        },
        (EnsembleRunView::Summoning { survivors, call }, EventView::Published(outcome)) => {
            match outcome {
                Ok(_) => (EnsembleRunView::Judging { survivors }, ActionView::Call(call)),
                Err(failure) => failed(failure),
            }
        },
        (EnsembleRunView::Judging { survivors }, EventView::Replied(reply)) => match reply {
            Ok(response) => {
                let choice = judge_choice(response.llm_response.completion@, survivors.len());
                won(survivors[choice as int])
            },
            Err(failure) => failed(failure),
        },
        (EnsembleRunView::Crowning { response }, EventView::Published(outcome)) => match outcome {
            Ok(_) => (EnsembleRunView::Done, ActionView::Finish(Ok(response))),
            Err(failure) => failed(failure),
        },
        _ => arbitrary(),
    }
}

/// The answer that a run waits for.
pub open spec fn ensemble_awaits<C: ?Sized>(run: EnsembleRunView<C>) -> Answer {
    match run {
        EnsembleRunView::Committing { .. } => Answer::Publication,
        EnsembleRunView::Calling => Answer::Reply,
        EnsembleRunView::Announcing { .. } => Answer::Publication,
        EnsembleRunView::Exploring { models, .. } => Answer::Replies(models.len()),
        EnsembleRunView::Summoning { .. } => Answer::Publication,
        EnsembleRunView::Judging { .. } => Answer::Reply,
        EnsembleRunView::Crowning { .. } => Answer::Publication,
        EnsembleRunView::Done => Answer::Nothing,
    }
}

/// The next event of a run may settle its turn, which records a win.
pub open spec fn settles_turn<C: ?Sized>(run: EnsembleRunView<C>) -> bool {
    run is Exploring || run is Judging
}

/// A judge chooses among at least two survivors.
pub closed spec fn valid_run<C: ?Sized>(run: EnsembleRun<C>) -> bool {
    match run.state {
        EnsembleState::Summoning { survivors, .. } => survivors@.len() >= 2,
        EnsembleState::Judging { survivors } => survivors@.len() >= 2,
        _ => true,
    }
}

/// End the run with a failure.
fn fail<C: ?Sized, E>(failure: Failure<E>) -> (r: (
    EnsembleRun<C>,
    Action<EnsembleDecision, C, E>,
))
    ensures
        valid_run(r.0),
        (r.0@, r.1@) == failed::<C, E>(failure@),
{
    (EnsembleRun { state: EnsembleState::Done }, Action::Finish(Err(failure)))
}

/// Keep only the successful responses, in candidate order. A failed candidate is excluded from
/// judging and does not fail the turn.
pub fn collect_survivors<E>(
    models: &Vec<String>,
    outcomes: Vec<Result<Response, Failure<E>>>,
) -> (r: Vec<Survivor>)
    requires
        models@.len() == outcomes@.len(),
    ensures
        survivor_views(r@) == survivors_of(string_views(models@), outcome_views(outcomes@)),
{
    let ghost names = string_views(models@);
    let ghost all = outcome_views(outcomes@);
    let ghost given = outcomes@;
    let mut survivors: Vec<Survivor> = Vec::new();
    let count: usize = models.len();
    let mut i: usize = 0;
    assert(survivor_views(survivors@) =~= survivors_of(names, all.take(0)));
    for outcome in it: outcomes
        invariant
            it.seq() == given,
            all == outcome_views(given),
            names == string_views(models@),
            count == models@.len() == given.len(),
            i == it.index(),
            survivor_views(survivors@) == survivors_of(names, all.take(i as int)),
    {
        let ghost before = survivors@;
        proof {
            let longer = all.take(i + 1);
            assert(longer.drop_last() =~= all.take(i as int));
            assert(longer.last() == outcome_view(outcome));
            assert(names[i as int] == models@[i as int]@);
        }
        if let Ok(response) = outcome {
            survivors.push((models[i].clone(), response));
            assert(survivor_views(survivors@) =~= survivor_views(before).push(
                (names[i as int], response),
            ));
        }
        i = i + 1;
    }
    assert(all.take(i as int) =~= all);
    survivors
}

/// The models that several calls go to.
fn models_of<C: ?Sized>(calls: &Vec<RoutedRequest<EnsembleDecision, C>>) -> (r: Vec<String>)
    ensures
        string_views(r@) == called_models(routed_views(calls@)),
{
    let mut models: Vec<String> = Vec::new();
    for i in 0..calls.len()
        invariant
            models@.len() == i,
            forall|j: int|
                0 <= j < i ==> (#[trigger] models@[j])@ == calls@[j].decision.selected_model@,
    {
        models.push(calls[i].decision.selected_model.clone());
    }
    assert(string_views(models@) =~= called_models(routed_views(calls@)));
    models
}

impl<C: ?Sized> EnsembleOrchAlgo<C> {
    /// Route a request to a single model that was chosen before.
    fn route_committed<E>(&self, request: Request, model: String) -> (r: (
        EnsembleRun<C>,
        Action<EnsembleDecision, C, E>,
    ))
        ensures
            valid_run(r.0),
            (r.0@, r.1@) == routed_committed::<C, E>(self@, request@, model@),
    {
        match self.target_set.get_target(model.as_str()) {
            Ok(target) => {
                let decision = Arc::new(new_committed_decision(model, self.exploration_turns));
                let call = RoutedRequest::to_target(&target, request, decision.clone());
                (
                    EnsembleRun { state: EnsembleState::Committing { call } },
                    Action::Publish(decision),
                )
            },
            Err(error) => fail(Failure::Library(error)),
        }
    }

    /// Announce the candidate after those of `calls`, or fan the request out once all are
    /// announced.
    fn announce<E>(
        &self,
        request: Request,
        calls: Vec<RoutedRequest<EnsembleDecision, C>>,
    ) -> (r: (EnsembleRun<C>, Action<EnsembleDecision, C, E>))
        ensures
            valid_run(r.0),
            (r.0@, r.1@) == announced::<C, E>(self@, request@, routed_views(calls@)),
    {
        if calls.len() < self.candidate_models.len() {
            let model: &String = &self.candidate_models[calls.len()];
            assert(self@.candidates[calls@.len() as int] == model@);
            match self.target_set.get_target(model.as_str()) {
                Ok(target) => {
                    let decision = Arc::new(new_candidate_decision(model));
                    let call = RoutedRequest::to_target(
                        &target,
                        request.clone(),
                        decision.clone(),
                    );
                    let ghost before = calls@;
                    let mut calls = calls;
                    calls.push(call);
                    assert(routed_views(calls@) =~= routed_views(before).push(call@));
                    (
                        EnsembleRun { state: EnsembleState::Announcing { request, calls } },
                        Action::Publish(decision),
                    )
                },
                Err(error) => fail(Failure::Library(error)),
            }
        } else {
            let models = models_of(&calls);
            (
                EnsembleRun { state: EnsembleState::Exploring { request, models } },
                Action::FanOut(calls),
            )
        }
    }

    /// Summon the judge to choose among the survivors.
    fn judge<E>(&self, request: Request, survivors: Vec<Survivor>) -> (r: (
        EnsembleRun<C>,
        Action<EnsembleDecision, C, E>,
    ))
        requires
            survivors@.len() >= 2,
        ensures
            valid_run(r.0),
            (r.0@, r.1@) == judged::<C, E>(self@, request@, survivor_views(survivors@)),
    {
        let prompt = build_judge_prompt(request.llm_request.prompt.as_str(), survivors.as_slice());
        match self.target_set.get_target(self.judge_model.as_str()) {
            Ok(target) => {
                let decision = Arc::new(new_judge_decision(&self.judge_model, survivors.len()));
                let call = RoutedRequest::to_target(
                    &target,
                    request.with_prompt(prompt),
                    decision.clone(),
                );
                (
                    EnsembleRun { state: EnsembleState::Summoning { survivors, call } },
                    Action::Publish(decision),
                )
            },
            Err(error) => fail(Failure::Library(error)),
        }
    }

    /// Record the winner of a turn and publish its decision.
    fn crown<E>(&mut self, winner: Survivor) -> (r: (
        EnsembleRun<C>,
        Action<EnsembleDecision, C, E>,
    ))
        requires
            old(self).well_formed(),
            old(self)@.winners.len() < u64::MAX,
        ensures
            final(self).well_formed(),
            final(self)@ == crowned(old(self)@, winner.0@),
            valid_run(r.0),
            (r.0@, r.1@) == won::<C, E>((winner.0@, winner.1)),
    {
        let (model, response) = winner;
        self.wins.record(model.clone());
        let decision = Arc::new(new_winner_decision(model));
        (
            EnsembleRun { state: EnsembleState::Crowning { response } },
            Action::Publish(decision),
        )
    }
}

impl<C: ?Sized> Algorithm<C> for EnsembleOrchAlgo<C> {
    type Decision = EnsembleDecision;

    type Run = EnsembleRun<C>;

    open spec fn awaits(run: EnsembleRun<C>) -> Answer {
        ensemble_awaits(run@)
    }

    open spec fn run_wf(run: EnsembleRun<C>) -> bool {
        valid_run(run)
    }

    open spec fn wf(&self) -> bool {
        self.well_formed()
    }

    open spec fn has_room(&self, run: EnsembleRun<C>) -> bool {
        settles_turn(run@) ==> self@.winners.len() < u64::MAX
    }

    fn can_resume(&self, run: &EnsembleRun<C>) -> (r: bool) {
        match &run.state {
            EnsembleState::Exploring { .. } | EnsembleState::Judging { .. } => self.wins.turns()
                < u64::MAX,
            _ => true,
        }
    }

    fn create_run_task<E>(&mut self, ctx: Context, request: Request) -> (r: (
        EnsembleRun<C>,
        Action<EnsembleDecision, C, E>,
    ))
        ensures
            valid_run(r.0),
            final(self)@ == after_resolving(old(self)@),
            (r.0@, r.1@) == started::<C, E>(old(self)@, request@),
    {
        match self.resolve_committed() {
            Ok(Some(model)) => self.route_committed(request, model),
            Ok(None) => {
                let calls: Vec<RoutedRequest<EnsembleDecision, C>> = Vec::new();
                assert(routed_views(calls@) =~= Seq::empty());
                self.announce(request, calls)
            },
            Err(error) => fail(Failure::Library(error)),
        }
    }

    fn resume<E>(&mut self, run: EnsembleRun<C>, event: Event<E>) -> (r: (
        EnsembleRun<C>,
        Action<EnsembleDecision, C, E>,
    ))
        ensures
            valid_run(r.0),
            final(self)@ == after_event(old(self)@, run@, event@),
            (r.0@, r.1@) == resumed::<C, E>(old(self)@, run@, event@),
    {
        match (run.state, event) {
            (EnsembleState::Committing { call }, Event::Published(outcome)) => match outcome {
                Ok(_) => (
                    EnsembleRun { state: EnsembleState::Calling },
                    Action::Call(call),
                ),
                Err(failure) => fail(failure),
            },
            (EnsembleState::Calling, Event::Replied(reply)) => (
                EnsembleRun { state: EnsembleState::Done },
                Action::Finish(reply),
            ),
            (EnsembleState::Announcing { request, calls }, Event::Published(outcome)) => {
                match outcome {
                    Ok(_) => self.announce(request, calls),
                    Err(failure) => fail(failure),
                }
            },
            (EnsembleState::Exploring { request, models }, Event::AllReplied(outcomes)) => {
                let mut survivors = collect_survivors(&models, outcomes);
                if survivors.len() == 0 {
                    fail(Failure::Library(ErrorOf::AllCandidatesFailed))
                } else if survivors.len() == 1 {
                    let winner = survivors.swap_remove(0);
                    self.crown(winner)
                } else {
                    self.judge(request, survivors)
                }
            },
            (EnsembleState::Summoning { survivors, call }, Event::Published(outcome)) => {
                match outcome {
                    Ok(_) => (
                        EnsembleRun { state: EnsembleState::Judging { survivors } },
                        Action::Call(call),
                    ),
                    Err(failure) => fail(failure),
                }
            },
            (EnsembleState::Judging { survivors }, Event::Replied(reply)) => match reply {
                Ok(response) => {
                    let choice: usize = parse_choice(
                        response.llm_response.completion.as_str(),
                        survivors.len(),
                    );
                    let mut survivors = survivors;
                    let winner = survivors.swap_remove(choice);
                    self.crown(winner)
                },
                Err(failure) => fail(failure),
            },
            (EnsembleState::Crowning { response }, Event::Published(outcome)) => match outcome {
                Ok(_) => (
                    EnsembleRun { state: EnsembleState::Done },
                    Action::Finish(Ok(response)),
                ),
                Err(failure) => fail(failure),
            },
            _ => unreached(),
        }
    }

    fn process_signals(&mut self, signals: Signals) -> (r: Result<(), Error>)
        ensures
            r == Ok::<(), Error>(()),
            final(self)@ == old(self)@,
    {
        Ok(())
    }
}

} // verus!
