//! LLM-classifier router: classify with one model, then route to a strong or a weak one.
//!
//! The classifier target is asked for a score, and the score decides whether the request goes
//! to the strong or to the weak target. A reply that is no number routes strong.

use std::sync::Arc;
use vstd::pervasive::unreached;
use vstd::prelude::*;

use crate::error::{Error, ErrorOf, Failure, FailureView};
use crate::score::{reaches, score_view, Score, ScoreView};
use crate::target::{find_target, Decision, LlmTarget, LlmTargetSet, RoutedRequest, RoutedView};
use crate::task::{Action, ActionView, Algorithm, Answer, Event, EventView};
use crate::text::{trim, trimmed};
use crate::types::{Context, Request, RequestView, Signals};

verus! {

/// Preamble prepended to the user prompt when asking the classifier target for a score.
pub const CLASSIFIER_PROMPT_PREAMBLE: &'static str =
    "Rate how strongly this request needs a frontier model. Reply with a single strong-win-rate score in [0, 1]:\n";

/// The tier a classifier score selected.
#[derive(Clone, Copy, Debug, PartialEq, Eq, Structural)]
pub enum ClassifierTier {
    Strong,
    Weak,
}

/// The name of a tier.
pub open spec fn tier_name(tier: ClassifierTier) -> Seq<char> {
    match tier {
        ClassifierTier::Strong => "strong"@,
        ClassifierTier::Weak => "weak"@,
    }
}

impl ClassifierTier {
    /// Stable string form of the tier, used in decision reasoning.
    pub fn as_str(self) -> (r: &'static str)
        ensures
            r@ == tier_name(self),
    {
        match self {
            ClassifierTier::Strong => "strong",
            ClassifierTier::Weak => "weak",
        }
    }
}

/// Decision produced at each step of the classifier flow. The classify step leaves `score` and
/// `tier` empty; the routed step fills them in.
pub struct ClassifierDecision {
    /// The model this step selected: the classifier model, then the routed model.
    pub selected_model: String,
    /// Human-readable explanation of the step.
    pub reasoning: String,
    /// The classifier score, on the routed step.
    pub score: Option<Score>,
    /// The tier chosen, on the routed step.
    pub tier: Option<ClassifierTier>,
}

/// The view of a [`ClassifierDecision`].
#[verifier::ext_equal]
pub struct ClassifierDecisionView {
    pub selected_model: Seq<char>,
    pub reasoning: Seq<char>,
    pub score: Option<ScoreView>,
    pub tier: Option<ClassifierTier>,
}

impl View for ClassifierDecision {
    type V = ClassifierDecisionView;

    open spec fn view(&self) -> ClassifierDecisionView {
        ClassifierDecisionView {
            selected_model: self.selected_model@,
            reasoning: self.reasoning@,
            score: score_view(self.score),
            tier: self.tier,
        }
    }
}

impl Decision for ClassifierDecision {
    open spec fn model(&self) -> Seq<char> {
        self.selected_model@
    }

    open spec fn explanation(&self) -> Option<Seq<char>> {
        Some(self.reasoning@)
    }

    fn selected_model(&self) -> (r: &str) {
        self.selected_model.as_str()
    }

    fn reasoning(&self) -> (r: Option<&str>) {
        Some(self.reasoning.as_str())
    }
}

/// LLM-classifier router: classify with one target, then route to strong or weak.
pub struct LlmClassifierOrchAlgo<C: ?Sized> {
    classifier_model: String,
    strong_model: String,
    weak_model: String,
    threshold: Score,
    target_set: LlmTargetSet<C>,
}

/// The view of an [`LlmClassifierOrchAlgo`].
#[verifier::ext_equal]
pub struct ClassifierView<C: ?Sized> {
    pub classifier: Seq<char>,
    pub strong: Seq<char>,
    pub weak: Seq<char>,
    pub threshold: ScoreView,
    pub targets: Seq<LlmTarget<C>>,
}

impl<C: ?Sized> View for LlmClassifierOrchAlgo<C> {
    type V = ClassifierView<C>;

    closed spec fn view(&self) -> ClassifierView<C> {
        ClassifierView {
            classifier: self.classifier_model@,
            strong: self.strong_model@,
            weak: self.weak_model@,
            threshold: self.threshold@,
            targets: self.target_set@,
        }
    }
}

/// The tier for a score: strong at or above the threshold and weak otherwise. Without a score
/// the tier is strong.
pub open spec fn tier_for(score: Option<ScoreView>, threshold: ScoreView) -> ClassifierTier {
    match score {
        Some(score) => if reaches(score.bits, threshold.bits) {
            ClassifierTier::Strong
        } else {
            ClassifierTier::Weak
        },
        None => ClassifierTier::Strong,
    }
}

/// The model of a tier.
pub open spec fn tier_model<C: ?Sized>(
    classifier: ClassifierView<C>,
    tier: ClassifierTier,
) -> Seq<char> {
    match tier {
        ClassifierTier::Strong => classifier.strong,
        ClassifierTier::Weak => classifier.weak,
    }
}

/// The decision behind the classifier call.
pub open spec fn classify_decision(model: Seq<char>) -> ClassifierDecisionView {
    ClassifierDecisionView {
        selected_model: model,
        reasoning: "classifying request via "@ + model,
        score: None,
        tier: None,
    }
}

/// An optional score as it is shown in a decision's reasoning.
pub open spec fn shown_score(score: Option<ScoreView>) -> Seq<char> {
    match score {
        Some(score) => "Some("@ + score.text + ")"@,
        None => "None"@,
    }
}

/// The decision behind the routed call.
pub open spec fn route_decision<C: ?Sized>(
    classifier: ClassifierView<C>,
    score: Option<ScoreView>,
) -> ClassifierDecisionView {
    let tier = tier_for(score, classifier.threshold);
    let model = tier_model(classifier, tier);
    ClassifierDecisionView {
        selected_model: model,
        reasoning: "classifier score "@ + shown_score(score) + " vs threshold "@
            + classifier.threshold.text + "; selected "@ + model + " ("@ + tier_name(tier) + ")"@,
        score,
        tier: Some(tier),
    }
}

/// The request the classifier is asked: the preamble, then the user's prompt.
pub open spec fn classify_request(request: RequestView) -> RequestView {
    request.with_prompt(CLASSIFIER_PROMPT_PREAMBLE@ + request.prompt)
}

/// One request on its way through the classifier, between two actions. A host holds it and hands
/// it back; only the router makes one.
pub struct ClassifierRun<C: ?Sized> {
    state: ClassifierState<C>,
}

/// Where a run stands.
enum ClassifierState<C: ?Sized> {
    /// The classify decision is being published; `call` comes next.
    Announcing { request: Request, call: RoutedRequest<ClassifierDecision, C> },
    /// The classifier was called.
    Classifying { request: Request },
    /// The classifier's reply is being read as a number.
    Scoring { request: Request },
    /// The route decision is being published; `call` comes next.
    Routing { call: RoutedRequest<ClassifierDecision, C> },
    /// The routed model was called.
    Calling,
    /// The run is over.
    Done,
}

/// The view of a [`ClassifierRun`].
pub enum ClassifierRunView<C: ?Sized> {
    Announcing { request: RequestView, call: RoutedView<ClassifierDecisionView, C> },
    Classifying { request: RequestView },
    Scoring { request: RequestView },
    Routing { call: RoutedView<ClassifierDecisionView, C> },
    Calling,
    Done,
}

impl<C: ?Sized> View for ClassifierRun<C> {
    type V = ClassifierRunView<C>;

    closed spec fn view(&self) -> ClassifierRunView<C> {
        match self.state {
            ClassifierState::Announcing { request, call } => ClassifierRunView::Announcing {
                request: request@,
                call: call@,
            },
            ClassifierState::Classifying { request } => ClassifierRunView::Classifying {
                request: request@,
            },
            ClassifierState::Scoring { request } => ClassifierRunView::Scoring { request: request@ },
            ClassifierState::Routing { call } => ClassifierRunView::Routing { call: call@ },
            ClassifierState::Calling => ClassifierRunView::Calling,
            ClassifierState::Done => ClassifierRunView::Done,
        }
    }
}

/// What a classifier step leads to: the run and the next action.
pub type ClassifierNext<C, E> = (ClassifierRunView<C>, ActionView<ClassifierDecisionView, C, E>);

/// The run ends with a failure.
pub open spec fn failed<C: ?Sized, E>(failure: FailureView<E>) -> ClassifierNext<C, E> {
    (ClassifierRunView::Done, ActionView::Finish(Err(failure)))
}

/// How the run of a request begins: the classify decision is published.
pub open spec fn started<C: ?Sized, E>(
    classifier: ClassifierView<C>,
    request: RequestView,
) -> ClassifierNext<C, E> {
    match find_target(classifier.targets, classifier.classifier) {
        Some(target) => {
            let decision = classify_decision(classifier.classifier);
            (
                ClassifierRunView::Announcing {
                    request,
                    call: RoutedView {
                        request: classify_request(request),
                        decision,
                        default_client: target.llm_client,
                    },
                },
                ActionView::Publish(decision),
            )
        },
        None => failed(FailureView::Library(ErrorOf::TargetNotFound(classifier.classifier))),
    }
}

/// A score is settled: the route decision is published, and the request as it came is routed.
pub open spec fn routed<C: ?Sized, E>(
    classifier: ClassifierView<C>,
    request: RequestView,
    score: Option<ScoreView>,
) -> ClassifierNext<C, E> {
    let decision = route_decision(classifier, score);
    match find_target(classifier.targets, decision.selected_model) {
        Some(target) => (
            ClassifierRunView::Routing {
                call: RoutedView { request, decision, default_client: target.llm_client },
            },
            ActionView::Publish(decision),
        ),
        None => failed(FailureView::Library(ErrorOf::TargetNotFound(decision.selected_model))),
    }
}

/// How a run continues after an event.
pub open spec fn resumed<C: ?Sized, E>(
    classifier: ClassifierView<C>,
    run: ClassifierRunView<C>,
    event: EventView<E>,
) -> ClassifierNext<C, E> {
    match (run, event) {
        (ClassifierRunView::Announcing { request, call }, EventView::Published(outcome)) => {
            match outcome {
                Ok(_) => (ClassifierRunView::Classifying { request }, ActionView::Call(call)),
                Err(failure) => failed(failure),
            }
        },
        (ClassifierRunView::Classifying { request }, EventView::Replied(reply)) => match reply {
            Ok(response) => (
                ClassifierRunView::Scoring { request },
                ActionView::ReadScore(trimmed(response.llm_response.completion@)),
            ),
            Err(failure) => failed(failure),
        },
        (ClassifierRunView::Scoring { request }, EventView::ScoreRead(score)) => routed(
            classifier,
            request,
            score,
        ),
        (ClassifierRunView::Routing { call }, EventView::Published(outcome)) => match outcome {
            Ok(_) => (ClassifierRunView::Calling, ActionView::Call(call)),
            Err(failure) => failed(failure),
        },
        (ClassifierRunView::Calling, EventView::Replied(reply)) => (
            ClassifierRunView::Done,
            ActionView::Finish(reply),
        ),
        _ => arbitrary(),
    }
}

/// The answer that a run waits for.
pub open spec fn classifier_awaits<C: ?Sized>(run: ClassifierRunView<C>) -> Answer {
    match run {
        ClassifierRunView::Announcing { .. } => Answer::Publication,
        ClassifierRunView::Classifying { .. } => Answer::Reply,
        ClassifierRunView::Scoring { .. } => Answer::Number,
        ClassifierRunView::Routing { .. } => Answer::Publication,
        ClassifierRunView::Calling => Answer::Reply,
        ClassifierRunView::Done => Answer::Nothing,
    }
}

fn new_classify_decision(model: &String) -> (r: ClassifierDecision)
    ensures
        r@ == classify_decision(model@),
{
    let mut reasoning = "classifying request via ".to_string();
    reasoning.append(model.as_str());
    ClassifierDecision { selected_model: model.clone(), reasoning, score: None, tier: None }
}

fn show_score(score: &Option<Score>) -> (r: String)
    ensures
        r@ == shown_score(score_view(*score)),
{
    match score {
        Some(score) => {
            let mut text = "Some(".to_string();
            text.append(score.text.as_str());
            text.append(")");
            text
        },
        None => "None".to_string(),
    }
}

/// End the run with a failure.
fn fail<C: ?Sized, E>(failure: Failure<E>) -> (r: (
    ClassifierRun<C>,
    Action<ClassifierDecision, C, E>,
))
    ensures
        (r.0@, r.1@) == failed::<C, E>(failure@),
{
    (
        ClassifierRun { state: ClassifierState::Done },
        Action::Finish(Err(failure)),
    )
}

impl<C: ?Sized> LlmClassifierOrchAlgo<C> {
    /// Configure the classifier: the model that scores each request, the strong and weak
    /// models to route to, the score `threshold` at or above which the strong model is chosen,
    /// and the `target_set` to route among.
    pub fn new(
        classifier_model: String,
        strong_model: String,
        weak_model: String,
        threshold: Score,
        target_set: LlmTargetSet<C>,
    ) -> (r: Self)
        ensures
            r@ == (ClassifierView {
                classifier: classifier_model@,
                strong: strong_model@,
                weak: weak_model@,
                threshold: threshold@,
                targets: target_set@,
            }),
    {
        LlmClassifierOrchAlgo { classifier_model, strong_model, weak_model, threshold, target_set }
    }

    /// Pick the tier for a score. Without a score it is the strong one.
    pub fn pick_tier(&self, score: &Option<Score>) -> (r: ClassifierTier)
        ensures
            r == tier_for(score_view(*score), self@.threshold),
    {
        match score {
            Some(score) => if score.is_at_least(&self.threshold) {
                ClassifierTier::Strong
            } else {
                ClassifierTier::Weak
            },
            None => ClassifierTier::Strong,
        }
    }

    fn new_route_decision(&self, score: Option<Score>) -> (r: ClassifierDecision)
        ensures
            r@ == route_decision(self@, score_view(score)),
    {
        let tier = self.pick_tier(&score);
        let model: String = match tier {
            ClassifierTier::Strong => self.strong_model.clone(),
            ClassifierTier::Weak => self.weak_model.clone(),
        };
        let mut reasoning = "classifier score ".to_string();
        reasoning.append(show_score(&score).as_str());
        reasoning.append(" vs threshold ");
        reasoning.append(self.threshold.text.as_str());
        reasoning.append("; selected ");
        reasoning.append(model.as_str());
        reasoning.append(" (");
        reasoning.append(tier.as_str());
        reasoning.append(")");
        ClassifierDecision { selected_model: model, reasoning, score, tier: Some(tier) }
    }

    /// Ask the classifier target for a score.
    fn classify<E>(&self, request: Request) -> (r: (
        ClassifierRun<C>,
        Action<ClassifierDecision, C, E>,
    ))
        ensures
            (r.0@, r.1@) == started::<C, E>(self@, request@),
    {
        match self.target_set.get_target(self.classifier_model.as_str()) {
            Ok(target) => {
                let mut prompt = CLASSIFIER_PROMPT_PREAMBLE.to_string();
                prompt.append(request.llm_request.prompt.as_str());
                let decision = Arc::new(new_classify_decision(&self.classifier_model));
                let call = RoutedRequest::to_target(
                    &target,
                    request.with_prompt(prompt),
                    decision.clone(),
                );
                (
                    ClassifierRun { state: ClassifierState::Announcing { request, call } },
                    Action::Publish(decision),
                )
            },
            Err(error) => fail(Failure::Library(error)),
        }
    }

    /// Route a request by its score.
    fn route<E>(&self, request: Request, score: Option<Score>) -> (r: (
        ClassifierRun<C>,
        Action<ClassifierDecision, C, E>,
    ))
        ensures
            (r.0@, r.1@) == routed::<C, E>(self@, request@, score_view(score)),
    {
        let decision = Arc::new(self.new_route_decision(score));
        match self.target_set.get_target(decision.selected_model.as_str()) {
            Ok(target) => {
                let call = RoutedRequest::to_target(&target, request, decision.clone());
                (
                    ClassifierRun { state: ClassifierState::Routing { call } },
                    Action::Publish(decision),
                )
            },
            Err(error) => fail(Failure::Library(error)),
        }
    }
}

impl<C: ?Sized> Algorithm<C> for LlmClassifierOrchAlgo<C> {
    type Decision = ClassifierDecision;

    type Run = ClassifierRun<C>;

    open spec fn awaits(run: ClassifierRun<C>) -> Answer {
        classifier_awaits(run@)
    }

    open spec fn run_wf(run: ClassifierRun<C>) -> bool {
        true
    }

    open spec fn wf(&self) -> bool {
        true
    }

    open spec fn has_room(&self, run: ClassifierRun<C>) -> bool {
        true
    }

    fn can_resume(&self, run: &ClassifierRun<C>) -> (r: bool) {
        true
    }

    fn create_run_task<E>(&mut self, ctx: Context, request: Request) -> (r: (
        ClassifierRun<C>,
        Action<ClassifierDecision, C, E>,
    ))
        ensures
            final(self)@ == old(self)@,
            (r.0@, r.1@) == started::<C, E>(old(self)@, request@),
    {
        self.classify(request)
    }

    fn resume<E>(&mut self, run: ClassifierRun<C>, event: Event<E>) -> (r: (
        ClassifierRun<C>,
        Action<ClassifierDecision, C, E>,
    ))
        ensures
            final(self)@ == old(self)@,
            (r.0@, r.1@) == resumed::<C, E>(old(self)@, run@, event@),
    {
        match (run.state, event) {
            (ClassifierState::Announcing { request, call }, Event::Published(outcome)) => {
                match outcome {
                    Ok(_) => (
                        ClassifierRun { state: ClassifierState::Classifying { request } },
                        Action::Call(call),
                    ),
                    Err(failure) => fail(failure),
                }
            },
            (ClassifierState::Classifying { request }, Event::Replied(reply)) => match reply {
                Ok(response) => {
                    let text = trim(response.llm_response.completion.as_str()).to_string();
                    (
                        ClassifierRun { state: ClassifierState::Scoring { request } },
                        Action::ReadScore(text),
                    )
                },
                Err(failure) => fail(failure),
            },
            (ClassifierState::Scoring { request }, Event::ScoreRead(score)) => self.route(
                request,
                score,
            ),
            (ClassifierState::Routing { call }, Event::Published(outcome)) => match outcome {
                Ok(_) => (
                    ClassifierRun { state: ClassifierState::Calling },
                    Action::Call(call),
                ),
                Err(failure) => fail(failure),
            },
            (ClassifierState::Calling, Event::Replied(reply)) => (
                ClassifierRun { state: ClassifierState::Done },
                Action::Finish(reply),
            ),
            _ => unreached(),
        }
    }

    fn process_signals(&mut self, signals: Signals) -> (r: Result<(), Error>)
        ensures
            r == Ok::<(), Error>(()),
            final(self)@ == old(self)@,
    {
        Ok(())
    }
}

} // verus!
