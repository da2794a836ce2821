//! Laws of the routers: what holds over whole runs and over every state.

use std::sync::Arc;
use vstd::arithmetic::power2::{lemma_pow2_unfold, pow2};
use vstd::multiset::Multiset;
use vstd::prelude::*;

use crate::draws::{one_draw, Draw};
use crate::driver;
use crate::driver::{CallLlmRequest, FulfillStep, Reply, Step};
use crate::ensemble;
use crate::ensemble::{EnsembleDecisionView, EnsemblePhase, EnsembleRunView, EnsembleView};
use crate::error::{ErrorOf, ErrorView, Failure, FailureView};
use crate::llm_class;
use crate::llm_class::{ClassifierDecisionView, ClassifierRunView, ClassifierTier, ClassifierView};
use crate::rand;
use crate::rand::{RandomDecisionView, RandomRunView};
use crate::run;
use crate::run::RunNext;
use crate::score;
use crate::score::ScoreView;
use crate::target::{
    find_target, has_target, is_first_named, lemma_find_target, Decision, LlmTarget, RoutedView,
};
use crate::task::{answer_of, asked_by, ActionView, Answer, EventView};
use crate::text;
use crate::types::{RequestView, Response};

verus! {

/// Two requests carry the same inbound model name, raw body and metadata. They may differ in
/// the prompt.
pub open spec fn same_envelope(a: RequestView, b: RequestView) -> bool {
    &&& a.inbound_model_name == b.inbound_model_name
    &&& a.raw_request == b.raw_request
    &&& a.metadata == b.metadata
}

/// Every call that `action` asks for carries the envelope of `request`.
pub open spec fn carries<V, C: ?Sized, E>(
    action: ActionView<V, C, E>,
    request: RequestView,
) -> bool {
    match action {
        ActionView::Call(call) => same_envelope(call.request, request),
        ActionView::FanOut(calls) => forall|i: int|
            0 <= i < calls.len() ==> same_envelope((#[trigger] calls[i]).request, request),
        _ => true,
    }
}

/// A target is found by its name, the first where several have it, and none is found exactly
/// where none has it.
pub proof fn law_find_target<C: ?Sized>(targets: Seq<LlmTarget<C>>, name: Seq<char>, i: int)
    ensures
        0 <= i < targets.len() && targets[i].semantic_name@ == name && (forall|j: int|
            0 <= j < i ==> (#[trigger] targets[j]).semantic_name@ != name) ==> find_target(
            targets,
            name,
        ) == Some(targets[i]),
        (forall|j: int| 0 <= j < targets.len() ==> (#[trigger] targets[j]).semantic_name@ != name)
            ==> find_target(targets, name) is None && !has_target(targets, name),
        0 <= i < targets.len() && targets[i].semantic_name@ == name ==> has_target(targets, name)
            && find_target(targets, name) is Some,
{
    lemma_find_target(targets, name);
    if 0 <= i < targets.len() && targets[i].semantic_name@ == name {
        assert(has_target(targets, name));
        if forall|j: int| 0 <= j < i ==> (#[trigger] targets[j]).semantic_name@ != name {
            assert(is_first_named(targets, name, i));
            assert forall|k: int| is_first_named(targets, name, k) implies k == i by {
                if k < i {
                    assert(targets[k].semantic_name@ != name);
                }
                if i < k {
                    assert(targets[i].semantic_name@ != name);
                }
            }
        }
    }
    if forall|j: int| 0 <= j < targets.len() ==> (#[trigger] targets[j]).semantic_name@ != name {
        assert(!has_target(targets, name));
    }
}

// ---------------------------------------------------------------------------------------------
// Scores
// ---------------------------------------------------------------------------------------------

/// Numbers are totally ordered: of two, one reaches the other, and reaching is reflexive and
/// transitive.
pub proof fn law_numbers_are_ordered(a: u64, b: u64, c: u64)
    requires
        !score::is_nan(a),
        !score::is_nan(b),
        !score::is_nan(c),
    ensures
        score::reaches(a, a),
        score::reaches(a, b) || score::reaches(b, a),
        score::reaches(a, b) && score::reaches(b, c) ==> score::reaches(a, c),
{
}

/// A pattern is read as IEEE 754 lays it out: the top bit is the sign, the eleven bits below it
/// the exponent and the rest the fraction. All exponent bits set with a fraction is no number.
/// The sign turns a value into its opposite.
pub proof fn law_score_pattern(bits: u64)
    ensures
        score::is_negative(bits) <==> bits >= 0x8000_0000_0000_0000,
        score::magnitude(bits) == bits as int % 0x8000_0000_0000_0000,
        score::is_nan(bits) <==> (bits as int / 0x10_0000_0000_0000) % 2048 == 2047 && bits as int
            % 0x10_0000_0000_0000 != 0,
        score::value(bits) == (if bits >= 0x8000_0000_0000_0000 {
            -(score::units((bits - 0x8000_0000_0000_0000) as nat) as int)
        } else {
            score::units(bits as nat) as int
        }),
{
}

/// Up to the first doubling, values grow by one unit from pattern to pattern. From the first
/// normal number on, a step of the exponent doubles the value.
pub proof fn law_score_units(m: nat)
    ensures
        m < 0x20_0000_0000_0000 ==> score::units(m) == m,
        m >= 0x10_0000_0000_0000 ==> score::units(m + 0x10_0000_0000_0000) == 2 * score::units(m),
{
    let unit: nat = 0x10_0000_0000_0000;
    vstd::arithmetic::power2::lemma2_to64();
    if unit <= m {
        let exponent = m / unit;
        let fraction = m % unit;
        assert((m + unit) / unit == exponent + 1 && (m + unit) % unit == fraction);
        let p = pow2((exponent - 1) as nat);
        lemma_pow2_unfold(exponent);
        assert((unit + fraction) * (2 * p) == 2 * ((unit + fraction) * p)) by (nonlinear_arith);
        if m < 0x20_0000_0000_0000 {
            assert(exponent == 1);
            assert((unit + fraction) * 1 == m);
        }
    }
}

/// One score reaches another exactly where both are numbers and its value is not below.
pub proof fn law_reaches(a: u64, b: u64)
    ensures
        score::reaches(a, b) <==> !score::is_nan(a) && !score::is_nan(b) && score::value(a)
            >= score::value(b),
{
}

/// The tier is decided by the values alone: strong for a number at or above the threshold, weak
/// for a number below it, weak where either is no number, and strong where no score was read.
/// The strong tier goes to the strong model and the weak tier to the weak one.
pub proof fn law_tier<C: ?Sized>(
    classifier: ClassifierView<C>,
    score: ScoreView,
    threshold: ScoreView,
)
    ensures
        ({
            let numbers = !score::is_nan(score.bits) && !score::is_nan(threshold.bits);
            let below = score::value(score.bits) < score::value(threshold.bits);
            &&& numbers && !below ==> llm_class::tier_for(Some(score), threshold)
                == ClassifierTier::Strong
            &&& numbers && below ==> llm_class::tier_for(Some(score), threshold)
                == ClassifierTier::Weak
            &&& !numbers ==> llm_class::tier_for(Some(score), threshold) == ClassifierTier::Weak
        }),
        llm_class::tier_for(None, threshold) == ClassifierTier::Strong,
        llm_class::tier_model(classifier, ClassifierTier::Strong) == classifier.strong,
        llm_class::tier_model(classifier, ClassifierTier::Weak) == classifier.weak,
{
}

/// A score exactly at the threshold routes strong, and a higher score never routes weaker than
/// a lower one.
pub proof fn law_tier_follows_score(low: ScoreView, high: ScoreView, threshold: ScoreView)
    requires
        score::reaches(high.bits, low.bits),
        !score::is_nan(threshold.bits),
    ensures
        llm_class::tier_for(Some(threshold), threshold) == ClassifierTier::Strong,
        llm_class::tier_for(Some(low), threshold) == ClassifierTier::Strong
            ==> llm_class::tier_for(Some(high), threshold) == ClassifierTier::Strong,
{
}

/// The router fails open on a reply that is no number at all, and routes weak on a score that
/// is the special value "not a number".
pub proof fn law_tier_without_a_number(odd: ScoreView, threshold: ScoreView)
    requires
        score::is_nan(odd.bits),
    ensures
        llm_class::tier_for(None, threshold) == ClassifierTier::Strong,
        llm_class::tier_for(Some(odd), threshold) == ClassifierTier::Weak,
{
}

/// A run that fails, of whichever router, is over and returns its failure as it is.
pub proof fn law_failed<C: ?Sized, E>(failure: FailureView<E>)
    ensures
        rand::failed::<C, E>(failure).0 is Done,
        rand::failed::<C, E>(failure).1 == ActionView::<RandomDecisionView, C, E>::Finish(
            Err(failure),
        ),
        llm_class::failed::<C, E>(failure).0 is Done,
        llm_class::failed::<C, E>(failure).1 == ActionView::<ClassifierDecisionView, C, E>::Finish(
            Err(failure),
        ),
        ensemble::failed::<C, E>(failure).0 is Done,
        ensemble::failed::<C, E>(failure).1 == ActionView::<EnsembleDecisionView, C, E>::Finish(
            Err(failure),
        ),
{
}

// ---------------------------------------------------------------------------------------------
// Random router
// ---------------------------------------------------------------------------------------------

/// `call` serves `request`, unchanged, with a target of the set: its decision selects the
/// target's name and its client is the target's.
pub open spec fn random_call_ok<C: ?Sized>(
    targets: Seq<LlmTarget<C>>,
    request: RequestView,
    call: RoutedView<RandomDecisionView, C>,
) -> bool {
    &&& call.request == request
    &&& exists|i: int|
        0 <= i < targets.len() && call.decision == rand::random_decision(
            (#[trigger] targets[i]).semantic_name@,
        ) && call.default_client == targets[i].llm_client
}

/// One draw is one more draw than before, below its range. Whatever index below the range is
/// drawn, it is one draw: no index is left out.
pub proof fn law_one_draw(before: Seq<Draw>, after: Seq<Draw>, range: nat, index: nat)
    ensures
        one_draw(before, after, range) ==> after.len() == before.len() + 1 && after
            == before.push(after.last()) && after.last().range == range && after.last().index
            < range,
        index < range ==> one_draw(before, before.push(Draw { range, index }), range),
{
    if one_draw(before, after, range) {
        assert(after =~= before.push(after.last()));
    }
    assert(before.push(Draw { range, index }).drop_last() =~= before);
}

/// A run without a target to choose ends with that error. The decision for a target selects the
/// target's name.
pub proof fn law_random_choice<C: ?Sized, E>(request: RequestView, name: Seq<char>)
    ensures
        rand::routed::<C, E>(None, request).1 == ActionView::<RandomDecisionView, C, E>::Finish(
            Err(FailureView::Library(ErrorOf::NoTargets)),
        ),
        rand::random_decision(name).selected_model == name,
        rand::random_decision(name).reasoning == "random routing selected target '"@ + name
            + "'"@,
{
}

/// What the random router does with a request: it announces the chosen target, calls exactly
/// that target with the request as it came, and returns the reply as it is. The chosen target
/// belongs to the set.
pub proof fn law_random_run<C: ?Sized, E>(
    targets: Seq<LlmTarget<C>>,
    chosen: LlmTarget<C>,
    request: RequestView,
    reply: Result<Response, FailureView<E>>,
)
    requires
        targets.contains(chosen),
    ensures
        ({
            let first = rand::routed::<C, E>(Some(chosen), request);
            let second = rand::resumed::<C, E>(first.0, EventView::Published(Ok(())));
            let third = rand::resumed::<C, E>(second.0, EventView::Replied(reply));
            let decision = rand::random_decision(chosen.semantic_name@);
            &&& first.1 == ActionView::<RandomDecisionView, C, E>::Publish(decision)
            &&& second.1 matches ActionView::Call(call)
            &&& call.decision == decision
            &&& call.decision.selected_model == chosen.semantic_name@
            &&& call.default_client == chosen.llm_client
            &&& call.request == request
            &&& random_call_ok(targets, request, call)
            &&& third.1 == ActionView::<RandomDecisionView, C, E>::Finish(reply)
        }),
{
    let i = choose|i: int| 0 <= i < targets.len() && targets[i] == chosen;
    assert(targets[i].semantic_name@ == chosen.semantic_name@);
}

/// A failure to publish or to call ends a run of the random router with that failure.
pub proof fn law_random_failure_ends_the_run<C: ?Sized, E>(
    run: RandomRunView<C>,
    failure: FailureView<E>,
)
    ensures
        rand::random_awaits(run) == Answer::Publication ==> rand::resumed::<C, E>(
            run,
            EventView::Published(Err(failure)),
        ) == rand::failed::<C, E>(failure),
        rand::random_awaits(run) == Answer::Reply ==> rand::resumed::<C, E>(
            run,
            EventView::Replied(Err(failure)),
        ) == rand::failed::<C, E>(failure),
{
}

// ---------------------------------------------------------------------------------------------
// Classifier router
// ---------------------------------------------------------------------------------------------

/// `call` carries the envelope of `request`, and its client is that of the target its decision
/// selects.
pub open spec fn classifier_call_ok<C: ?Sized>(
    classifier: ClassifierView<C>,
    request: RequestView,
    call: RoutedView<ClassifierDecisionView, C>,
) -> bool {
    &&& same_envelope(call.request, request)
    &&& find_target(classifier.targets, call.decision.selected_model) matches Some(target)
    &&& call.default_client == target.llm_client
}

/// `run` is at work on `request`.
pub open spec fn classifier_run_ok<C: ?Sized>(
    classifier: ClassifierView<C>,
    request: RequestView,
    run: ClassifierRunView<C>,
) -> bool {
    match run {
        ClassifierRunView::Announcing { request: asked, call } => asked == request
            && classifier_call_ok(classifier, request, call),
        ClassifierRunView::Classifying { request: asked } => asked == request,
        ClassifierRunView::Scoring { request: asked } => asked == request,
        ClassifierRunView::Routing { call } => classifier_call_ok(classifier, request, call),
        ClassifierRunView::Calling => true,
        ClassifierRunView::Done => true,
    }
}

/// Every call that an action asks for is in order.
pub open spec fn classifier_action_ok<C: ?Sized, E>(
    classifier: ClassifierView<C>,
    request: RequestView,
    action: ActionView<ClassifierDecisionView, C, E>,
) -> bool {
    match action {
        ActionView::Call(call) => classifier_call_ok(classifier, request, call),
        ActionView::FanOut(_) => false,
        _ => true,
    }
}

/// Whatever happens, every call of the classifier router carries the inbound model name, the
/// raw body and the metadata of the request, and the client of the model its decision selects:
/// the beginning of a run.
pub proof fn law_classifier_calls_at_start<C: ?Sized, E>(
    classifier: ClassifierView<C>,
    request: RequestView,
)
    ensures
        ({
            let next = llm_class::started::<C, E>(classifier, request);
            &&& classifier_run_ok(classifier, request, next.0)
            &&& classifier_action_ok(classifier, request, next.1)
            &&& carries(next.1, request)
        }),
{
}

/// Whatever happens, every call of the classifier router carries the inbound model name, the
/// raw body and the metadata of the request, and the client of the model its decision selects:
/// the continuation of a run.
pub proof fn law_classifier_calls_on_resume<C: ?Sized, E>(
    classifier: ClassifierView<C>,
    request: RequestView,
    run: ClassifierRunView<C>,
    event: EventView<E>,
)
    requires
        classifier_run_ok(classifier, request, run),
        llm_class::classifier_awaits(run) == answer_of(event),
    ensures
        ({
            let next = llm_class::resumed::<C, E>(classifier, run, event);
            &&& classifier_run_ok(classifier, request, next.0)
            &&& classifier_action_ok(classifier, request, next.1)
            &&& carries(next.1, request)
        }),
{
}

/// What the classifier router does with a request: it announces the classifier, asks it the
/// preamble followed by the user's prompt, has the trimmed reply read as a number, announces
/// the model of the tier that the number selects, asks that model the request as it came, and
/// returns its reply as it is.
pub proof fn law_classifier_run<C: ?Sized, E>(
    classifier: ClassifierView<C>,
    request: RequestView,
    scored: Response,
    number: Option<ScoreView>,
    reply: Result<Response, FailureView<E>>,
)
    requires
        has_target(classifier.targets, classifier.classifier),
        has_target(
            classifier.targets,
            llm_class::tier_model(
                classifier,
                llm_class::tier_for(number, classifier.threshold),
            ),
        ),
    ensures
        ({
            let s0 = llm_class::started::<C, E>(classifier, request);
            let s1 = llm_class::resumed::<C, E>(classifier, s0.0, EventView::Published(Ok(())));
            let s2 = llm_class::resumed::<C, E>(classifier, s1.0, EventView::Replied(Ok(scored)));
            let s3 = llm_class::resumed::<C, E>(classifier, s2.0, EventView::ScoreRead(number));
            let s4 = llm_class::resumed::<C, E>(classifier, s3.0, EventView::Published(Ok(())));
            let s5 = llm_class::resumed::<C, E>(classifier, s4.0, EventView::Replied(reply));
            let tier = llm_class::tier_for(number, classifier.threshold);
            let classify = llm_class::classify_decision(classifier.classifier);
            let route = llm_class::route_decision(classifier, number);
            &&& s0.1 == ActionView::<ClassifierDecisionView, C, E>::Publish(classify)
            &&& s1.1 matches ActionView::Call(call)
            &&& call.decision == classify
            &&& call.request == request.with_prompt(
                llm_class::CLASSIFIER_PROMPT_PREAMBLE@ + request.prompt,
            )
            &&& call.request.prompt == llm_class::CLASSIFIER_PROMPT_PREAMBLE@ + request.prompt
            &&& same_envelope(call.request, request)
            &&& s2.1 == ActionView::<ClassifierDecisionView, C, E>::ReadScore(
                text::trimmed(scored.llm_response.completion@),
            )
            &&& s3.1 == ActionView::<ClassifierDecisionView, C, E>::Publish(route)
            &&& route.selected_model == llm_class::tier_model(classifier, tier)
            &&& route.tier == Some(tier)
            &&& route.score == number
            &&& s4.1 matches ActionView::Call(routed)
            &&& routed.decision == route
            &&& routed.request == request
            &&& s5.1 == ActionView::<ClassifierDecisionView, C, E>::Finish(reply)
        }),
{
    lemma_find_target(classifier.targets, classifier.classifier);
    lemma_find_target(
        classifier.targets,
        llm_class::tier_model(classifier, llm_class::tier_for(number, classifier.threshold)),
    );
}

/// The decisions of the classifier router select the classifier and then the model of the tier,
/// and say in words how the route came about.
pub proof fn law_classifier_decisions<C: ?Sized>(
    classifier: ClassifierView<C>,
    score: ScoreView,
    model: Seq<char>,
)
    ensures
        ({
            let asked = llm_class::classify_decision(model);
            &&& asked.selected_model == model
            &&& asked.reasoning == "classifying request via "@ + model
            &&& asked.score is None
            &&& asked.tier is None
        }),
        ({
            let strong = score::reaches(score.bits, classifier.threshold.bits);
            let selected = if strong {
                classifier.strong
            } else {
                classifier.weak
            };
            let routed = llm_class::route_decision(classifier, Some(score));
            &&& routed.selected_model == selected
            &&& routed.score == Some(score)
            &&& routed.tier == Some(
                if strong {
                    ClassifierTier::Strong
                } else {
                    ClassifierTier::Weak
                },
            )
            &&& routed.reasoning == "classifier score "@ + ("Some("@ + score.text + ")"@)
                + " vs threshold "@ + classifier.threshold.text + "; selected "@ + selected
                + " ("@ + (if strong {
                "strong"@
            } else {
                "weak"@
            }) + ")"@
        }),
        ({
            let routed = llm_class::route_decision(classifier, None);
            &&& routed.selected_model == classifier.strong
            &&& routed.score is None
            &&& routed.tier == Some(ClassifierTier::Strong)
            &&& routed.reasoning == "classifier score "@ + "None"@ + " vs threshold "@
                + classifier.threshold.text + "; selected "@ + classifier.strong + " ("@
                + "strong"@ + ")"@
        }),
{
}

/// A run of the classifier router fails with the name of the missing target: at once where it is
/// the classifier, and after the score where it is the model of the tier.
pub proof fn law_classifier_missing_targets<C: ?Sized, E>(
    classifier: ClassifierView<C>,
    request: RequestView,
    number: Option<ScoreView>,
)
    ensures
        !has_target(classifier.targets, classifier.classifier) ==> llm_class::started::<C, E>(
            classifier,
            request,
        ).1 == ActionView::<ClassifierDecisionView, C, E>::Finish(
            Err(FailureView::Library(ErrorOf::TargetNotFound(classifier.classifier))),
        ),
        ({
            let model = llm_class::tier_model(
                classifier,
                llm_class::tier_for(number, classifier.threshold),
            );
            !has_target(classifier.targets, model) ==> llm_class::resumed::<C, E>(
                classifier,
                ClassifierRunView::Scoring { request },
                EventView::ScoreRead(number),
            ).1 == ActionView::<ClassifierDecisionView, C, E>::Finish(
                Err(FailureView::Library(ErrorOf::TargetNotFound(model))),
            )
        }),
{
    lemma_find_target(classifier.targets, classifier.classifier);
    lemma_find_target(
        classifier.targets,
        llm_class::tier_model(classifier, llm_class::tier_for(number, classifier.threshold)),
    );
}

/// A failure to publish or to call ends a run of the classifier router with that failure.
pub proof fn law_classifier_failure_ends_the_run<C: ?Sized, E>(
    classifier: ClassifierView<C>,
    run: ClassifierRunView<C>,
    failure: FailureView<E>,
)
    ensures
        llm_class::classifier_awaits(run) == Answer::Publication ==> llm_class::resumed::<C, E>(
            classifier,
            run,
            EventView::Published(Err(failure)),
        ) == llm_class::failed::<C, E>(failure),
        llm_class::classifier_awaits(run) == Answer::Reply ==> llm_class::resumed::<C, E>(
            classifier,
            run,
            EventView::Replied(Err(failure)),
        ) == llm_class::failed::<C, E>(failure),
{
}

// ---------------------------------------------------------------------------------------------
// Ensemble router: one run
// ---------------------------------------------------------------------------------------------

/// Every candidate has a target.
pub open spec fn all_candidates_found<C: ?Sized>(ensemble: EnsembleView<C>) -> bool {
    forall|i: int|
        0 <= i < ensemble.candidates.len() ==> find_target(
            ensemble.targets,
            #[trigger] ensemble.candidates[i],
        ) is Some
}

/// The call of one candidate: the request as it came, routed to the candidate's target.
pub open spec fn candidate_call<C: ?Sized>(
    ensemble: EnsembleView<C>,
    request: RequestView,
    i: int,
) -> RoutedView<EnsembleDecisionView, C> {
    RoutedView {
        request,
        decision: ensemble::candidate_decision(ensemble.candidates[i]),
        default_client: find_target(ensemble.targets, ensemble.candidates[i]).unwrap().llm_client,
    }
}

/// The calls of a fan-out, one per candidate in candidate order.
pub open spec fn candidate_calls<C: ?Sized>(
    ensemble: EnsembleView<C>,
    request: RequestView,
) -> Seq<RoutedView<EnsembleDecisionView, C>> {
    Seq::new(ensemble.candidates.len(), |i: int| candidate_call(ensemble, request, i))
}

/// The decisions of a fan-out, one per candidate in candidate order.
pub open spec fn candidate_decisions(candidates: Seq<Seq<char>>) -> Seq<EnsembleDecisionView> {
    candidates.map_values(|model: Seq<char>| ensemble::candidate_decision(model))
}

/// Each decision of the ensemble selects the model it is about, is of its phase, and says in
/// words what happened.
pub proof fn law_ensemble_decisions(model: Seq<char>, count: nat)
    ensures
        ({
            let decision = ensemble::candidate_decision(model);
            &&& decision.selected_model == model
            &&& decision.phase == EnsemblePhase::Candidate
            &&& decision.reasoning == "ensemble candidate '"@ + model + "'"@
        }),
        ({
            let decision = ensemble::judge_decision(model, count);
            &&& decision.selected_model == model
            &&& decision.phase == EnsemblePhase::Judge
            &&& decision.reasoning == "judging "@ + text::decimal(count)
                + " candidate responses"@
        }),
        ({
            let decision = ensemble::winner_decision(model);
            &&& decision.selected_model == model
            &&& decision.phase == EnsemblePhase::Winner
            &&& decision.reasoning == "judge selected '"@ + model + "' as best response"@
        }),
        ({
            let decision = ensemble::committed_decision(model, count);
            &&& decision.selected_model == model
            &&& decision.phase == EnsemblePhase::Committed
            &&& decision.reasoning == "committed to '"@ + model + "' after "@ + text::decimal(
                count,
            ) + " turns"@
        }),
{
}

/// `call` carries the envelope of `request`, and its client is that of the target its decision
/// selects.
pub open spec fn ensemble_call_ok<C: ?Sized>(
    ensemble: EnsembleView<C>,
    request: RequestView,
    call: RoutedView<EnsembleDecisionView, C>,
) -> bool {
    &&& same_envelope(call.request, request)
    &&& find_target(ensemble.targets, call.decision.selected_model) matches Some(target)
    &&& call.default_client == target.llm_client
}

/// At least two candidates are left for the judge.
pub open spec fn survivors_ok<C: ?Sized>(
    ensemble: EnsembleView<C>,
    survivors: Seq<(Seq<char>, Response)>,
) -> bool {
    &&& survivors.len() >= 2
    &&& forall|i: int|
        0 <= i < survivors.len() ==> ensemble.candidates.contains((#[trigger] survivors[i]).0)
}

/// `run` is at work on `request`.
pub open spec fn ensemble_run_ok<C: ?Sized>(
    ensemble: EnsembleView<C>,
    request: RequestView,
    run: EnsembleRunView<C>,
) -> bool {
    match run {
        EnsembleRunView::Committing { call } => ensemble_call_ok(ensemble, request, call),
        EnsembleRunView::Announcing { request: asked, calls } => {
            &&& asked == request
            &&& 0 < calls.len() <= ensemble.candidates.len()
            &&& forall|i: int|
                0 <= i < calls.len() ==> #[trigger] calls[i] == candidate_call(
                    ensemble,
                    request,
                    i,
                ) && ensemble_call_ok(ensemble, request, calls[i])
        },
        EnsembleRunView::Exploring { request: asked, models } => asked == request && models
            == ensemble.candidates,
        EnsembleRunView::Summoning { survivors, call } => {
            &&& survivors_ok(ensemble, survivors)
            &&& ensemble_call_ok(ensemble, request, call)
            &&& call.decision == ensemble::judge_decision(ensemble.judge, survivors.len())
        },
        EnsembleRunView::Judging { survivors } => survivors_ok(ensemble, survivors),
        _ => true,
    }
}

/// Every call that an action asks for is in order.
pub open spec fn ensemble_action_ok<C: ?Sized, E>(
    ensemble: EnsembleView<C>,
    request: RequestView,
    action: ActionView<EnsembleDecisionView, C, E>,
) -> bool {
    match action {
        ActionView::Call(call) => ensemble_call_ok(ensemble, request, call),
        ActionView::FanOut(calls) => forall|i: int|
            0 <= i < calls.len() ==> ensemble_call_ok(ensemble, request, #[trigger] calls[i]),
        _ => true,
    }
}

/// Whatever happens, every call of the ensemble carries the inbound model name, the raw body
/// and the metadata of the request, and the client of the model its decision selects: the
/// beginning of a run.
pub proof fn law_ensemble_calls_at_start<C: ?Sized, E>(
    ensemble: EnsembleView<C>,
    request: RequestView,
)
    ensures
        ({
            let next = ensemble::started::<C, E>(ensemble, request);
            &&& ensemble_run_ok(ensemble, request, next.0)
            &&& ensemble_action_ok(ensemble, request, next.1)
            &&& carries(next.1, request)
        }),
{
    lemma_announced::<C, E>(ensemble, request, Seq::empty());
}

proof fn lemma_announced<C: ?Sized, E>(
    ensemble: EnsembleView<C>,
    request: RequestView,
    calls: Seq<RoutedView<EnsembleDecisionView, C>>,
)
    requires
        calls.len() <= ensemble.candidates.len(),
        forall|i: int|
            0 <= i < calls.len() ==> #[trigger] calls[i] == candidate_call(ensemble, request, i)
                && ensemble_call_ok(ensemble, request, calls[i]),
    ensures
        ({
            let next = ensemble::announced::<C, E>(ensemble, request, calls);
            &&& ensemble_run_ok(ensemble, request, next.0)
            &&& ensemble_action_ok(ensemble, request, next.1)
            &&& carries(next.1, request)
        }),
{
    let next = ensemble::announced::<C, E>(ensemble, request, calls);
    if calls.len() < ensemble.candidates.len() {
        let k = calls.len() as int;
        if let EnsembleRunView::Announcing { request: asked, calls: longer } = next.0 {
            assert(longer[k] == candidate_call(ensemble, request, k));
            assert forall|i: int| 0 <= i < longer.len() implies #[trigger] longer[i]
                == candidate_call(ensemble, request, i) && ensemble_call_ok(
                ensemble,
                request,
                longer[i],
            ) by {
                if i < k {
                    assert(longer[i] == calls[i]);
                }
            }
        }
    } else {
        assert(ensemble::called_models(calls) =~= ensemble.candidates) by {
            assert forall|i: int| 0 <= i < calls.len() implies ensemble::called_models(calls)[i]
                == ensemble.candidates[i] by {
                assert(calls[i] == candidate_call(ensemble, request, i));
            }
        }
        assert forall|i: int| 0 <= i < calls.len() implies same_envelope(
            (#[trigger] calls[i]).request,
            request,
        ) by {
            assert(ensemble_call_ok(ensemble, request, calls[i]));
        }
    }
}

/// Whatever happens, every call of the ensemble carries the inbound model name, the raw body
/// and the metadata of the request, and the client of the model its decision selects: the
/// continuation of a run.
pub proof fn law_ensemble_calls_on_resume<C: ?Sized, E>(
    ensemble: EnsembleView<C>,
    request: RequestView,
    run: EnsembleRunView<C>,
    event: EventView<E>,
)
    requires
        ensemble_run_ok(ensemble, request, run),
        ensemble::ensemble_awaits(run) == answer_of(event),
    ensures
        ({
            let next = ensemble::resumed::<C, E>(ensemble, run, event);
            &&& ensemble_run_ok(ensemble, request, next.0)
            &&& ensemble_action_ok(ensemble, request, next.1)
            &&& carries(next.1, request)
        }),
{
    match run {
        EnsembleRunView::Announcing { request: asked, calls } => {
            lemma_announced::<C, E>(ensemble, request, calls);
        },
        EnsembleRunView::Exploring { request: asked, models } => {
            if let EventView::AllReplied(outcomes) = event {
                lemma_survivors_are_candidates(ensemble.candidates, outcomes);
            }
        },
        _ => {},
    }
}

proof fn lemma_survivors_are_candidates<E>(
    candidates: Seq<Seq<char>>,
    outcomes: Seq<Result<Response, FailureView<E>>>,
)
    requires
        outcomes.len() <= candidates.len(),
    ensures
        forall|k: int|
            0 <= k < ensemble::survivors_of(candidates, outcomes).len() ==> candidates.contains(
                (#[trigger] ensemble::survivors_of(candidates, outcomes)[k]).0,
            ),
{
    let positions = law_survivors(candidates, outcomes);
    let survivors = ensemble::survivors_of(candidates, outcomes);
    assert forall|k: int| 0 <= k < survivors.len() implies candidates.contains(
        (#[trigger] survivors[k]).0,
    ) by {
        assert(survivors[k].0 == candidates[positions[k]]);
    }
}

/// The survivors of a fan-out are exactly the candidates whose calls succeeded, each with its
/// response, in candidate order: at increasing positions, none left out.
pub proof fn law_survivors<E>(
    models: Seq<Seq<char>>,
    outcomes: Seq<Result<Response, FailureView<E>>>,
) -> (positions: Seq<int>)
    requires
        outcomes.len() <= models.len(),
    ensures
        ({
            let survivors = ensemble::survivors_of(models, outcomes);
            &&& positions.len() == survivors.len() <= outcomes.len()
            &&& forall|k: int|
                0 <= k < survivors.len() ==> {
                    &&& 0 <= #[trigger] positions[k] < outcomes.len()
                    &&& outcomes[positions[k]] matches Ok(response)
                    &&& survivors[k] == (models[positions[k]], response)
                }
            &&& forall|k: int, l: int|
                0 <= k < l < survivors.len() ==> #[trigger] positions[k] < #[trigger] positions[l]
            &&& forall|i: int|
                0 <= i < outcomes.len() && (#[trigger] outcomes[i]) is Ok ==> positions.contains(i)
        }),
    decreases outcomes.len(),
{
    if outcomes.len() == 0 {
        Seq::empty()
    } else {
        let last = outcomes.len() - 1;
        let before = law_survivors(models, outcomes.drop_last());
        let positions = if outcomes.last() is Ok {
            before.push(last)
        } else {
            before
        };
        let survivors = ensemble::survivors_of(models, outcomes);
        assert forall|k: int| 0 <= k < survivors.len() implies {
            &&& 0 <= #[trigger] positions[k] < outcomes.len()
            &&& outcomes[positions[k]] matches Ok(response)
            &&& survivors[k] == (models[positions[k]], response)
        } by {
            if k < before.len() {
                assert(outcomes.drop_last()[before[k]] == outcomes[before[k]]);
            }
        }
        assert forall|i: int|
            0 <= i < outcomes.len() && (#[trigger] outcomes[i]) is Ok implies positions.contains(
            i,
        ) by {
            if i < last {
                assert(outcomes.drop_last()[i] is Ok);
                let k = choose|k: int| 0 <= k < before.len() && before[k] == i;
                assert(positions[k] == i);
            } else {
                assert(positions[before.len() as int] == i);
            }
        }
        positions
    }
}

/// What a run has come to after some events. The ensemble is the one the run began with: of what
/// it holds, only the configuration matters later on, and that never changes.
pub open spec fn after_events<C: ?Sized, E>(
    ensemble: EnsembleView<C>,
    request: RequestView,
    events: Seq<EventView<E>>,
) -> ensemble::EnsembleNext<C, E>
    decreases events.len(),
{
    if events.len() == 0 {
        ensemble::started(ensemble, request)
    } else {
        let before = after_events(ensemble, request, events.drop_last());
        ensemble::resumed(ensemble, before.0, events.last())
    }
}

/// Each of the events answers the action before it.
pub open spec fn all_answer<C: ?Sized, E>(
    ensemble: EnsembleView<C>,
    request: RequestView,
    events: Seq<EventView<E>>,
) -> bool
    decreases events.len(),
{
    events.len() > 0 ==> {
        &&& all_answer(ensemble, request, events.drop_last())
        &&& answer_of(events.last()) == asked_by(
            after_events(ensemble, request, events.drop_last()).1,
        )
    }
}

/// The decisions that a run has published: those whose publication was accepted, in order.
pub open spec fn published<C: ?Sized, E>(
    ensemble: EnsembleView<C>,
    request: RequestView,
    events: Seq<EventView<E>>,
) -> Seq<EnsembleDecisionView>
    decreases events.len(),
{
    if events.len() == 0 {
        Seq::empty()
    } else {
        let before = published(ensemble, request, events.drop_last());
        match (after_events(ensemble, request, events.drop_last()).1, events.last()) {
            (ActionView::Publish(decision), EventView::Published(Ok(_))) => before.push(decision),
            _ => before,
        }
    }
}

/// One more event.
proof fn lemma_next_event<C: ?Sized, E>(
    ensemble: EnsembleView<C>,
    request: RequestView,
    events: Seq<EventView<E>>,
    event: EventView<E>,
)
    ensures
        ({
            let before = after_events(ensemble, request, events);
            let sent = published(ensemble, request, events);
            let longer = events.push(event);
            &&& after_events(ensemble, request, longer) == ensemble::resumed(
                ensemble,
                before.0,
                event,
            )
            &&& all_answer(ensemble, request, longer) == (all_answer(ensemble, request, events)
                && answer_of(event) == asked_by(before.1))
            &&& published(ensemble, request, longer) == match (before.1, event) {
                (ActionView::Publish(decision), EventView::Published(Ok(_))) => sent.push(decision),
                _ => sent,
            }
        }),
{
    assert(events.push(event).drop_last() =~= events);
}

/// The decisions of several calls.
pub open spec fn call_decisions<C: ?Sized>(
    calls: Seq<RoutedView<EnsembleDecisionView, C>>,
) -> Seq<EnsembleDecisionView> {
    calls.map_values(|call: RoutedView<EnsembleDecisionView, C>| call.decision)
}

/// The decisions behind the calls that an action asks for.
pub open spec fn decisions_behind<C: ?Sized, E>(
    action: ActionView<EnsembleDecisionView, C, E>,
) -> Seq<EnsembleDecisionView> {
    match action {
        ActionView::Call(call) => seq![call.decision],
        ActionView::FanOut(calls) => call_decisions(calls),
        _ => Seq::empty(),
    }
}

/// Where a run stands tells what it has published so far.
spec fn in_step<C: ?Sized, E>(
    next: ensemble::EnsembleNext<C, E>,
    sent: Seq<EnsembleDecisionView>,
) -> bool {
    &&& ensemble::ensemble_awaits(next.0) == asked_by(next.1)
    &&& forall|i: int|
        0 <= i < decisions_behind(next.1).len() ==> sent.contains(
            #[trigger] decisions_behind(next.1)[i],
        )
    &&& match next.0 {
        EnsembleRunView::Committing { call } => next.1 == ActionView::<
            EnsembleDecisionView,
            C,
            E,
        >::Publish(call.decision),
        EnsembleRunView::Announcing { calls, .. } => {
            &&& calls.len() > 0
            &&& next.1 == ActionView::<EnsembleDecisionView, C, E>::Publish(calls.last().decision)
            &&& sent == call_decisions(calls.drop_last())
        },
        EnsembleRunView::Summoning { call, .. } => next.1 == ActionView::<
            EnsembleDecisionView,
            C,
            E,
        >::Publish(call.decision),
        _ => true,
    }
}

proof fn lemma_in_step<C: ?Sized, E>(
    ensemble: EnsembleView<C>,
    request: RequestView,
    events: Seq<EventView<E>>,
)
    requires
        all_answer(ensemble, request, events),
    ensures
        in_step(
            after_events(ensemble, request, events),
            published(ensemble, request, events),
        ),
    decreases events.len(),
{
    let sent = published(ensemble, request, events);
    if events.len() == 0 {
        assert(call_decisions(Seq::<RoutedView<EnsembleDecisionView, C>>::empty())
            =~= Seq::empty());
        if let EnsembleRunView::Announcing { calls, .. } = after_events(
            ensemble,
            request,
            events,
        ).0 {
            assert(calls.drop_last() =~= Seq::empty());
        }
    } else {
        lemma_in_step(ensemble, request, events.drop_last());
        let before = after_events(ensemble, request, events.drop_last());
        let now = after_events(ensemble, request, events);
        match before.0 {
            EnsembleRunView::Announcing { calls, .. } => {
                if let EventView::Published(Ok(_)) = events.last() {
                    assert(calls.drop_last().push(calls.last()) =~= calls);
                    assert(sent =~= call_decisions(calls));
                    if let EnsembleRunView::Announcing { calls: longer, .. } = now.0 {
                        assert(longer.drop_last() =~= calls);
                    }
                    assert forall|i: int| 0 <= i < decisions_behind(now.1).len() implies sent.contains(
                        #[trigger] decisions_behind(now.1)[i],
                    ) by {
                        assert(sent[i] == decisions_behind(now.1)[i]);
                    }
                }
            },
            EnsembleRunView::Committing { call } => {
                if let EventView::Published(Ok(_)) = events.last() {
                    assert(sent.last() == call.decision);
                }
            },
            EnsembleRunView::Summoning { call, .. } => {
                if let EventView::Published(Ok(_)) = events.last() {
                    assert(sent.last() == call.decision);
                }
            },
            _ => {},
        }
    }
}

/// Decisions are published as they are made: whatever has happened to a run, the decision behind
/// each call it has asked for so far, at any time, was published before the call, and stays
/// published. So a run that fails has published the decisions behind all the calls it made until
/// then.
pub proof fn law_decisions_precede_their_calls<C: ?Sized, E>(
    ensemble: EnsembleView<C>,
    request: RequestView,
    events: Seq<EventView<E>>,
    at: int,
    i: int,
)
    requires
        all_answer(ensemble, request, events),
        0 <= at <= events.len(),
        0 <= i < decisions_behind(after_events(ensemble, request, events.take(at)).1).len(),
    ensures
        ({
            let decision = decisions_behind(
                after_events(ensemble, request, events.take(at)).1,
            )[i];
            &&& published(ensemble, request, events.take(at)).contains(decision)
            &&& published(ensemble, request, events).contains(decision)
        }),
    decreases events.len(),
{
    if at == events.len() {
        assert(events.take(at) =~= events);
        lemma_in_step(ensemble, request, events);
    } else {
        assert(events.drop_last().take(at) =~= events.take(at));
        law_decisions_precede_their_calls(ensemble, request, events.drop_last(), at, i);
        let decision = decisions_behind(after_events(ensemble, request, events.take(at)).1)[i];
        let before = published(ensemble, request, events.drop_last());
        let k = choose|k: int| 0 <= k < before.len() && before[k] == decision;
        assert(published(ensemble, request, events)[k] == decision);
    }
}

/// As many accepted publications.
pub open spec fn accepted<E>(count: nat) -> Seq<EventView<E>> {
    Seq::new(count, |i: int| EventView::Published(Ok(())))
}

/// An exploration turn begins with the decisions of its candidates, published one by one in
/// candidate order. Once all are published, all candidates are called at once with the request
/// as it came. Where a candidate has no target, the turn fails, and the decisions of the
/// candidates before it are published.
pub proof fn law_turn_announces_its_candidates<C: ?Sized, E>(
    ensemble: EnsembleView<C>,
    request: RequestView,
    count: nat,
)
    requires
        ensemble::resolved(ensemble) == Ok::<Option<Seq<char>>, ErrorView>(None),
        count <= ensemble.candidates.len(),
        forall|i: int|
            0 <= i < count ==> find_target(ensemble.targets, #[trigger] ensemble.candidates[i])
                is Some,
    ensures
        ({
            let events = accepted::<E>(count);
            let action = after_events(ensemble, request, events).1;
            &&& all_answer(ensemble, request, events)
            &&& published(ensemble, request, events) == candidate_decisions(
                ensemble.candidates.take(count as int),
            )
            &&& if count < ensemble.candidates.len() {
                let model = ensemble.candidates[count as int];
                if find_target(ensemble.targets, model) is Some {
                    action == ActionView::<EnsembleDecisionView, C, E>::Publish(
                        ensemble::candidate_decision(model),
                    )
                } else {
                    action == ActionView::<EnsembleDecisionView, C, E>::Finish(
                        Err(FailureView::Library(ErrorOf::TargetNotFound(model))),
                    )
                }
            } else {
                action == ActionView::<EnsembleDecisionView, C, E>::FanOut(
                    candidate_calls(ensemble, request),
                )
            }
        }),
{
    lemma_announcements::<C, E>(ensemble, request, count);
    let calls = candidate_calls(ensemble, request);
    assert(calls.take(calls.len() as int) =~= calls);
}

proof fn lemma_announcements<C: ?Sized, E>(
    ensemble: EnsembleView<C>,
    request: RequestView,
    count: nat,
)
    requires
        ensemble::resolved(ensemble) == Ok::<Option<Seq<char>>, ErrorView>(None),
        count <= ensemble.candidates.len(),
        forall|i: int|
            0 <= i < count ==> find_target(ensemble.targets, #[trigger] ensemble.candidates[i])
                is Some,
    ensures
        after_events(ensemble, request, accepted::<E>(count)) == ensemble::announced::<C, E>(
            ensemble,
            request,
            candidate_calls(ensemble, request).take(count as int),
        ),
        all_answer(ensemble, request, accepted::<E>(count)),
        published(ensemble, request, accepted::<E>(count)) == candidate_decisions(
            ensemble.candidates.take(count as int),
        ),
    decreases count,
{
    let calls = candidate_calls(ensemble, request);
    if count == 0 {
        assert(calls.take(0) =~= Seq::empty());
        assert(published(ensemble, request, accepted::<E>(count)) =~= candidate_decisions(
            ensemble.candidates.take(0),
        ));
    } else {
        let before = (count - 1) as nat;
        lemma_announcements::<C, E>(ensemble, request, before);
        assert(accepted::<E>(count).drop_last() =~= accepted::<E>(before));
        assert(find_target(ensemble.targets, ensemble.candidates[before as int]) is Some);
        assert(calls.take(count as int) =~= calls.take(before as int).push(
            candidate_call(ensemble, request, before as int),
        ));
        assert(published(ensemble, request, accepted::<E>(count)) =~= candidate_decisions(
            ensemble.candidates.take(count as int),
        ));
    }
}

/// The events of a turn whose candidates were announced and called with these outcomes.
pub open spec fn explored<E>(
    count: nat,
    outcomes: Seq<Result<Response, FailureView<E>>>,
) -> Seq<EventView<E>> {
    accepted::<E>(count).push(EventView::AllReplied(outcomes))
}

proof fn lemma_explored<C: ?Sized, E>(
    ensemble: EnsembleView<C>,
    request: RequestView,
    outcomes: Seq<Result<Response, FailureView<E>>>,
)
    requires
        ensemble::resolved(ensemble) == Ok::<Option<Seq<char>>, ErrorView>(None),
        all_candidates_found(ensemble),
        outcomes.len() == ensemble.candidates.len(),
    ensures
        ({
            let called = accepted::<E>(ensemble.candidates.len());
            let events = explored(ensemble.candidates.len(), outcomes);
            let run = EnsembleRunView::<C>::Exploring { request, models: ensemble.candidates };
            &&& after_events(ensemble, request, called).0 == run
            &&& after_events(ensemble, request, events) == ensemble::resumed(
                ensemble,
                run,
                EventView::AllReplied(outcomes),
            )
            &&& all_answer(ensemble, request, events)
            &&& published(ensemble, request, events) == candidate_decisions(ensemble.candidates)
        }),
{
    let count = ensemble.candidates.len();
    law_turn_announces_its_candidates::<C, E>(ensemble, request, count);
    lemma_announcements::<C, E>(ensemble, request, count);
    let calls = candidate_calls(ensemble, request);
    assert(calls.take(count as int) =~= calls);
    assert(ensemble::called_models(calls) =~= ensemble.candidates);
    assert(ensemble.candidates.take(count as int) =~= ensemble.candidates);
    lemma_next_event(
        ensemble,
        request,
        accepted::<E>(count),
        EventView::AllReplied(outcomes),
    );
}

/// A turn fails because its candidates failed exactly where every one of them did: a failed
/// candidate is left out and does not fail the turn. The decisions of the candidates are
/// published by then, and no win is recorded.
pub proof fn law_turn_fails_with_all_candidates<C: ?Sized, E>(
    ensemble: EnsembleView<C>,
    request: RequestView,
    outcomes: Seq<Result<Response, FailureView<E>>>,
)
    requires
        ensemble::resolved(ensemble) == Ok::<Option<Seq<char>>, ErrorView>(None),
        all_candidates_found(ensemble),
        outcomes.len() == ensemble.candidates.len(),
    ensures
        ({
            let events = explored(ensemble.candidates.len(), outcomes);
            let called = after_events(
                ensemble,
                request,
                accepted::<E>(ensemble.candidates.len()),
            ).0;
            let all_failed = forall|i: int|
                0 <= i < outcomes.len() ==> (#[trigger] outcomes[i]) is Err;
            &&& after_events(ensemble, request, events).1 == ActionView::<
                EnsembleDecisionView,
                C,
                E,
            >::Finish(Err(FailureView::Library(ErrorOf::AllCandidatesFailed))) <==> all_failed
            &&& published(ensemble, request, events) == candidate_decisions(ensemble.candidates)
            &&& all_failed ==> ensemble::after_event(
                ensemble,
                called,
                EventView::AllReplied(outcomes),
            ) == ensemble
        }),
{
    lemma_explored(ensemble, request, outcomes);
    let survivors = ensemble::survivors_of(ensemble.candidates, outcomes);
    let positions = law_survivors(ensemble.candidates, outcomes);
    if survivors.len() > 0 {
        assert(outcomes[positions[0]] is Ok);
    } else {
        assert forall|i: int| 0 <= i < outcomes.len() implies (#[trigger] outcomes[i]) is Err by {
            if outcomes[i] is Ok {
                assert(positions.contains(i));
            }
        }
    }
}

/// The judge is called only where there is a choice: where a single candidate succeeded, its win
/// is recorded, its decision as the winner is published after those of the candidates, and its
/// response is returned as it is, without a judge call.
pub proof fn law_lone_survivor_skips_the_judge<C: ?Sized, E>(
    ensemble: EnsembleView<C>,
    request: RequestView,
    outcomes: Seq<Result<Response, FailureView<E>>>,
    i: int,
)
    requires
        ensemble::resolved(ensemble) == Ok::<Option<Seq<char>>, ErrorView>(None),
        all_candidates_found(ensemble),
        outcomes.len() == ensemble.candidates.len(),
        0 <= i < outcomes.len(),
        outcomes[i] is Ok,
        forall|j: int| 0 <= j < outcomes.len() && j != i ==> (#[trigger] outcomes[j]) is Err,
    ensures
        ({
            let count = ensemble.candidates.len();
            let candidates = candidate_decisions(ensemble.candidates);
            let winner = ensemble::winner_decision(ensemble.candidates[i]);
            let called = after_events(ensemble, request, accepted::<E>(count));
            let replied = explored(count, outcomes);
            let ended = replied.push(EventView::Published(Ok(())));
            &&& after_events(ensemble, request, replied).1 == ActionView::<
                EnsembleDecisionView,
                C,
                E,
            >::Publish(winner)
            &&& ensemble::after_event(ensemble, called.0, EventView::AllReplied(outcomes))
                == ensemble::crowned(ensemble, ensemble.candidates[i])
            &&& after_events(ensemble, request, ended).1 == ActionView::<
                EnsembleDecisionView,
                C,
                E,
            >::Finish(Ok(outcomes[i]->Ok_0))
            &&& published(ensemble, request, ended) == candidates.push(winner)
        }),
{
    lemma_explored(ensemble, request, outcomes);
    let survivors = ensemble::survivors_of(ensemble.candidates, outcomes);
    let positions = law_survivors(ensemble.candidates, outcomes);
    assert(positions.contains(i));
    assert(positions[0] == i) by {
        assert(outcomes[positions[0]] is Ok);
    }
    if survivors.len() > 1 {
        assert(positions[0] < positions[1]);
        assert(outcomes[positions[1]] is Ok);
    }
    let replied = explored(ensemble.candidates.len(), outcomes);
    lemma_next_event(ensemble, request, replied, EventView::Published(Ok(())));
}

/// One exploration turn with at least two successful candidates. The candidates' decisions are
/// published, then all are called. The judge's decision is published, then the judge is called
/// about the successful candidates. Its choice wins the turn: the win is recorded, the winner's
/// decision is published, and the winner's response is returned as it is. Where the judge's call
/// fails instead, the turn fails with that failure, and the candidates' and the judge's
/// decisions are published.
pub proof fn law_judged_turn<C: ?Sized, E>(
    ensemble: EnsembleView<C>,
    request: RequestView,
    outcomes: Seq<Result<Response, FailureView<E>>>,
    reply: Response,
    failure: FailureView<E>,
)
    requires
        ensemble::resolved(ensemble) == Ok::<Option<Seq<char>>, ErrorView>(None),
        all_candidates_found(ensemble),
        has_target(ensemble.targets, ensemble.judge),
        outcomes.len() == ensemble.candidates.len(),
        ensemble::survivors_of(ensemble.candidates, outcomes).len() >= 2,
    ensures
        ({
            let survivors = ensemble::survivors_of(ensemble.candidates, outcomes);
            let choice = ensemble::judge_choice(
                reply.llm_response.completion@,
                survivors.len(),
            );
            let winner = survivors[choice as int];
            let candidates = candidate_decisions(ensemble.candidates);
            let judge = ensemble::judge_decision(ensemble.judge, survivors.len());
            let crown = ensemble::winner_decision(winner.0);
            let e0 = accepted::<E>(ensemble.candidates.len());
            let e1 = e0.push(EventView::AllReplied(outcomes));
            let e2 = e1.push(EventView::Published(Ok(())));
            let e3 = e2.push(EventView::Replied(Ok(reply)));
            let e4 = e3.push(EventView::Published(Ok(())));
            let broken = e2.push(EventView::Replied(Err(failure)));
            let judging = after_events(ensemble, request, e2);
            &&& after_events(ensemble, request, e0).1 == ActionView::<
                EnsembleDecisionView,
                C,
                E,
            >::FanOut(candidate_calls(ensemble, request))
            &&& published(ensemble, request, e0) == candidates
            &&& ensemble::after_event(
                ensemble,
                after_events(ensemble, request, e0).0,
                EventView::AllReplied(outcomes),
            ) == ensemble
            &&& after_events(ensemble, request, e1).1 == ActionView::<
                EnsembleDecisionView,
                C,
                E,
            >::Publish(judge)
            &&& judging.1 matches ActionView::Call(call)
            &&& call.decision == judge
            &&& call.request == request.with_prompt(
                ensemble::judge_prompt(request.prompt, ensemble::completions(survivors)),
            )
            &&& call.request.prompt == ensemble::judge_prompt(
                request.prompt,
                ensemble::completions(survivors),
            )
            &&& same_envelope(call.request, request)
            &&& published(ensemble, request, e2) == candidates.push(judge)
            &&& choice < survivors.len()
            &&& after_events(ensemble, request, e3).1 == ActionView::<
                EnsembleDecisionView,
                C,
                E,
            >::Publish(crown)
            &&& ensemble::after_event(ensemble, judging.0, EventView::<E>::Replied(Ok(reply)))
                == ensemble::crowned(ensemble, winner.0)
            &&& after_events(ensemble, request, e4).1 == ActionView::<
                EnsembleDecisionView,
                C,
                E,
            >::Finish(Ok(winner.1))
            &&& published(ensemble, request, e4) == candidates + seq![judge, crown]
            &&& all_answer(ensemble, request, e4)
            &&& after_events(ensemble, request, broken).1 == ActionView::<
                EnsembleDecisionView,
                C,
                E,
            >::Finish(Err(failure))
            &&& published(ensemble, request, broken) == candidates.push(judge)
            &&& all_answer(ensemble, request, broken)
        }),
{
    let count = ensemble.candidates.len();
    lemma_explored(ensemble, request, outcomes);
    lemma_find_target(ensemble.targets, ensemble.judge);
    law_turn_announces_its_candidates::<C, E>(ensemble, request, count);
    assert(ensemble.candidates.take(count as int) =~= ensemble.candidates);
    let survivors = ensemble::survivors_of(ensemble.candidates, outcomes);
    let candidates = candidate_decisions(ensemble.candidates);
    let judge = ensemble::judge_decision(ensemble.judge, survivors.len());
    let choice = ensemble::judge_choice(reply.llm_response.completion@, survivors.len());
    let crown = ensemble::winner_decision(survivors[choice as int].0);
    let e1 = accepted::<E>(count).push(EventView::AllReplied(outcomes));
    let e2 = e1.push(EventView::Published(Ok(())));
    let e3 = e2.push(EventView::Replied(Ok(reply)));
    lemma_next_event(ensemble, request, e1, EventView::Published(Ok(())));
    lemma_next_event(ensemble, request, e2, EventView::Replied(Ok(reply)));
    lemma_next_event(ensemble, request, e3, EventView::Published(Ok(())));
    lemma_next_event(ensemble, request, e2, EventView::Replied(Err(failure)));
    assert(candidates.push(judge).push(crown) =~= candidates + seq![judge, crown]);
}

/// A turn whose judge has no target fails with that error once its candidates have answered.
/// The decisions of the candidates are published by then, and no win is recorded.
pub proof fn law_turn_without_a_judge<C: ?Sized, E>(
    ensemble: EnsembleView<C>,
    request: RequestView,
    outcomes: Seq<Result<Response, FailureView<E>>>,
)
    requires
        ensemble::resolved(ensemble) == Ok::<Option<Seq<char>>, ErrorView>(None),
        all_candidates_found(ensemble),
        !has_target(ensemble.targets, ensemble.judge),
        outcomes.len() == ensemble.candidates.len(),
        ensemble::survivors_of(ensemble.candidates, outcomes).len() >= 2,
    ensures
        ({
            let called = after_events(
                ensemble,
                request,
                accepted::<E>(ensemble.candidates.len()),
            );
            let events = explored(ensemble.candidates.len(), outcomes);
            &&& after_events(ensemble, request, events).1 == ActionView::<
                EnsembleDecisionView,
                C,
                E,
            >::Finish(Err(FailureView::Library(ErrorOf::TargetNotFound(ensemble.judge))))
            &&& published(ensemble, request, events) == candidate_decisions(ensemble.candidates)
            &&& ensemble::after_event(ensemble, called.0, EventView::AllReplied(outcomes))
                == ensemble
        }),
{
    lemma_explored(ensemble, request, outcomes);
    lemma_find_target(ensemble.targets, ensemble.judge);
}

/// A request of a committed session: the decision is published, then the committed model alone
/// is called with the request as it came, and its reply, or its failure, ends the run.
pub proof fn law_committed_run<C: ?Sized, E>(
    ensemble: EnsembleView<C>,
    request: RequestView,
    model: Seq<char>,
    reply: Result<Response, FailureView<E>>,
)
    requires
        ensemble::resolved(ensemble) == Ok::<Option<Seq<char>>, ErrorView>(Some(model)),
        has_target(ensemble.targets, model),
    ensures
        ({
            let decision = ensemble::committed_decision(model, ensemble.exploration_turns);
            let e0 = Seq::<EventView<E>>::empty();
            let e1 = e0.push(EventView::Published(Ok(())));
            let e2 = e1.push(EventView::Replied(reply));
            &&& after_events(ensemble, request, e0).1 == ActionView::<
                EnsembleDecisionView,
                C,
                E,
            >::Publish(decision)
            &&& after_events(ensemble, request, e1).1 matches ActionView::Call(call)
            &&& call.request == request
            &&& call.decision == decision
            &&& find_target(ensemble.targets, model) matches Some(target)
            &&& call.default_client == target.llm_client
            &&& after_events(ensemble, request, e2).1 == ActionView::<
                EnsembleDecisionView,
                C,
                E,
            >::Finish(reply)
            &&& published(ensemble, request, e2) == seq![decision]
            &&& all_answer(ensemble, request, e2)
        }),
{
    lemma_find_target(ensemble.targets, model);
    let decision = ensemble::committed_decision(model, ensemble.exploration_turns);
    let e0 = Seq::<EventView<E>>::empty();
    let e1 = e0.push(EventView::Published(Ok(())));
    let e2 = e1.push(EventView::Replied(reply));
    lemma_next_event(ensemble, request, e0, EventView::Published(Ok(())));
    lemma_next_event(ensemble, request, e1, EventView::Replied(reply));
    assert(published(ensemble, request, e2) =~= seq![decision]);
}

/// A failed publication, a failed judge call and a failed call of the committed model each end
/// a run of the ensemble with that failure, and no win is recorded.
pub proof fn law_ensemble_failure_ends_the_run<C: ?Sized, E>(
    ensemble: EnsembleView<C>,
    run: EnsembleRunView<C>,
    failure: FailureView<E>,
)
    ensures
        ensemble::ensemble_awaits(run) == Answer::Publication ==> {
            let event = EventView::Published(Err(failure));
            &&& ensemble::resumed::<C, E>(ensemble, run, event) == ensemble::failed::<C, E>(failure)
            &&& ensemble::after_event::<C, E>(ensemble, run, event) == ensemble
        },
        ensemble::ensemble_awaits(run) == Answer::Reply ==> {
            let event = EventView::Replied(Err(failure));
            &&& ensemble::resumed::<C, E>(ensemble, run, event) == ensemble::failed::<C, E>(failure)
            &&& ensemble::after_event::<C, E>(ensemble, run, event) == ensemble
        },
{
}

// ---------------------------------------------------------------------------------------------
// Ensemble router: a session of many runs
// ---------------------------------------------------------------------------------------------

/// Only the tally of wins and the commitment of an ensemble ever change.
pub open spec fn same_configuration<C: ?Sized>(a: EnsembleView<C>, b: EnsembleView<C>) -> bool {
    &&& a.candidates == b.candidates
    &&& a.judge == b.judge
    &&& a.exploration_turns == b.exploration_turns
    &&& a.targets == b.targets
}

/// Every winner is a candidate, and so is the model committed to.
pub open spec fn only_candidates_win<C: ?Sized>(ensemble: EnsembleView<C>) -> bool {
    &&& forall|model: Seq<char>|
        ensemble.winners.count(model) > 0 ==> #[trigger] ensemble.candidates.contains(model)
    &&& ensemble.committed matches Some(model) ==> ensemble.candidates.contains(model)
}

/// The beginning of a run keeps the configuration, the tally, a commitment once made, and that
/// only candidates win and are committed to.
pub proof fn law_beginning<C: ?Sized>(ensemble: EnsembleView<C>)
    requires
        only_candidates_win(ensemble),
    ensures
        ({
            let begun = ensemble::after_resolving(ensemble);
            &&& same_configuration(begun, ensemble)
            &&& begun.winners == ensemble.winners
            &&& ensemble.committed is Some ==> begun.committed == ensemble.committed
            &&& only_candidates_win(begun)
        }),
{
    let begun = ensemble::after_resolving(ensemble);
    if ensemble.committed is None && begun.committed is Some {
        let i = choose|i: int| ensemble::is_best(ensemble.candidates, ensemble.winners, i);
        assert(ensemble::is_best(ensemble.candidates, ensemble.winners, i));
    }
}

/// The continuation of a run keeps the configuration, the commitment, and that only candidates
/// win. Where the event settles the turn, exactly the winner's win is recorded; otherwise none.
pub proof fn law_continuation<C: ?Sized, E>(
    ensemble: EnsembleView<C>,
    request: RequestView,
    run: EnsembleRunView<C>,
    event: EventView<E>,
)
    requires
        only_candidates_win(ensemble),
        ensemble_run_ok(ensemble, request, run),
        ensemble::ensemble_awaits(run) == answer_of(event),
    ensures
        ({
            let resumed = ensemble::after_event::<C, E>(ensemble, run, event);
            &&& same_configuration(resumed, ensemble)
            &&& resumed.committed == ensemble.committed
            &&& resumed.winners == match ensemble::turn_winner(run, event) {
                Some((model, _)) => ensemble.winners.insert(model),
                None => ensemble.winners,
            }
            &&& only_candidates_win(resumed)
        }),
{
    if let EnsembleRunView::Exploring { request: asked, models } = run {
        if let EventView::AllReplied(outcomes) = event {
            lemma_survivors_are_candidates(ensemble.candidates, outcomes);
        }
    }
    let resumed = ensemble::after_event::<C, E>(ensemble, run, event);
    if let Some((winner, _)) = ensemble::turn_winner(run, event) {
        assert(ensemble.candidates.contains(winner));
        assert forall|model: Seq<char>|
            resumed.winners.count(model) > 0 implies #[trigger] resumed.candidates.contains(
            model,
        ) by {
            if model != winner {
                assert(ensemble.winners.count(model) > 0);
            }
        }
    }
}

/// Runs do not interfere: once a run has begun, what it does depends on its own events and on
/// the configuration, not on what other runs of the session have won or committed since.
pub proof fn law_runs_do_not_interfere<C: ?Sized, E>(
    earlier: EnsembleView<C>,
    now: EnsembleView<C>,
    run: EnsembleRunView<C>,
    event: EventView<E>,
)
    requires
        same_configuration(earlier, now),
        ensemble::ensemble_awaits(run) == answer_of(event),
    ensures
        ensemble::resumed::<C, E>(now, run, event) == ensemble::resumed::<C, E>(
            earlier,
            run,
            event,
        ),
{
}

/// A settled turn adds one win of its winner to the tally and changes nothing else.
pub proof fn law_crowned<C: ?Sized>(ensemble: EnsembleView<C>, model: Seq<char>)
    ensures
        ({
            let after = ensemble::crowned(ensemble, model);
            &&& same_configuration(after, ensemble)
            &&& after.committed == ensemble.committed
            &&& after.winners == ensemble.winners.insert(model)
        }),
{
}

/// A committed ensemble resolves to its model. One that has explored enough but has no candidate
/// fails with that error, and so does its next request.
pub proof fn law_resolved_at_the_ends<C: ?Sized, E>(
    ensemble: EnsembleView<C>,
    request: RequestView,
)
    ensures
        ensemble.committed is Some ==> ensemble::resolved(ensemble) == Ok::<
            Option<Seq<char>>,
            ErrorView,
        >(ensemble.committed) && ensemble::after_resolving(ensemble) == ensemble,
        ensemble.committed is None && 0 < ensemble.exploration_turns <= ensemble.winners.len()
            && ensemble.candidates.len() == 0 ==> {
            &&& ensemble::resolved(ensemble) == Err::<Option<Seq<char>>, ErrorView>(
                ErrorOf::NoCandidates,
            )
            &&& ensemble::after_resolving(ensemble) == ensemble
            &&& ensemble::started::<C, E>(ensemble, request).1 == ActionView::<
                EnsembleDecisionView,
                C,
                E,
            >::Finish(Err(FailureView::Library(ErrorOf::NoCandidates)))
        },
{
    if ensemble.candidates.len() == 0 {
        assert forall|i: int| !ensemble::is_best(ensemble.candidates, ensemble.winners, i) by {}
    }
}

/// A request of a session committed to a model without a target fails with that name.
pub proof fn law_committed_without_a_target<C: ?Sized, E>(
    ensemble: EnsembleView<C>,
    request: RequestView,
    model: Seq<char>,
)
    requires
        ensemble::resolved(ensemble) == Ok::<Option<Seq<char>>, ErrorView>(Some(model)),
        !has_target(ensemble.targets, model),
    ensures
        ensemble::started::<C, E>(ensemble, request).1 == ActionView::<
            EnsembleDecisionView,
            C,
            E,
        >::Finish(Err(FailureView::Library(ErrorOf::TargetNotFound(model)))),
{
    lemma_find_target(ensemble.targets, model);
}

/// `candidates[i]` has won at least as often as every candidate, and more often than every one
/// before it.
pub open spec fn wins_most(
    candidates: Seq<Seq<char>>,
    winners: Multiset<Seq<char>>,
    i: int,
) -> bool {
    &&& 0 <= i < candidates.len()
    &&& forall|j: int|
        0 <= j < candidates.len() ==> winners.count(#[trigger] candidates[j]) <= winners.count(
            candidates[i],
        )
    &&& forall|j: int|
        0 <= j < i ==> winners.count(#[trigger] candidates[j]) < winners.count(candidates[i])
}

/// There is a best candidate wherever there is any: one with the most wins, the earliest of
/// those that have as many.
pub proof fn law_best_candidate(candidates: Seq<Seq<char>>, winners: Multiset<Seq<char>>) -> (i: int)
    requires
        candidates.len() > 0,
    ensures
        ensemble::is_best(candidates, winners, i),
        wins_most(candidates, winners, i),
        ensemble::best_candidate(candidates, winners) == Some(candidates[i]),
{
    let i = lemma_best_among(candidates, winners, candidates.len());
    ensemble::lemma_best_candidate(candidates, winners, i);
    i
}

proof fn lemma_best_among(
    candidates: Seq<Seq<char>>,
    winners: Multiset<Seq<char>>,
    count: nat,
) -> (i: int)
    requires
        0 < count <= candidates.len(),
    ensures
        0 <= i < count,
        forall|j: int|
            0 <= j < count ==> winners.count(#[trigger] candidates[j]) <= winners.count(
                candidates[i],
            ),
        forall|j: int|
            0 <= j < i ==> winners.count(#[trigger] candidates[j]) < winners.count(candidates[i]),
    decreases count,
{
    if count == 1 {
        0
    } else {
        let before = lemma_best_among(candidates, winners, (count - 1) as nat);
        if winners.count(candidates[count - 1]) > winners.count(candidates[before]) {
            count - 1
        } else {
            before
        }
    }
}

/// While the exploration goes on, and forever where the number of exploration turns is zero, a
/// request begins an exploration turn and nothing is committed.
pub proof fn law_exploration_goes_on<C: ?Sized, E>(
    ensemble: EnsembleView<C>,
    request: RequestView,
)
    requires
        ensemble.committed is None,
        ensemble.exploration_turns == 0 || ensemble.winners.len() < ensemble.exploration_turns,
    ensures
        ensemble::resolved(ensemble) == Ok::<Option<Seq<char>>, ErrorView>(None),
        ensemble::started::<C, E>(ensemble, request) == ensemble::announced::<C, E>(
            ensemble,
            request,
            Seq::empty(),
        ),
        ensemble::after_resolving(ensemble) == ensemble,
{
}

/// Once enough turns were explored, the next request commits the ensemble to the candidate with
/// the most wins, the earliest of those that have as many, and goes to that model.
pub proof fn law_exploration_ends<C: ?Sized, E>(
    ensemble: EnsembleView<C>,
    request: RequestView,
) -> (i: int)
    requires
        ensemble.committed is None,
        0 < ensemble.exploration_turns <= ensemble.winners.len(),
        ensemble.candidates.len() > 0,
    ensures
        ensemble::is_best(ensemble.candidates, ensemble.winners, i),
        wins_most(ensemble.candidates, ensemble.winners, i),
        ensemble::after_resolving(ensemble).committed == Some(ensemble.candidates[i]),
        ensemble::resolved(ensemble) == Ok::<Option<Seq<char>>, ErrorView>(
            Some(ensemble.candidates[i]),
        ),
        ensemble::started::<C, E>(ensemble, request) == ensemble::routed_committed::<C, E>(
            ensemble,
            request,
            ensemble.candidates[i],
        ),
{
    law_best_candidate(ensemble.candidates, ensemble.winners)
}

/// A session: the state of the ensemble and the runs that were begun, each with its request.
pub struct SessionView<C: ?Sized> {
    pub ensemble: EnsembleView<C>,
    pub runs: Seq<(RequestView, EnsembleRunView<C>)>,
}

/// What happens in a session, in any interleaving of its runs.
pub enum SessionStep<E> {
    /// The run of a request begins.
    Begins(RequestView),
    /// An event answers the run at a position.
    Continues(int, EventView<E>),
}

/// The winner of the turn that a step settles, if it settles one.
pub open spec fn step_winner<C: ?Sized, E>(
    session: SessionView<C>,
    step: SessionStep<E>,
) -> Option<Seq<char>> {
    match step {
        SessionStep::Begins(_) => None,
        SessionStep::Continues(i, event) => match ensemble::turn_winner(session.runs[i].1, event) {
            Some((model, _)) => Some(model),
            None => None,
        },
    }
}

/// The session after a step.
pub open spec fn after_step<C: ?Sized, E>(
    session: SessionView<C>,
    step: SessionStep<E>,
) -> SessionView<C> {
    let ensemble = session.ensemble;
    match step {
        SessionStep::Begins(request) => SessionView {
            ensemble: ensemble::after_resolving(ensemble),
            runs: session.runs.push(
                (request, ensemble::started::<C, E>(ensemble, request).0),
            ),
        },
        SessionStep::Continues(i, event) => {
            let (request, run) = session.runs[i];
            SessionView {
                ensemble: ensemble::after_event(ensemble, run, event),
                runs: session.runs.update(
                    i,
                    (request, ensemble::resumed::<C, E>(ensemble, run, event).0),
                ),
            }
        },
    }
}

/// A step that continues a run continues one that was begun, with the answer it waits for.
pub open spec fn step_ok<C: ?Sized, E>(session: SessionView<C>, step: SessionStep<E>) -> bool {
    match step {
        SessionStep::Begins(_) => true,
        SessionStep::Continues(i, event) => {
            &&& 0 <= i < session.runs.len()
            &&& ensemble::ensemble_awaits(session.runs[i].1) == answer_of(event)
        },
    }
}

/// The session after some steps.
pub open spec fn after_steps<C: ?Sized, E>(
    session: SessionView<C>,
    steps: Seq<SessionStep<E>>,
) -> SessionView<C>
    decreases steps.len(),
{
    if steps.len() == 0 {
        session
    } else {
        after_step(after_steps(session, steps.drop_last()), steps.last())
    }
}

/// Each of the steps is one that the session can take.
pub open spec fn steps_ok<C: ?Sized, E>(
    session: SessionView<C>,
    steps: Seq<SessionStep<E>>,
) -> bool
    decreases steps.len(),
{
    steps.len() > 0 ==> {
        &&& steps_ok(session, steps.drop_last())
        &&& step_ok(after_steps(session, steps.drop_last()), steps.last())
    }
}

/// The winners of the turns that some steps settle, one per turn.
pub open spec fn steps_winners<C: ?Sized, E>(
    session: SessionView<C>,
    steps: Seq<SessionStep<E>>,
) -> Seq<Seq<char>>
    decreases steps.len(),
{
    if steps.len() == 0 {
        Seq::empty()
    } else {
        let before = steps_winners(session, steps.drop_last());
        match step_winner(after_steps(session, steps.drop_last()), steps.last()) {
            Some(model) => before.push(model),
            None => before,
        }
    }
}

/// A session in which nothing has happened.
pub open spec fn is_new<C: ?Sized>(session: SessionView<C>) -> bool {
    &&& session.ensemble.committed is None
    &&& session.ensemble.winners == Multiset::<Seq<char>>::empty()
    &&& session.runs.len() == 0
}

/// In any interleaving of the runs of a new session, the tally holds exactly one win per settled
/// turn. Every winner is a candidate, and so is the model committed to. A commitment takes as
/// many settled turns as are to be explored, and none is made where that number is zero. Each
/// run stays at work on its own request.
pub proof fn law_session_tally<C: ?Sized, E>(session: SessionView<C>, steps: Seq<SessionStep<E>>)
    requires
        is_new(session),
        steps_ok(session, steps),
    ensures
        ({
            let after = after_steps(session, steps);
            let winners = steps_winners(session, steps);
            &&& same_configuration(after.ensemble, session.ensemble)
            &&& after.ensemble.winners == winners.to_multiset()
            &&& after.ensemble.winners.len() == winners.len()
            &&& forall|k: int|
                0 <= k < winners.len() ==> session.ensemble.candidates.contains(
                    #[trigger] winners[k],
                )
            &&& only_candidates_win(after.ensemble)
            &&& after.ensemble.committed is Some ==> 0 < session.ensemble.exploration_turns
                <= winners.len()
            &&& forall|i: int|
                0 <= i < after.runs.len() ==> ensemble_run_ok(
                    session.ensemble,
                    (#[trigger] after.runs[i]).0,
                    after.runs[i].1,
                )
        }),
    decreases steps.len(),
{
    broadcast use vstd::seq_lib::group_to_multiset_ensures;

    if steps.len() == 0 {
        assert(steps_winners(session, steps) =~= Seq::<Seq<char>>::empty());
    } else {
        law_session_tally(session, steps.drop_last());
        let before = after_steps(session, steps.drop_last());
        let after = after_steps(session, steps);
        let winners = steps_winners(session, steps.drop_last());
        match steps.last() {
            SessionStep::Begins(request) => {
                law_ensemble_calls_at_start::<C, E>(before.ensemble, request);
                lemma_run_ok_by_configuration(
                    before.ensemble,
                    session.ensemble,
                    request,
                    after.runs.last().1,
                );
                law_beginning::<C>(before.ensemble);
                assert forall|i: int| 0 <= i < after.runs.len() implies ensemble_run_ok(
                    session.ensemble,
                    (#[trigger] after.runs[i]).0,
                    after.runs[i].1,
                ) by {
                    if i < before.runs.len() {
                        assert(after.runs[i] == before.runs[i]);
                    }
                }
            },
            SessionStep::Continues(k, event) => {
                let (request, run) = before.runs[k];
                lemma_run_ok_by_configuration(session.ensemble, before.ensemble, request, run);
                law_ensemble_calls_on_resume::<C, E>(before.ensemble, request, run, event);
                lemma_run_ok_by_configuration(
                    before.ensemble,
                    session.ensemble,
                    request,
                    after.runs[k].1,
                );
                law_continuation::<C, E>(before.ensemble, request, run, event);
                assert forall|i: int| 0 <= i < after.runs.len() implies ensemble_run_ok(
                    session.ensemble,
                    (#[trigger] after.runs[i]).0,
                    after.runs[i].1,
                ) by {
                    if i != k {
                        assert(after.runs[i] == before.runs[i]);
                    }
                }
                if let Some(model) = step_winner(before, steps.last()) {
                    assert(after.ensemble.winners.count(model) > 0);
                    assert(after.ensemble.candidates.contains(model));
                }
            },
        }
    }
}

proof fn lemma_run_ok_by_configuration<C: ?Sized>(
    a: EnsembleView<C>,
    b: EnsembleView<C>,
    request: RequestView,
    run: EnsembleRunView<C>,
)
    requires
        same_configuration(a, b),
        ensemble_run_ok(a, request, run),
    ensures
        ensemble_run_ok(b, request, run),
{
    if let EnsembleRunView::Announcing { request: asked, calls } = run {
        assert forall|i: int| 0 <= i < calls.len() implies #[trigger] calls[i] == candidate_call(
            b,
            request,
            i,
        ) && ensemble_call_ok(b, request, calls[i]) by {
            assert(calls[i] == candidate_call(a, request, i));
        }
    }
}

/// A commitment is final: whatever happens afterwards, in any interleaving of runs, the session
/// stays committed to the same model, and every request goes to it.
pub proof fn law_commitment_is_final<C: ?Sized, E>(
    session: SessionView<C>,
    steps: Seq<SessionStep<E>>,
    request: RequestView,
)
    requires
        session.ensemble.committed is Some,
    ensures
        ({
            let after = after_steps(session, steps).ensemble;
            &&& after.committed == session.ensemble.committed
            &&& same_configuration(after, session.ensemble)
            &&& ensemble::started::<C, E>(after, request) == ensemble::routed_committed::<C, E>(
                session.ensemble,
                request,
                session.ensemble.committed->Some_0,
            )
        }),
    decreases steps.len(),
{
    if steps.len() > 0 {
        law_commitment_is_final(session, steps.drop_last(), request);
    }
}

/// Requests that find the exploration over at the same time agree: the one that comes second
/// resolves to the model the first one committed to, whatever happens in between.
pub proof fn law_concurrent_commitments_agree<C: ?Sized, E>(
    session: SessionView<C>,
    request: RequestView,
    steps: Seq<SessionStep<E>>,
)
    requires
        ensemble::resolved(session.ensemble) matches Ok(Some(_)),
    ensures
        ensemble::resolved(
            after_steps(
                after_step(session, SessionStep::<E>::Begins(request)),
                steps,
            ).ensemble,
        ) == ensemble::resolved(session.ensemble),
{
    law_commitment_is_final::<C, E>(
        after_step(session, SessionStep::<E>::Begins(request)),
        steps,
        request,
    );
}

/// The state of a session after its requests came one after the other, each settled in favour
/// of the given winner.
pub open spec fn after_turns<C: ?Sized>(
    ensemble: EnsembleView<C>,
    winners: Seq<Seq<char>>,
) -> EnsembleView<C>
    decreases winners.len(),
{
    if winners.len() == 0 {
        ensemble
    } else {
        let before = after_turns(ensemble, winners.drop_last());
        ensemble::crowned(ensemble::after_resolving(before), winners.last())
    }
}

/// A new session explores for exactly the given number of turns. The next request then goes to
/// the candidate that won most of them, the earliest of those that won as many.
pub proof fn law_session_explores_then_commits<C: ?Sized>(
    ensemble: EnsembleView<C>,
    winners: Seq<Seq<char>>,
) -> (i: int)
    requires
        ensemble.committed is None,
        ensemble.winners == Multiset::<Seq<char>>::empty(),
        ensemble.candidates.len() > 0,
        0 < winners.len() == ensemble.exploration_turns,
    ensures
        forall|turns: int|
            0 <= turns < winners.len() ==> ensemble::resolved(
                #[trigger] after_turns(ensemble, winners.take(turns)),
            ) == Ok::<Option<Seq<char>>, ErrorView>(None),
        after_turns(ensemble, winners).winners == winners.to_multiset(),
        ensemble::is_best(ensemble.candidates, winners.to_multiset(), i),
        wins_most(ensemble.candidates, winners.to_multiset(), i),
        ensemble::resolved(after_turns(ensemble, winners)) == Ok::<Option<Seq<char>>, ErrorView>(
            Some(ensemble.candidates[i]),
        ),
{
    assert forall|turns: int| 0 <= turns < winners.len() implies ensemble::resolved(
        #[trigger] after_turns(ensemble, winners.take(turns)),
    ) == Ok::<Option<Seq<char>>, ErrorView>(None) by {
        lemma_turns_are_tallied(ensemble, winners.take(turns));
    }
    lemma_turns_are_tallied(ensemble, winners);
    law_best_candidate(ensemble.candidates, winners.to_multiset())
}

/// A new session whose number of exploration turns is zero never commits.
pub proof fn law_session_without_exploration_turns<C: ?Sized>(
    ensemble: EnsembleView<C>,
    winners: Seq<Seq<char>>,
)
    requires
        ensemble.committed is None,
        ensemble.winners == Multiset::<Seq<char>>::empty(),
        ensemble.exploration_turns == 0,
    ensures
        after_turns(ensemble, winners).winners == winners.to_multiset(),
        ensemble::resolved(after_turns(ensemble, winners)) == Ok::<Option<Seq<char>>, ErrorView>(
            None,
        ),
{
    lemma_turns_are_tallied(ensemble, winners);
}

proof fn lemma_turns_are_tallied<C: ?Sized>(ensemble: EnsembleView<C>, winners: Seq<Seq<char>>)
    requires
        ensemble.committed is None,
        ensemble.winners == Multiset::<Seq<char>>::empty(),
        ensemble.exploration_turns == 0 || winners.len() <= ensemble.exploration_turns,
    ensures
        after_turns(ensemble, winners).committed is None,
        after_turns(ensemble, winners).winners == winners.to_multiset(),
        after_turns(ensemble, winners).winners.len() == winners.len(),
        same_configuration(after_turns(ensemble, winners), ensemble),
    decreases winners.len(),
{
    broadcast use vstd::seq_lib::group_to_multiset_ensures;

    if winners.len() == 0 {
        assert(winners =~= Seq::<Seq<char>>::empty());
    } else {
        lemma_turns_are_tallied(ensemble, winners.drop_last());
        assert(winners.drop_last().push(winners.last()) =~= winners);
    }
}

/// Two new sessions with the same configuration keep their own state: each commits to the
/// candidate that won all of its own turns.
pub proof fn law_sessions_are_independent<C: ?Sized>(
    ensemble: EnsembleView<C>,
    a: int,
    b: int,
)
    requires
        ensemble.committed is None,
        ensemble.winners == Multiset::<Seq<char>>::empty(),
        0 < ensemble.exploration_turns,
        0 <= a < ensemble.candidates.len(),
        0 <= b < ensemble.candidates.len(),
    ensures
        ({
            let won = |i: int|
                Seq::new(ensemble.exploration_turns, |turn: int| ensemble.candidates[i]);
            &&& ensemble::resolved(after_turns(ensemble, won(a)))
                == Ok::<Option<Seq<char>>, ErrorView>(Some(ensemble.candidates[a]))
            &&& ensemble::resolved(after_turns(ensemble, won(b)))
                == Ok::<Option<Seq<char>>, ErrorView>(Some(ensemble.candidates[b]))
        }),
{
    lemma_sweep(ensemble, a);
    lemma_sweep(ensemble, b);
}

/// A candidate that won every turn is committed to.
proof fn lemma_sweep<C: ?Sized>(ensemble: EnsembleView<C>, a: int)
    requires
        ensemble.committed is None,
        ensemble.winners == Multiset::<Seq<char>>::empty(),
        0 < ensemble.exploration_turns,
        0 <= a < ensemble.candidates.len(),
    ensures
        ensemble::resolved(
            after_turns(
                ensemble,
                Seq::new(ensemble.exploration_turns, |turn: int| ensemble.candidates[a]),
            ),
        ) == Ok::<Option<Seq<char>>, ErrorView>(Some(ensemble.candidates[a])),
{
    broadcast use vstd::seq_lib::group_to_multiset_ensures;

    let won = Seq::new(ensemble.exploration_turns, |turn: int| ensemble.candidates[a]);
    let i = law_session_explores_then_commits(ensemble, won);
    assert(won[0] == ensemble.candidates[a]);
    assert(won.contains(ensemble.candidates[a]));
    assert(won.to_multiset().count(ensemble.candidates[a]) > 0);
    assert(won.to_multiset().count(ensemble.candidates[i]) > 0);
    assert(won.contains(ensemble.candidates[i]));
}

// ---------------------------------------------------------------------------------------------
// Judge
// ---------------------------------------------------------------------------------------------

/// Whatever the judge replies, it chooses one of the responses it was shown.
pub proof fn law_judge_chooses_a_response(reply: Seq<char>, count: nat)
    requires
        count > 0,
    ensures
        ensemble::judge_choice(reply, count) < count,
{
}

/// A reply whose first number is `n` chooses the response with that number, whatever words
/// stand around the number.
pub proof fn law_judge_chooses_by_number(
    before: Seq<char>,
    n: nat,
    after: Seq<char>,
    count: nat,
)
    requires
        forall|i: int| 0 <= i < before.len() ==> !text::is_digit(#[trigger] before[i]),
        after.len() > 0 ==> !text::is_digit(after[0]),
        1 <= n <= count,
    ensures
        ensemble::judge_choice(before + text::decimal(n) + after, count) == n - 1,
{
    text::lemma_first_number_of_decimal(before, n, after);
}

/// A reply without a number chooses the first response, and so does one whose first number is
/// the number of no response.
pub proof fn law_judge_fails_open(
    words: Seq<char>,
    before: Seq<char>,
    n: nat,
    after: Seq<char>,
    count: nat,
)
    requires
        forall|i: int| 0 <= i < words.len() ==> !text::is_digit(#[trigger] words[i]),
        forall|i: int| 0 <= i < before.len() ==> !text::is_digit(#[trigger] before[i]),
        after.len() > 0 ==> !text::is_digit(after[0]),
        n == 0 || n > count,
    ensures
        ensemble::judge_choice(words, count) == 0,
        ensemble::judge_choice(before + text::decimal(n) + after, count) == 0,
{
    text::lemma_no_number(words);
    text::lemma_first_number_of_decimal(before, n, after);
}

/// The judge sees what the responses say and nothing else: what it is asked does not change when
/// the models do, nor when anything but the completions does.
pub proof fn law_judge_is_impartial<C: ?Sized, E>(
    ensemble: EnsembleView<C>,
    request: RequestView,
    survivors: Seq<(Seq<char>, Response)>,
    others: Seq<(Seq<char>, Response)>,
)
    requires
        ensemble::completions(survivors) == ensemble::completions(others),
    ensures
        ({
            let asked = ensemble::judged::<C, E>(ensemble, request, survivors);
            let again = ensemble::judged::<C, E>(ensemble, request, others);
            &&& asked.1 == again.1
            &&& asked.0 matches EnsembleRunView::Summoning { call, .. } ==> again.0 matches
                EnsembleRunView::Summoning { call: other, .. } && call == other
        }),
{
    assert(ensemble::completions(survivors).len() == survivors.len());
    assert(ensemble::completions(others).len() == others.len());
}

// ---------------------------------------------------------------------------------------------
// Driver and run
// ---------------------------------------------------------------------------------------------

/// What a producer gets for a request, from what became of the offer, of the promise and of the
/// payload that came back. `typed` is the payload read as the type of the response.
pub open spec fn fulfilled<P, T, E>(
    accepted: bool,
    reply: Reply<P, E>,
    typed: Option<T>,
) -> FulfillStep<P, T, E> {
    match driver::offered::<P, T, E>(accepted) {
        FulfillStep::Await => match driver::replied::<P, T, E>(reply) {
            FulfillStep::Read(_) => driver::read_as::<P, T, E>(typed),
            settled => settled,
        },
        settled => settled,
    }
}

/// A request is always settled. It is answered exactly where the stream took it, the consumer
/// fulfilled it and the payload has the type of the response; the answer is the payload. The
/// consumer's own error comes back as it was given.
pub proof fn law_request_is_settled<P, T, E>(
    accepted: bool,
    reply: Reply<P, E>,
    typed: Option<T>,
)
    ensures
        fulfilled(accepted, reply, typed) == FulfillStep::<P, T, E>::Settled(
            if !accepted {
                Err(Failure::Library(ErrorOf::StreamClosed))
            } else {
                match reply {
                    Reply::Dropped => Err(Failure::Library(ErrorOf::PromiseDropped)),
                    Reply::Fulfilled(Err(failure)) => Err(failure),
                    Reply::Fulfilled(Ok(_)) => match typed {
                        Some(response) => Ok(response),
                        None => Err(Failure::Library(ErrorOf::ResponseTypeMismatch)),
                    },
                }
            },
        ),
{
}

/// The decisions among the steps of a stream, in order.
pub open spec fn decisions_of<D: ?Sized, C: ?Sized, P>(steps: Seq<Step<D, C, P>>) -> Seq<Arc<D>>
    decreases steps.len(),
{
    if steps.len() == 0 {
        Seq::empty()
    } else {
        let before = decisions_of(steps.drop_last());
        match steps.last() {
            Step::Decision(decision) => before.push(decision),
            _ => before,
        }
    }
}

/// A run took in a step and went on: it pulls again, or it serves a call first.
pub open spec fn goes_on<D: ?Sized, C: ?Sized, P, E>(
    next: RunNext<D, C, P, E>,
    trace: Seq<Arc<D>>,
) -> bool {
    match next {
        RunNext::Pull { run } => run@ == trace,
        RunNext::Serve { run, .. } => run@ == trace,
        RunNext::Return { .. } => false,
    }
}

/// What a run does with each item that does not simply add to its trace. A call is served by the
/// client that came with it, asked what the call asks; where none came, the run fails with the
/// name of the model, and where the payload is no routed request, with that error. A failure on
/// the stream ends the run as it is, and a stream that ends too early is an error.
pub proof fn law_run_items<D: Decision + ?Sized, C: ?Sized, P, E>(
    trace: Seq<Arc<D>>,
    call: CallLlmRequest<D, C, P>,
    failure: Failure<E>,
    next: RunNext<D, C, P, E>,
)
    ensures
        run::follows(trace, Some(Ok(Step::CallLlm(call))), next) ==> match call.routed() {
            Some(asked) => match asked.default_client {
                Some(client) => {
                    &&& next matches RunNext::Serve { run, client: serving, routed, call: answered }
                    &&& serving == client
                    &&& routed.request@ == asked.request@
                    &&& routed.decision == asked.decision
                    &&& routed.default_client == asked.default_client
                    &&& answered == call
                    &&& run@ == trace
                },
                None => {
                    &&& next matches RunNext::Return { outcome }
                    &&& outcome matches Err(Failure::Library(error))
                    &&& error@ == ErrorOf::NoClient(asked.decision.model())
                },
            },
            None => {
                &&& next matches RunNext::Return { outcome }
                &&& outcome matches Err(Failure::Library(error))
                &&& error@ == ErrorOf::RequestTypeMismatch::<Seq<char>>
            },
        },
        run::follows(trace, Some(Err(failure)), next) ==> {
            &&& next matches RunNext::Return { outcome }
            &&& outcome == Err::<(Vec<Arc<D>>, Response), Failure<E>>(failure)
        },
        run::follows(trace, None, next) ==> {
            &&& next matches RunNext::Return { outcome }
            &&& outcome matches Err(Failure::Library(error))
            &&& error@ == ErrorOf::StreamEnded::<Seq<char>>
        },
{
}

/// `next` returns exactly this error of the library.
pub proof fn law_returned_error<D: ?Sized, C: ?Sized, P, E>(
    next: RunNext<D, C, P, E>,
    error: ErrorView,
)
    ensures
        run::returns_error(next, error) <==> (next matches RunNext::Return { outcome }
            && outcome matches Err(Failure::Library(returned)) && returned@ == error),
{
}

/// A run that went on through all of `steps` has seen exactly their decisions, in their order,
/// and returns them with the final response once it comes.
pub proof fn law_run_returns_the_trace<D: Decision + ?Sized, C: ?Sized, P, E>(
    steps: Seq<Step<D, C, P>>,
    traces: Seq<Seq<Arc<D>>>,
    nexts: Seq<RunNext<D, C, P, E>>,
    response: Response,
    last: RunNext<D, C, P, E>,
)
    requires
        nexts.len() == steps.len(),
        traces.len() == steps.len() + 1,
        traces[0].len() == 0,
        forall|i: int|
            0 <= i < steps.len() ==> {
                &&& run::follows(
                    traces[i],
                    Some(Ok::<Step<D, C, P>, Failure<E>>(#[trigger] steps[i])),
                    nexts[i],
                )
                &&& goes_on(nexts[i], traces[i + 1])
            },
        run::follows(
            traces[steps.len() as int],
            Some(Ok::<Step<D, C, P>, Failure<E>>(Step::ReturnToAgent(response))),
            last,
        ),
    ensures
        last matches RunNext::Return { outcome } && outcome matches Ok(settled) && settled.0@
            == decisions_of(steps) && settled.1 == response,
{
    lemma_trace_of_steps(steps, traces, nexts, steps.len());
    assert(steps.take(steps.len() as int) =~= steps);
}

proof fn lemma_trace_of_steps<D: Decision + ?Sized, C: ?Sized, P, E>(
    steps: Seq<Step<D, C, P>>,
    traces: Seq<Seq<Arc<D>>>,
    nexts: Seq<RunNext<D, C, P, E>>,
    count: nat,
)
    requires
        nexts.len() == steps.len(),
        traces.len() == steps.len() + 1,
        traces[0].len() == 0,
        count <= steps.len(),
        forall|i: int|
            0 <= i < steps.len() ==> {
                &&& run::follows(
                    traces[i],
                    Some(Ok::<Step<D, C, P>, Failure<E>>(#[trigger] steps[i])),
                    nexts[i],
                )
                &&& goes_on(nexts[i], traces[i + 1])
            },
    ensures
        traces[count as int] == decisions_of(steps.take(count as int)),
    decreases count,
{
    if count == 0 {
        assert(traces[0] =~= decisions_of(steps.take(0)));
    } else {
        let before = (count - 1) as nat;
        lemma_trace_of_steps(steps, traces, nexts, before);
        assert(steps.take(count as int).drop_last() =~= steps.take(before as int));
        assert(steps.take(count as int).last() == steps[before as int]);
    }
}

} // verus!
