//! Laws of views: a view shows what its value holds, all of it and nothing else.

use std::sync::Arc;
use vstd::prelude::*;

use crate::ensemble::{settles_turn, EnsembleDecision, EnsembleRunView};
use crate::error::{error_text, ErrorOf, Failure, FailureView};
use crate::json::{completion_of, Json};
use crate::llm_class::{ClassifierDecision, ClassifierTier};
use crate::proxy::{
    completion_or_empty, TraceEntry, CLASSIFIER_MODEL, CLASSIFIER_THRESHOLD_BITS,
    CLASSIFIER_THRESHOLD_TEXT, DEFAULT_BASE_URL, PROFILE_MODEL_ID, WEAK_MODEL,
};
use crate::rand::RandomDecision;
use crate::score::{score_view, Score};
use crate::target::{Decision, RoutedRequest};
use crate::task::{
    answer_of, asked_by, outcome_view, outcome_views, routed_views, Action, ActionView, Event,
    EventView,
};
use crate::types::{metadata_view, Metadata, Request, RequestView, Response};

verus! {

/// The view of a request shows its name, prompt, raw body and metadata. A new prompt changes
/// the prompt alone.
pub proof fn law_request_view(
    request: Request,
    metadata: Metadata,
    view: RequestView,
    prompt: Seq<char>,
)
    ensures
        request@.inbound_model_name == request.llm_request.inbound_model_name@,
        request@.prompt == request.llm_request.prompt@,
        request@.raw_request == request.raw_request,
        request@.metadata == metadata_view(request.metadata),
        metadata_view(None) is None,
        metadata_view(Some(metadata)) == Some(metadata@),
        metadata@.session_id == metadata.session_id,
        metadata@.agent_id == metadata.agent_id,
        metadata@.task_id == metadata.task_id,
        metadata@.correlation_id == metadata.correlation_id,
        metadata.extra_metadata is None ==> metadata@.extra_metadata is None,
        metadata.extra_metadata matches Some(extra) ==> metadata@.extra_metadata == Some(extra@),
        view.with_prompt(prompt).prompt == prompt,
        view.with_prompt(prompt).inbound_model_name == view.inbound_model_name,
        view.with_prompt(prompt).raw_request == view.raw_request,
        view.with_prompt(prompt).metadata == view.metadata,
{
}

/// The view of a routed request shows its request, its decision and its client.
pub proof fn law_routed_view<D: View, C: ?Sized>(
    routed: RoutedRequest<D, C>,
    calls: Seq<RoutedRequest<D, C>>,
)
    ensures
        routed@.request == routed.request@,
        routed@.decision == routed.decision@,
        routed@.default_client == routed.default_client,
        routed_views(calls).len() == calls.len(),
        forall|i: int| 0 <= i < calls.len() ==> #[trigger] routed_views(calls)[i] == calls[i]@,
{
}

/// The view of an action shows what is asked.
pub proof fn law_action_view<D: View, C: ?Sized, E>(
    decision: Arc<D>,
    call: RoutedRequest<D, C>,
    calls: Vec<RoutedRequest<D, C>>,
    text: String,
    response: Response,
    failure: Failure<E>,
)
    ensures
        Action::<D, C, E>::Publish(decision)@ == ActionView::<D::V, C, E>::Publish(decision@),
        Action::<D, C, E>::Call(call)@ == ActionView::<D::V, C, E>::Call(call@),
        Action::<D, C, E>::FanOut(calls)@ == ActionView::<D::V, C, E>::FanOut(
            routed_views(calls@),
        ),
        Action::<D, C, E>::ReadScore(text)@ == ActionView::<D::V, C, E>::ReadScore(text@),
        Action::<D, C, E>::Finish(Ok(response))@ == ActionView::<D::V, C, E>::Finish(Ok(response)),
        Action::<D, C, E>::Finish(Err(failure))@ == ActionView::<D::V, C, E>::Finish(Err(failure@)),
{
}

/// The view of an event shows what is answered.
pub proof fn law_event_view<E>(
    response: Response,
    failure: Failure<E>,
    outcomes: Vec<Result<Response, Failure<E>>>,
    score: Score,
)
    ensures
        Event::<E>::Published(Ok(()))@ == EventView::<E>::Published(Ok(())),
        Event::<E>::Published(Err(failure))@ == EventView::<E>::Published(Err(failure@)),
        Event::<E>::Replied(Ok(response))@ == EventView::<E>::Replied(Ok(response)),
        Event::<E>::Replied(Err(failure))@ == EventView::<E>::Replied(Err(failure@)),
        Event::AllReplied(outcomes)@ == EventView::AllReplied(outcome_views(outcomes@)),
        outcome_views(outcomes@).len() == outcomes@.len(),
        forall|i: int|
            0 <= i < outcomes@.len() ==> #[trigger] outcome_views(outcomes@)[i] == outcome_view(
                outcomes@[i],
            ),
        outcome_view(Ok::<Response, Failure<E>>(response)) == Ok::<Response, FailureView<E>>(
            response,
        ),
        outcome_view(Err::<Response, Failure<E>>(failure)) == Err::<Response, FailureView<E>>(
            failure@,
        ),
        Event::<E>::ScoreRead(None)@ == EventView::<E>::ScoreRead(None),
        Event::<E>::ScoreRead(Some(score))@ == EventView::<E>::ScoreRead(Some(score@)),
        score_view(Some(score)) == Some(score@),
        score_view(None) is None,
        score@.bits == score.bits,
        score@.text == score.text@,
{
}

/// An action asks for the answer that the event for it gives.
pub proof fn law_answers<V, C: ?Sized, E>(action: ActionView<V, C, E>, event: EventView<E>)
    ensures
        (asked_by(action) == answer_of(event)) == match (action, event) {
            (ActionView::Publish(_), EventView::Published(_)) => true,
            (ActionView::Call(_), EventView::Replied(_)) => true,
            (ActionView::FanOut(calls), EventView::AllReplied(outcomes)) => calls.len()
                == outcomes.len(),
            (ActionView::ReadScore(_), EventView::ScoreRead(_)) => true,
            _ => false,
        },
{
}

/// A run of the ensemble can be continued whatever the tally holds, unless its next event may
/// settle the turn.
pub proof fn law_room<C: ?Sized>(run: EnsembleRunView<C>)
    ensures
        settles_turn(run) <==> run is Exploring || run is Judging,
{
}

/// A failure shows the host's error as it is, and an error of the library with the name it
/// carries.
pub proof fn law_failure_view<E>(name: String, error: ErrorOf<String>, host: E)
    ensures
        Failure::<E>::Host(host)@ == FailureView::<E>::Host(host),
        Failure::<E>::Library(error)@ == FailureView::<E>::Library(error@),
        ErrorOf::TargetNotFound(name)@ == ErrorOf::TargetNotFound(name@),
        ErrorOf::NoClient(name)@ == ErrorOf::NoClient(name@),
        ErrorOf::NoTargets::<String>@ == ErrorOf::NoTargets::<Seq<char>>,
        ErrorOf::NoCandidates::<String>@ == ErrorOf::NoCandidates::<Seq<char>>,
        ErrorOf::AllCandidatesFailed::<String>@ == ErrorOf::AllCandidatesFailed::<Seq<char>>,
        ErrorOf::StatePoisoned::<String>@ == ErrorOf::StatePoisoned::<Seq<char>>,
        ErrorOf::StreamEnded::<String>@ == ErrorOf::StreamEnded::<Seq<char>>,
        ErrorOf::StreamClosed::<String>@ == ErrorOf::StreamClosed::<Seq<char>>,
        ErrorOf::StreamAlreadyTaken::<String>@ == ErrorOf::StreamAlreadyTaken::<Seq<char>>,
        ErrorOf::PromiseDropped::<String>@ == ErrorOf::PromiseDropped::<Seq<char>>,
        ErrorOf::ReceiverDropped::<String>@ == ErrorOf::ReceiverDropped::<Seq<char>>,
        ErrorOf::RequestTypeMismatch::<String>@ == ErrorOf::RequestTypeMismatch::<Seq<char>>,
        ErrorOf::ResponseTypeMismatch::<String>@ == ErrorOf::ResponseTypeMismatch::<Seq<char>>,
        ErrorOf::InfoNotDecision::<String>@ == ErrorOf::InfoNotDecision::<Seq<char>>,
        ErrorOf::DoneNotResponse::<String>@ == ErrorOf::DoneNotResponse::<Seq<char>>,
        ErrorOf::MissingApiKey::<String>@ == ErrorOf::MissingApiKey::<Seq<char>>,
{
}

/// An error with a name says the name, whatever it is.
pub proof fn law_error_text(name: Seq<char>)
    ensures
        error_text(ErrorOf::TargetNotFound(name)) == "Target "@ + name + " not found"@,
        error_text(ErrorOf::NoClient(name)) == "run: target '"@ + name
            + "' has no client to serve the call"@,
{
}

/// A decision selects the model and says the words that it holds.
pub proof fn law_decision_views(
    ensemble: EnsembleDecision,
    classifier: ClassifierDecision,
    random: RandomDecision,
)
    ensures
        ensemble@.selected_model == ensemble.selected_model@,
        ensemble@.reasoning == ensemble.reasoning@,
        ensemble@.phase == ensemble.phase,
        ensemble.model() == ensemble.selected_model@,
        ensemble.explanation() == Some(ensemble.reasoning@),
        classifier@.selected_model == classifier.selected_model@,
        classifier@.reasoning == classifier.reasoning@,
        classifier@.score == score_view(classifier.score),
        classifier@.tier == classifier.tier,
        classifier.model() == classifier.selected_model@,
        classifier.explanation() == Some(classifier.reasoning@),
        random@.selected_model == random.selected_model@,
        random@.reasoning == random.reasoning@,
        random.model() == random.selected_model@,
        random.explanation() == Some(random.reasoning@),
{
}

/// A trace entry speaks for its decision. Only the classifier router's own has a tier and a
/// score.
pub proof fn law_trace_entries<'a, D: Decision + ?Sized>(own: &'a ClassifierDecision, other: &'a D)
    ensures
        ({
            let entry = TraceEntry::<'a, D>::Classifier(own);
            &&& entry.model() == own.selected_model@
            &&& entry.explanation() == Some(own.reasoning@)
            &&& entry.tier() == own.tier
            &&& entry.score() == own.score
        }),
        ({
            let entry = TraceEntry::<'a, D>::Other(other);
            &&& entry.model() == other.model()
            &&& entry.explanation() == other.explanation()
            &&& entry.tier() == None::<ClassifierTier>
            &&& entry.score() == None::<Score>
        }),
{
}

/// A body says its completion upstream, and nothing where it has none.
pub proof fn law_completion_or_empty(body: Json, text: Seq<char>)
    ensures
        completion_of(body) == Some(text) ==> completion_or_empty(body) == text,
        completion_of(body) is None ==> completion_or_empty(body).len() == 0,
{
}

/// How the proxy is set up.
pub proof fn law_proxy_settings()
    ensures
        CLASSIFIER_MODEL@ == "nvidia/deepseek-ai/deepseek-v4-flash"@,
        WEAK_MODEL@ == "nvidia/deepseek-ai/deepseek-v4-flash"@,
        PROFILE_MODEL_ID@ == "libsy-classifier"@,
        DEFAULT_BASE_URL@ == "https://inference-api.nvidia.com/v1"@,
        CLASSIFIER_THRESHOLD_TEXT@ == "0.5"@,
        CLASSIFIER_THRESHOLD_BITS == 0x3fe0_0000_0000_0000,
{
}

} // verus!
