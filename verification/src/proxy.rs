//! A proxy in front of one upstream that routes every request through the classifier router.
//!
//! This is the part of the proxy that computes: which targets it routes among, what it asks
//! upstream, what it returns to the caller and which routing metadata it surfaces.

use std::sync::Arc;
use vstd::prelude::*;

use crate::conversation::{
    conversation_text, reply_text, ConversationRequest, ConversationResponse, Role,
};
use crate::error::{Error, ErrorOf};
use crate::json::{
    as_text, completion_of, completion_text, extract_prompt, is_first_member, is_last_user, items,
    member, prompt_of, text_member, Json,
};
use crate::llm_class::{tier_name, ClassifierDecision, ClassifierTier, LlmClassifierOrchAlgo};
use crate::score::{Score, ScoreView};
use crate::target::{find_target, lemma_find_target, Decision, LlmTarget, LlmTargetSet};
use crate::text::option_view;
use crate::types::{LlmRequest, Request};

verus! {

/// The model that scores each request.
pub const CLASSIFIER_MODEL: &'static str = "nvidia/deepseek-ai/deepseek-v4-flash";

/// The model for requests with a score below the threshold.
pub const WEAK_MODEL: &'static str = "nvidia/deepseek-ai/deepseek-v4-flash";

/// One half as a binary64 bit pattern.
pub const CLASSIFIER_THRESHOLD_BITS: u64 = 0x3fe0_0000_0000_0000;

/// One half as it is shown.
pub const CLASSIFIER_THRESHOLD_TEXT: &'static str = "0.5";

/// The model id callers address to reach the proxy. Routing picks the real model.
pub const PROFILE_MODEL_ID: &'static str = "libsy-classifier";

/// The base url of the upstream where none is configured.
pub const DEFAULT_BASE_URL: &'static str = "https://inference-api.nvidia.com/v1";

/// How long a call of the upstream may take, in seconds.
pub const UPSTREAM_TIMEOUT_SECS: u64 = 120;

/// Where and how the upstream is called.
pub struct Endpoint {
    pub base_url: String,
    pub api_key: String,
    pub timeout_secs: u64,
}

/// The endpoint for a configured base url and key. Errors exactly if there is no key.
pub fn endpoint(base_url: Option<String>, api_key: Option<String>) -> (r: Result<Endpoint, Error>)
    ensures
        match api_key {
            Some(key) => {
                &&& r matches Ok(endpoint)
                &&& endpoint.api_key == key
                &&& endpoint.base_url@ == (match base_url {
                    Some(url) => url@,
                    None => DEFAULT_BASE_URL@,
                })
                &&& endpoint.timeout_secs == 120
            },
            None => r == Err::<Endpoint, Error>(ErrorOf::MissingApiKey),
        },
{
    match api_key {
        Some(api_key) => {
            let base_url = match base_url {
                Some(url) => url,
                None => DEFAULT_BASE_URL.to_string(),
            };
            Ok(Endpoint { base_url, api_key, timeout_secs: UPSTREAM_TIMEOUT_SECS })
        },
        None => Err(ErrorOf::MissingApiKey),
    }
}

fn model_target<C: ?Sized>(name: &str, client: &Arc<C>) -> (r: LlmTarget<C>)
    ensures
        r.semantic_name@ == name@,
        r.llm_client == Some(*client),
{
    LlmTarget { semantic_name: name.to_string(), llm_client: Some(client.clone()) }
}

/// The classifier router of the proxy: one target per model, all served by the same client.
/// Requests with a score at or above the threshold go to `strong_model`, which the host
/// configures. Each of the three models has a target.
pub fn build_orchestrator<C: ?Sized>(strong_model: String, client: Arc<C>) -> (r:
    LlmClassifierOrchAlgo<C>)
    ensures
        r@.classifier == CLASSIFIER_MODEL@,
        r@.strong == strong_model@,
        r@.weak == WEAK_MODEL@,
        r@.threshold == (ScoreView {
            bits: CLASSIFIER_THRESHOLD_BITS,
            text: CLASSIFIER_THRESHOLD_TEXT@,
        }),
        r@.targets.len() == 3,
        r@.targets[0].semantic_name@ == CLASSIFIER_MODEL@,
        r@.targets[1].semantic_name@ == strong_model@,
        r@.targets[2].semantic_name@ == WEAK_MODEL@,
        forall|i: int| 0 <= i < 3 ==> #[trigger] r@.targets[i].llm_client == Some(client),
        find_target(r@.targets, r@.classifier) is Some,
        find_target(r@.targets, r@.strong) is Some,
        find_target(r@.targets, r@.weak) is Some,
{
    let mut targets: Vec<LlmTarget<C>> = Vec::new();
    targets.push(model_target(CLASSIFIER_MODEL, &client));
    targets.push(model_target(strong_model.as_str(), &client));
    targets.push(model_target(WEAK_MODEL, &client));
    proof {
        assert(targets@[0].semantic_name@ == CLASSIFIER_MODEL@);
        assert(targets@[1].semantic_name@ == strong_model@);
        assert(targets@[2].semantic_name@ == WEAK_MODEL@);
        lemma_find_target(targets@, CLASSIFIER_MODEL@);
        lemma_find_target(targets@, strong_model@);
        lemma_find_target(targets@, WEAK_MODEL@);
    }
    let threshold = Score {
        bits: CLASSIFIER_THRESHOLD_BITS,
        text: CLASSIFIER_THRESHOLD_TEXT.to_string(),
    };
    LlmClassifierOrchAlgo::new(
        CLASSIFIER_MODEL.to_string(),
        strong_model,
        WEAK_MODEL.to_string(),
        threshold,
        LlmTargetSet::new(targets),
    )
}

/// The request to route for an inbound body, or `None` where the body holds no user prompt. The
/// body itself rides along as `raw`.
pub fn profile_request(body: &Json, raw: serde_json::Value) -> (r: Option<Request>)
    ensures
        match r {
            Some(request) => {
                &&& prompt_of(*body) == Some(request@.prompt)
                &&& request@.inbound_model_name == PROFILE_MODEL_ID@
                &&& request@.raw_request == Some(raw)
                &&& request@.metadata is None
            },
            None => prompt_of(*body) is None,
        },
{
    match extract_prompt(body) {
        Some(prompt) => {
            let conversation = ConversationRequest::text(PROFILE_MODEL_ID, prompt);
            Some(
                Request {
                    llm_request: LlmRequest {
                        inbound_model_name: PROFILE_MODEL_ID.to_string(),
                        prompt: conversation.prompt(),
                    },
                    raw_request: Some(raw),
                    metadata: None,
                },
            )
        },
        None => None,
    }
}

/// `json` is the object of one chat message.
pub open spec fn is_message(json: Json, role: Seq<char>, content: Seq<char>) -> bool {
    &&& json matches Json::Object(members)
    &&& members@.len() == 2
    &&& members@[0].0@ == "role"@
    &&& as_text(members@[0].1) == Some(role)
    &&& members@[1].0@ == "content"@
    &&& as_text(members@[1].1) == Some(content)
}

/// `json` is a single-shot OpenAI chat request that asks `prompt` of `model`.
pub open spec fn is_chat_request(json: Json, model: Seq<char>, prompt: Seq<char>) -> bool {
    &&& json matches Json::Object(members)
    &&& members@.len() == 3
    &&& members@[0].0@ == "model"@
    &&& as_text(members@[0].1) == Some(model)
    &&& members@[1].0@ == "messages"@
    &&& items(members@[1].1) matches Some(messages)
    &&& messages.len() == 1
    &&& is_message(messages[0], "user"@, prompt)
    &&& members@[2].0@ == "stream"@
    &&& members@[2].1 == Json::Bool(false)
}

/// `json` is an OpenAI chat completion of one choice that says `content`.
pub open spec fn is_chat_completion(json: Json, content: Seq<char>) -> bool {
    &&& json matches Json::Object(members)
    &&& members@.len() == 2
    &&& members@[0].0@ == "object"@
    &&& as_text(members@[0].1) == Some("chat.completion"@)
    &&& members@[1].0@ == "choices"@
    &&& items(members@[1].1) matches Some(choices)
    &&& choices.len() == 1
    &&& choices[0] matches Json::Object(choice)
    &&& choice@.len() == 3
    &&& choice@[0].0@ == "index"@
    &&& choice@[0].1 matches Json::Number(index)
    &&& index@ == "0"@
    &&& choice@[1].0@ == "message"@
    &&& is_message(choice@[1].1, "assistant"@, content)
    &&& choice@[2].0@ == "finish_reason"@
    &&& as_text(choice@[2].1) == Some("stop"@)
}

fn new_message(role: &str, content: String) -> (r: Json)
    ensures
        is_message(r, role@, content@),
{
    let mut members: Vec<(String, Json)> = Vec::new();
    members.push(("role".to_string(), Json::Text(role.to_string())));
    members.push(("content".to_string(), Json::Text(content)));
    Json::Object(members)
}

/// A single-shot OpenAI chat request that asks `prompt` of `model`.
pub fn chat_request_body(model: &str, prompt: &str) -> (r: Json)
    ensures
        is_chat_request(r, model@, prompt@),
{
    let mut messages: Vec<Json> = Vec::new();
    messages.push(new_message("user", prompt.to_string()));
    let mut members: Vec<(String, Json)> = Vec::new();
    members.push(("model".to_string(), Json::Text(model.to_string())));
    members.push(("messages".to_string(), Json::Array(messages)));
    members.push(("stream".to_string(), Json::Bool(false)));
    Json::Object(members)
}

/// An OpenAI chat completion that says `content`.
pub fn chat_completion_body(content: String) -> (r: Json)
    ensures
        is_chat_completion(r, content@),
{
    let mut choice: Vec<(String, Json)> = Vec::new();
    choice.push(("index".to_string(), Json::Number("0".to_string())));
    choice.push(("message".to_string(), new_message("assistant", content)));
    choice.push(("finish_reason".to_string(), Json::Text("stop".to_string())));
    let mut choices: Vec<Json> = Vec::new();
    choices.push(Json::Object(choice));
    let mut members: Vec<(String, Json)> = Vec::new();
    members.push(("object".to_string(), Json::Text("chat.completion".to_string())));
    members.push(("choices".to_string(), Json::Array(choices)));
    Json::Object(members)
}

/// What the proxy asks upstream for a conversation that was routed to `model`: a single-shot
/// chat request with the text of the conversation.
pub fn upstream_request(model: &str, conversation: &ConversationRequest) -> (r: Json)
    ensures
        is_chat_request(r, model@, conversation_text(*conversation)),
{
    let prompt = conversation.prompt();
    chat_request_body(model, prompt.as_str())
}

/// The completion an upstream body carries, or the empty text where it carries none.
pub open spec fn completion_or_empty(body: Json) -> Seq<char> {
    match completion_of(body) {
        Some(text) => text,
        None => Seq::empty(),
    }
}

/// The response that an upstream body stands for: one assistant output with the completion that
/// the body carries. A missing body carries none.
pub fn upstream_response(body: Option<&Json>) -> (r: ConversationResponse)
    ensures
        r.outputs@.len() == 1,
        r.outputs@[0].role == Role::Assistant,
        r.outputs@[0].content@.len() == 1,
        r.outputs@[0].content@[0] is Text,
        r.outputs@[0].stop_reason is None,
        reply_text(r) == (match body {
            Some(body) => completion_or_empty(*body),
            None => Seq::empty(),
        }),
{
    let completion = match body {
        Some(body) => completion_text(body),
        None => None,
    };
    match completion {
        Some(text) => ConversationResponse::text(text),
        None => ConversationResponse::text(String::new()),
    }
}

/// What the proxy returns to the caller for the response of the routed model: a chat completion
/// with the text of the response.
pub fn profile_reply(response: &ConversationResponse) -> (r: Json)
    ensures
        is_chat_completion(r, reply_text(*response)),
{
    chat_completion_body(response.content())
}

/// What the proxy says about the routing of a response.
pub struct RoutingMetadata {
    pub selected_model: Option<String>,
    pub selected_tier: Option<String>,
    pub confidence: Option<Score>,
    pub router_version: Option<String>,
    pub tolerance: Option<Score>,
    pub rationale: Option<String>,
}

/// One decision of a trace: the classifier router's own, or one of another router.
pub enum TraceEntry<'a, D: ?Sized> {
    Classifier(&'a ClassifierDecision),
    Other(&'a D),
}

impl<'a, D: Decision + ?Sized> TraceEntry<'a, D> {
    /// The model the decision selects.
    pub open spec fn model(&self) -> Seq<char> {
        match *self {
            TraceEntry::Classifier(decision) => decision.model(),
            TraceEntry::Other(decision) => decision.model(),
        }
    }

    /// The explanation of the decision, if it has one.
    pub open spec fn explanation(&self) -> Option<Seq<char>> {
        match *self {
            TraceEntry::Classifier(decision) => decision.explanation(),
            TraceEntry::Other(decision) => decision.explanation(),
        }
    }

    /// The tier of the decision, if it is one of the classifier router and routes.
    pub open spec fn tier(&self) -> Option<ClassifierTier> {
        match *self {
            TraceEntry::Classifier(decision) => decision.tier,
            TraceEntry::Other(_) => None,
        }
    }

    /// The score of the decision, if it is one of the classifier router and has one.
    pub open spec fn score(&self) -> Option<Score> {
        match *self {
            TraceEntry::Classifier(decision) => decision.score,
            TraceEntry::Other(_) => None,
        }
    }
}

/// The routing metadata of a trace. The last decision of a trace is the routed one.
pub fn routing_metadata<'a, D: Decision + ?Sized>(trace: &[TraceEntry<'a, D>]) -> (r:
    RoutingMetadata)
    ensures
        trace@.len() == 0 ==> {
            &&& r.selected_model is None
            &&& r.selected_tier is None
            &&& r.confidence is None
            &&& r.rationale is None
        },
        trace@.len() > 0 ==> {
            let routed = trace@.last();
            &&& option_view(r.selected_model) == Some(routed.model())
            &&& option_view(r.selected_tier) == (match routed.tier() {
                Some(tier) => Some(tier_name(tier)),
                None => None,
            })
            &&& r.confidence == routed.score()
            &&& option_view(r.rationale) == routed.explanation()
        },
        option_view(r.router_version) == Some("libsy-classifier"@),
        r.tolerance is None,
{
    let mut selected_model: Option<String> = None;
    let mut selected_tier: Option<String> = None;
    let mut confidence: Option<Score> = None;
    let mut rationale: Option<String> = None;
    if trace.len() > 0 {
        match &trace[trace.len() - 1] {
            TraceEntry::Classifier(decision) => {
                selected_model = Some(decision.selected_model().to_string());
                rationale = match decision.reasoning() {
                    Some(text) => Some(text.to_string()),
                    None => None,
                };
                selected_tier = match decision.tier {
                    Some(tier) => Some(tier.as_str().to_string()),
                    None => None,
                };
                confidence = match &decision.score {
                    Some(score) => Some(score.clone()),
                    None => None,
                };
            },
            TraceEntry::Other(decision) => {
                selected_model = Some(decision.selected_model().to_string());
                rationale = match decision.reasoning() {
                    Some(text) => Some(text.to_string()),
                    None => None,
                };
            },
        }
    }
    RoutingMetadata {
        selected_model,
        selected_tier,
        confidence,
        router_version: Some("libsy-classifier".to_string()),
        tolerance: None,
        rationale,
    }
}

proof fn lemma_first_member(members: Seq<(String, Json)>, key: Seq<char>, i: int)
    requires
        is_first_member(members, key, i),
    ensures
        forall|k: int| is_first_member(members, key, k) ==> k == i,
{
    assert forall|k: int| is_first_member(members, key, k) implies k == i by {
        if k < i {
            assert(members[k].0@ != key);
        }
        if i < k {
            assert(members[i].0@ != key);
        }
    }
}

proof fn lemma_message(json: Json, role: Seq<char>, content: Seq<char>)
    requires
        is_message(json, role, content),
    ensures
        text_member(json, "role"@) == Some(role),
        text_member(json, "content"@) == Some(content),
{
    reveal_strlit("role");
    reveal_strlit("content");
    let members = json->Object_0@;
    assert(is_first_member(members, "role"@, 0));
    lemma_first_member(members, "role"@, 0);
    assert("role"@.len() != "content"@.len());
    assert(is_first_member(members, "content"@, 1));
    lemma_first_member(members, "content"@, 1);
}

/// What the proxy returns to a caller says what it was given: the assistant text of a chat
/// completion is its content. It holds one finished choice and nothing else.
pub proof fn law_chat_completion_says_its_content(json: Json, content: Seq<char>)
    requires
        is_chat_completion(json, content),
    ensures
        completion_of(json) == Some(content),
        json matches Json::Object(members) && {
            &&& members@.len() == 2
            &&& members@[0].0@ == "object"@
            &&& as_text(members@[0].1) == Some("chat.completion"@)
            &&& members@[1].0@ == "choices"@
            &&& members@[1].1 matches Json::Array(choices)
            &&& choices@.len() == 1
            &&& choices@[0] matches Json::Object(choice)
            &&& choice@.len() == 3
            &&& choice@[0].0@ == "index"@
            &&& choice@[0].1 matches Json::Number(index)
            &&& index@ == "0"@
            &&& choice@[1].0@ == "message"@
            &&& choice@[1].1 matches Json::Object(message)
            &&& message@.len() == 2
            &&& message@[0].0@ == "role"@
            &&& as_text(message@[0].1) == Some("assistant"@)
            &&& message@[1].0@ == "content"@
            &&& as_text(message@[1].1) == Some(content)
            &&& choice@[2].0@ == "finish_reason"@
            &&& as_text(choice@[2].1) == Some("stop"@)
        },
{
    reveal_strlit("object");
    reveal_strlit("choices");
    reveal_strlit("index");
    reveal_strlit("message");
    let members = json->Object_0@;
    assert("object"@.len() != "choices"@.len());
    assert(is_first_member(members, "choices"@, 1));
    lemma_first_member(members, "choices"@, 1);
    let choice = members[1].1->Array_0@[0];
    assert("index"@.len() != "message"@.len());
    assert(is_first_member(choice->Object_0@, "message"@, 1));
    lemma_first_member(choice->Object_0@, "message"@, 1);
    lemma_message(choice->Object_0@[1].1, "assistant"@, content);
}

/// What the proxy asks upstream is what it was given to ask: the user prompt of a chat request
/// is its prompt. It holds one user message, is not streamed, and holds nothing else.
pub proof fn law_chat_request_asks_its_prompt(json: Json, model: Seq<char>, prompt: Seq<char>)
    requires
        is_chat_request(json, model, prompt),
    ensures
        prompt_of(json) == Some(prompt),
        text_member(json, "model"@) == Some(model),
        json matches Json::Object(members) && {
            &&& members@.len() == 3
            &&& members@[0].0@ == "model"@
            &&& as_text(members@[0].1) == Some(model)
            &&& members@[1].0@ == "messages"@
            &&& members@[1].1 matches Json::Array(messages)
            &&& messages@.len() == 1
            &&& messages@[0] matches Json::Object(message)
            &&& message@.len() == 2
            &&& message@[0].0@ == "role"@
            &&& as_text(message@[0].1) == Some("user"@)
            &&& message@[1].0@ == "content"@
            &&& as_text(message@[1].1) == Some(prompt)
            &&& members@[2].0@ == "stream"@
            &&& members@[2].1 == Json::Bool(false)
        },
{
    reveal_strlit("model");
    reveal_strlit("messages");
    let members = json->Object_0@;
    assert(is_first_member(members, "model"@, 0));
    lemma_first_member(members, "model"@, 0);
    assert("model"@.len() != "messages"@.len());
    assert(is_first_member(members, "messages"@, 1));
    lemma_first_member(members, "messages"@, 1);
    let messages = members[1].1->Array_0@;
    lemma_message(messages[0], "user"@, prompt);
    assert(is_last_user(messages, 0));
    assert forall|k: int| is_last_user(messages, k) implies k == 0 by {}
    assert(member(messages[0], "content"@) is Some);
}

} // verus!
