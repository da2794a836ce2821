//! Requests, responses and the data that travels with them.

use std::collections::BTreeMap;
use vstd::prelude::*;

verus! {

/// `serde_json::Value`, the raw provider body that rides along with a request or a response.
/// The library passes it on and never looks inside.
#[verifier::external_type_specification]
#[verifier::external_body]
pub struct ExJsonValue(serde_json::Value);

/// `serde_json::Value::clone` returns the same JSON value: `Clone` is derived on the enum and
/// copies every part of it.
pub assume_specification[ <serde_json::Value as Clone>::clone ](value: &serde_json::Value) -> (r:
    serde_json::Value)
    ensures
        r == *value,
;

/// Correlation and routing metadata attached to a request or response.
///
/// All fields are optional. `extra_metadata` is free for host-specific keys.
pub struct Metadata {
    /// Stable id for a session of several requests.
    pub session_id: Option<String>,
    /// Id of the agent making the request.
    pub agent_id: Option<String>,
    /// Id of the task the request belongs to.
    pub task_id: Option<String>,
    /// External trace or request id for joining with the host's telemetry.
    pub correlation_id: Option<String>,
    /// Host-defined key/value metadata.
    pub extra_metadata: Option<BTreeMap<String, String>>,
}

/// The view of [`Metadata`].
#[verifier::ext_equal]
pub struct MetadataView {
    pub session_id: Option<String>,
    pub agent_id: Option<String>,
    pub task_id: Option<String>,
    pub correlation_id: Option<String>,
    pub extra_metadata: Option<Map<String, String>>,
}

impl View for Metadata {
    type V = MetadataView;

    open spec fn view(&self) -> MetadataView {
        MetadataView {
            session_id: self.session_id,
            agent_id: self.agent_id,
            task_id: self.task_id,
            correlation_id: self.correlation_id,
            extra_metadata: match self.extra_metadata {
                Some(map) => Some(map@),
                None => None,
            },
        }
    }
}

impl Clone for Metadata {
    fn clone(&self) -> (r: Self)
        ensures
            r@ == self@,
    {
        Metadata {
            session_id: self.session_id.clone(),
            agent_id: self.agent_id.clone(),
            task_id: self.task_id.clone(),
            correlation_id: self.correlation_id.clone(),
            extra_metadata: match &self.extra_metadata {
                Some(map) => Some(map.clone()),
                None => None,
            },
        }
    }
}

/// The view of optional metadata.
pub open spec fn metadata_view(metadata: Option<Metadata>) -> Option<MetadataView> {
    match metadata {
        Some(metadata) => Some(metadata@),
        None => None,
    }
}

/// A copy of optional metadata.
pub fn clone_metadata(metadata: &Option<Metadata>) -> (r: Option<Metadata>)
    ensures
        metadata_view(r) == metadata_view(*metadata),
{
    match metadata {
        Some(metadata) => Some(metadata.clone()),
        None => None,
    }
}

/// The normalized model request an algorithm reasons over and hands to a target.
///
/// Deliberately minimal: the model the agent asked for and the user prompt. The full
/// provider-shaped request rides on [`Request::raw_request`].
pub struct LlmRequest {
    /// The model name the agent asked for. It is carried through every call unchanged.
    pub inbound_model_name: String,
    /// The user prompt an algorithm inspects and sends.
    pub prompt: String,
}

impl Clone for LlmRequest {
    fn clone(&self) -> (r: Self)
        ensures
            r == *self,
    {
        LlmRequest {
            inbound_model_name: self.inbound_model_name.clone(),
            prompt: self.prompt.clone(),
        }
    }
}

/// A request entering the library: the normalized [`LlmRequest`] plus the original provider
/// payload and correlation [`Metadata`].
pub struct Request {
    /// The normalized request an algorithm routes.
    pub llm_request: LlmRequest,
    /// The original provider-shaped request body, if the host wants to forward it verbatim.
    pub raw_request: Option<serde_json::Value>,
    /// Correlation metadata carried through the request.
    pub metadata: Option<Metadata>,
}

/// The view of a [`Request`].
#[verifier::ext_equal]
pub struct RequestView {
    pub inbound_model_name: Seq<char>,
    pub prompt: Seq<char>,
    pub raw_request: Option<serde_json::Value>,
    pub metadata: Option<MetadataView>,
}

impl RequestView {
    /// The same request with another prompt.
    pub open spec fn with_prompt(self, prompt: Seq<char>) -> RequestView {
        RequestView { prompt, ..self }
    }
}

impl View for Request {
    type V = RequestView;

    open spec fn view(&self) -> RequestView {
        RequestView {
            inbound_model_name: self.llm_request.inbound_model_name@,
            prompt: self.llm_request.prompt@,
            raw_request: self.raw_request,
            metadata: metadata_view(self.metadata),
        }
    }
}

impl Clone for Request {
    fn clone(&self) -> (r: Self)
        ensures
            r@ == self@,
    {
        Request {
            llm_request: self.llm_request.clone(),
            raw_request: self.raw_request.clone(),
            metadata: clone_metadata(&self.metadata),
        }
    }
}

impl Request {
    /// A copy of this request that asks `prompt` instead.
    pub fn with_prompt(&self, prompt: String) -> (r: Request)
        ensures
            r@ == self@.with_prompt(prompt@),
    {
        Request {
            llm_request: LlmRequest {
                inbound_model_name: self.llm_request.inbound_model_name.clone(),
                prompt,
            },
            raw_request: self.raw_request.clone(),
            metadata: clone_metadata(&self.metadata),
        }
    }
}

/// Agentic-stack events fed to an algorithm out of band. It carries nothing yet.
pub struct Signals {}

impl Clone for Signals {
    fn clone(&self) -> (r: Self)
        ensures
            r == *self,
    {
        Signals {  }
    }
}

/// The neutral model response returned by a target.
pub struct LlmResponse {
    /// The model's completion text: what an algorithm inspects or returns.
    pub completion: String,
    /// The raw provider response body, so a host can forward it losslessly.
    pub raw_response: Option<serde_json::Value>,
}

impl Clone for LlmResponse {
    fn clone(&self) -> (r: Self)
        ensures
            r == *self,
    {
        LlmResponse {
            completion: self.completion.clone(),
            raw_response: self.raw_response.clone(),
        }
    }
}

/// A response leaving the library: the neutral [`LlmResponse`] plus optional correlation
/// [`Metadata`].
pub struct Response {
    /// The neutral model response.
    pub llm_response: LlmResponse,
    /// Correlation metadata carried through the response.
    pub metadata: Option<Metadata>,
}

impl Clone for Response {
    fn clone(&self) -> (r: Self)
        ensures
            r.llm_response == self.llm_response,
            metadata_view(r.metadata) == metadata_view(self.metadata),
    {
        Response {
            llm_response: self.llm_response.clone(),
            metadata: clone_metadata(&self.metadata),
        }
    }
}

/// Per-request state threaded to an algorithm. It carries nothing yet.
pub struct Context {}

impl Clone for Context {
    fn clone(&self) -> (r: Self)
        ensures
            r == *self,
    {
        Context {  }
    }
}

impl Context {
    /// Build an empty context.
    pub fn new() -> (r: Self)
        ensures
            r == (Context {  }),
    {
        Context {  }
    }
}

impl Default for Context {
    fn default() -> (r: Self)
        ensures
            r == (Context {  }),
    {
        Context::new()
    }
}

/// A text-only model request: `text` asked of `model`.
pub fn text_request(model: &str, text: &str) -> (r: LlmRequest)
    ensures
        r.inbound_model_name@ == model@,
        r.prompt@ == text@,
{
    LlmRequest { inbound_model_name: model.to_string(), prompt: text.to_string() }
}

/// The text of a model request.
pub fn request_text(request: &LlmRequest) -> (r: &str)
    ensures
        r@ == request.prompt@,
{
    request.prompt.as_str()
}

/// A text-only model response.
pub fn text_response(text: String) -> (r: LlmResponse)
    ensures
        r.completion == text,
        r.raw_response is None,
{
    LlmResponse { completion: text, raw_response: None }
}

/// The text of a model response.
pub fn response_text(response: &LlmResponse) -> (r: &str)
    ensures
        r@ == response.completion@,
{
    response.completion.as_str()
}

} // verus!
