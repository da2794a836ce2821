//! # libsy: multi-LLM agent optimization, routing first
//!
//! `libsy` decides, per request, how to serve an LLM call: which models to invoke, in what order
//! and how to combine the results. It owns no transport. It decides, and the host makes the
//! calls.
//!
//! An [`Algorithm`] works on one request at a time as a state machine. It hands the host one
//! [`task::Action`] at a time (publish a decision, perform a model call, perform several) and
//! goes on with the [`task::Event`] that answers it. One algorithm serves many runs, whose steps
//! may interleave.
//!
//! - [`rand::RandomOrchAlgo`] chooses a target of the set at random: one call.
//! - [`llm_class::LlmClassifierOrchAlgo`] asks one model for a score, then routes to a strong or
//!   a weak model.
//! - [`ensemble::EnsembleOrchAlgo`] fans out to several models, has a judge pick the best
//!   response and commits to the winningest model after a number of turns.
//!
//! [`driver`] settles what each outcome of the transport between an algorithm and its consumer
//! means, and [`run`] drains a run's steps with the targets' own clients. [`proxy`] is a proxy
//! built on the classifier router. [`laws`] holds what is proved of whole runs and of every
//! state, [`text_laws`] and [`body_laws`] what is proved of texts and bodies, and [`view_laws`]
//! what the contracts' views show.

pub mod body_laws;
pub mod conversation;
pub mod draws;
pub mod driver;
pub mod ensemble;
pub mod error;
pub mod json;
pub mod laws;
pub mod llm_class;
pub mod proxy;
pub mod rand;
pub mod run;
pub mod score;
pub mod tally;
pub mod target;
pub mod task;
pub mod text;
pub mod text_laws;
pub mod types;
pub mod view_laws;

pub use crate::driver::{CallLlmRequest, DriverStep, Step};
pub use crate::error::{Error, Failure};
pub use crate::target::{Decision, LlmTarget, LlmTargetSet, RoutedRequest};
pub use crate::task::Algorithm;
pub use crate::types::{
    request_text, response_text, text_request, text_response, Context, LlmRequest, LlmResponse,
    Metadata, Request, Response, Signals,
};
