//! What can go wrong while a request is served.

use vstd::prelude::*;

verus! {

/// The errors the library raises itself. `T` is the type of the names an error carries:
/// [`Error`] carries strings and its view [`ErrorView`] carries character sequences.
#[derive(Debug, PartialEq, Eq)]
pub enum ErrorOf<T> {
    /// No target of the set has this name.
    TargetNotFound(T),
    /// The target set to choose from is empty.
    NoTargets,
    /// The ensemble has no candidate to commit to.
    NoCandidates,
    /// Every candidate call of an ensemble turn failed.
    AllCandidatesFailed,
    /// A holder of the ensemble state panicked.
    StatePoisoned,
    /// A call was routed to the named model, whose target has no client to serve it.
    NoClient(T),
    /// The step stream ended before the final response.
    StreamEnded,
    /// The consumer of the step stream is gone.
    StreamClosed,
    /// The consumer stream was taken before.
    StreamAlreadyTaken,
    /// The consumer dropped a promise without fulfilling it.
    PromiseDropped,
    /// The producer stopped waiting for the response.
    ReceiverDropped,
    /// A request payload has another type than the consumer asked for.
    RequestTypeMismatch,
    /// A response payload has another type than the producer asked for.
    ResponseTypeMismatch,
    /// The payload of an informational step is not a decision.
    InfoNotDecision,
    /// The payload of the terminal step is not a response.
    DoneNotResponse,
    /// The proxy was given no key for its upstream.
    MissingApiKey,
}

/// An error of the library.
pub type Error = ErrorOf<String>;

/// The view of an [`Error`].
pub type ErrorView = ErrorOf<Seq<char>>;

impl View for ErrorOf<String> {
    type V = ErrorView;

    open spec fn view(&self) -> ErrorView {
        match *self {
            ErrorOf::TargetNotFound(name) => ErrorOf::TargetNotFound(name@),
            ErrorOf::NoTargets => ErrorOf::NoTargets,
            ErrorOf::NoCandidates => ErrorOf::NoCandidates,
            ErrorOf::AllCandidatesFailed => ErrorOf::AllCandidatesFailed,
            ErrorOf::StatePoisoned => ErrorOf::StatePoisoned,
            ErrorOf::NoClient(model) => ErrorOf::NoClient(model@),
            ErrorOf::StreamEnded => ErrorOf::StreamEnded,
            ErrorOf::StreamClosed => ErrorOf::StreamClosed,
            ErrorOf::StreamAlreadyTaken => ErrorOf::StreamAlreadyTaken,
            ErrorOf::PromiseDropped => ErrorOf::PromiseDropped,
            ErrorOf::ReceiverDropped => ErrorOf::ReceiverDropped,
            ErrorOf::RequestTypeMismatch => ErrorOf::RequestTypeMismatch,
            ErrorOf::ResponseTypeMismatch => ErrorOf::ResponseTypeMismatch,
            ErrorOf::InfoNotDecision => ErrorOf::InfoNotDecision,
            ErrorOf::DoneNotResponse => ErrorOf::DoneNotResponse,
            ErrorOf::MissingApiKey => ErrorOf::MissingApiKey,
        }
    }
}

/// The text an error is shown as.
pub open spec fn error_text(error: ErrorView) -> Seq<char> {
    match error {
        ErrorOf::TargetNotFound(name) => "Target "@ + name + " not found"@,
        ErrorOf::NoTargets => "no targets available"@,
        ErrorOf::NoCandidates => "no candidate models configured"@,
        ErrorOf::AllCandidatesFailed => "all ensemble candidates failed"@,
        ErrorOf::StatePoisoned => "ensemble state lock poisoned"@,
        ErrorOf::NoClient(model) => "run: target '"@ + model
            + "' has no client to serve the call"@,
        ErrorOf::StreamEnded => "run: stream ended without a final response"@,
        ErrorOf::StreamClosed => "driver: stream closed"@,
        ErrorOf::StreamAlreadyTaken => "driver: stream already taken"@,
        ErrorOf::PromiseDropped => "driver: promise dropped without a response"@,
        ErrorOf::ReceiverDropped => "driver: response receiver dropped"@,
        ErrorOf::RequestTypeMismatch => "driver: request type mismatch"@,
        ErrorOf::ResponseTypeMismatch => "driver: response type mismatch"@,
        ErrorOf::InfoNotDecision => "driver: info payload was not a Decision"@,
        ErrorOf::DoneNotResponse => "driver: done payload was not a Response"@,
        ErrorOf::MissingApiKey => "ANTHROPIC_API_KEY must be set to upstream bearer key"@,
    }
}

impl ErrorOf<String> {
    /// The text this error is shown as.
    pub fn message(&self) -> (r: String)
        ensures
            r@ == error_text(self@),
    {
        match self {
            ErrorOf::TargetNotFound(name) => {
                let mut text = "Target ".to_string();
                text.append(name.as_str());
                text.append(" not found");
                text
            },
            ErrorOf::NoTargets => "no targets available".to_string(),
            ErrorOf::NoCandidates => "no candidate models configured".to_string(),
            ErrorOf::AllCandidatesFailed => "all ensemble candidates failed".to_string(),
            ErrorOf::StatePoisoned => "ensemble state lock poisoned".to_string(),
            ErrorOf::NoClient(model) => {
                let mut text = "run: target '".to_string();
                text.append(model.as_str());
                text.append("' has no client to serve the call");
                text
            },
            ErrorOf::StreamEnded => "run: stream ended without a final response".to_string(),
            ErrorOf::StreamClosed => "driver: stream closed".to_string(),
            ErrorOf::StreamAlreadyTaken => "driver: stream already taken".to_string(),
            ErrorOf::PromiseDropped => "driver: promise dropped without a response".to_string(),
            ErrorOf::ReceiverDropped => "driver: response receiver dropped".to_string(),
            ErrorOf::RequestTypeMismatch => "driver: request type mismatch".to_string(),
            ErrorOf::ResponseTypeMismatch => "driver: response type mismatch".to_string(),
            ErrorOf::InfoNotDecision => "driver: info payload was not a Decision".to_string(),
            ErrorOf::DoneNotResponse => "driver: done payload was not a Response".to_string(),
            ErrorOf::MissingApiKey => {
                "ANTHROPIC_API_KEY must be set to upstream bearer key".to_string()
            },
        }
    }
}

/// Why an operation failed: for a reason of the library's own, or with an error `E` of the
/// host, which is passed on as it came.
#[derive(Debug, PartialEq, Eq)]
pub enum Failure<E> {
    Library(Error),
    Host(E),
}

/// The view of a [`Failure`].
pub enum FailureView<E> {
    Library(ErrorView),
    Host(E),
}

impl<E> View for Failure<E> {
    type V = FailureView<E>;

    open spec fn view(&self) -> FailureView<E> {
        match *self {
            Failure::Library(error) => FailureView::Library(error@),
            Failure::Host(error) => FailureView::Host(error),
        }
    }
}

} // verus!
