//! What the outcomes of the step transport mean to producer and consumer.

use std::any::Any;
use std::sync::Arc;

use libsy::driver::{
    fulfill_offered, fulfill_read, fulfill_replied, published, responded, terminal_item,
    typed_request, typed_step, FulfillStep, Reply, TakeOnce, TypedItem,
};
use libsy::error::{Error, ErrorOf, Failure};
use libsy::rand::RandomDecision;
use libsy::{
    text_request, Decision, DriverStep, LlmResponse, Request, Response, RoutedRequest, Step,
};

type Payload = Box<dyn Any + Send>;

/// Take a request through the transport: the offer, the fate of the promise, the payload.
fn fulfill<T: Any>(
    accepted: bool,
    reply: Reply<Payload, String>,
) -> Result<T, Failure<String>> {
    let mut step: FulfillStep<Payload, T, String> = fulfill_offered(accepted);
    let mut reply = Some(reply);
    loop {
        step = match step {
            FulfillStep::Await => fulfill_replied(reply.take().expect("one reply")),
            FulfillStep::Read(payload) => {
                fulfill_read(payload.downcast::<T>().ok().map(|boxed| *boxed))
            }
            FulfillStep::Settled(outcome) => return outcome,
        };
    }
}

fn payload<T: Any + Send>(value: T) -> Reply<Payload, String> {
    Reply::Fulfilled(Ok(Box::new(value)))
}

fn response(completion: &str) -> Response {
    Response {
        llm_response: LlmResponse { completion: completion.to_string(), raw_response: None },
        metadata: None,
    }
}

fn routed() -> RoutedRequest<RandomDecision, ()> {
    RoutedRequest {
        request: Request {
            llm_request: text_request("auto", "hi"),
            raw_request: None,
            metadata: None,
        },
        decision: Arc::new(RandomDecision {
            selected_model: "a".to_string(),
            reasoning: "because".to_string(),
        }),
        default_client: None,
    }
}

type Item = TypedItem<RandomDecision, (), u32, String>;

fn step_of(item: Item) -> Result<Step<RandomDecision, (), u32>, Failure<String>> {
    typed_step(item)
}

#[test]
fn fulfill_request_round_trips_typed_values() {
    let request: Payload = Box::new(7u32);
    let req = *typed_request(request.downcast_ref::<u32>()).unwrap();
    assert_eq!(req, 7);
    assert_eq!(fulfill::<String>(true, payload(format!("got {req}"))), Ok("got 7".to_string()));
}

#[test]
fn respond_error_propagates_to_the_producer() {
    assert_eq!(
        fulfill::<u32>(
            true,
            Reply::Fulfilled(Err(Failure::Host("upstream failed".to_string())))
        ),
        Err(Failure::Host("upstream failed".to_string()))
    );
}

#[test]
fn response_type_mismatch_errors() {
    // The producer expects a String back, but the consumer responds with a u32.
    match fulfill::<String>(true, payload(99u32)) {
        Err(Failure::Library(error)) => {
            assert!(error.message().contains("response type mismatch"));
        }
        _ => panic!("expected a response type mismatch"),
    }
}

#[test]
fn request_downcast_to_wrong_type_errors() {
    let request: Payload = Box::new(5u32);
    let read = typed_request(request.downcast_ref::<String>());
    assert_eq!(read.err(), Some(ErrorOf::RequestTypeMismatch));
    assert_eq!(fulfill::<u32>(true, payload(5u32)), Ok(5));
}

#[test]
fn closed_stream_errors_on_send() {
    assert_eq!(
        fulfill::<u32>(false, Reply::Dropped),
        Err(Failure::Library(ErrorOf::StreamClosed))
    );
    assert_eq!(published(false), Err(ErrorOf::StreamClosed));
    assert_eq!(published(true), Ok(()));
}

#[test]
fn promise_dropped_without_response_errors() {
    assert_eq!(
        fulfill::<u32>(true, Reply::Dropped),
        Err(Failure::Library(ErrorOf::PromiseDropped))
    );
}

#[test]
fn stream_taken_twice_yields_an_error_item() {
    let mut receiver = TakeOnce::new("receiver");
    assert_eq!(receiver.take(), Ok("receiver"));
    for _ in 0..2 {
        match receiver.take() {
            Err(error) => assert!(error.message().contains("already taken")),
            Ok(_) => panic!("expected an error item"),
        }
    }
}

#[test]
fn fail_surfaces_an_error_item_on_the_stream() {
    let item: Result<DriverStep<u32, u32, Response>, Failure<String>> =
        terminal_item(Err(Failure::Host("kaboom".to_string())));
    match item {
        Err(failure) => assert_eq!(failure, Failure::Host("kaboom".to_string())),
        Ok(_) => panic!("expected an error item"),
    }
    match step_of(Err(Failure::Host("kaboom".to_string()))) {
        Err(failure) => assert_eq!(failure, Failure::Host("kaboom".to_string())),
        Ok(_) => panic!("expected an error item"),
    }
}

#[test]
fn final_response_becomes_the_terminal_item() {
    let item: Result<DriverStep<u32, u32, Response>, Failure<String>> =
        terminal_item(Ok(response("finished")));
    match item {
        Ok(DriverStep::Done(response)) => {
            assert_eq!(response.llm_response.completion, "finished");
        }
        _ => panic!("expected a Done step"),
    }
}

#[test]
fn answer_to_a_gone_producer_errors() {
    assert_eq!(responded(true), Ok(()));
    assert_eq!(responded(false), Err(ErrorOf::ReceiverDropped));
}

#[test]
fn items_become_steps() {
    let decision = Arc::new(RandomDecision {
        selected_model: "a".to_string(),
        reasoning: "because".to_string(),
    });
    match step_of(Ok(DriverStep::Info(Some(decision)))) {
        Ok(Step::Decision(decision)) => assert_eq!(decision.reasoning(), Some("because")),
        _ => panic!("expected a decision"),
    }
    match step_of(Ok(DriverStep::Done(Some(response("bye"))))) {
        Ok(Step::ReturnToAgent(response)) => assert_eq!(response.llm_response.completion, "bye"),
        _ => panic!("expected the response"),
    }
    match step_of(Ok(DriverStep::Request((Some(routed()), 3)))) {
        Ok(Step::CallLlm(call)) => {
            assert_eq!(call.get_decision().ok().unwrap().selected_model(), "a");
            let (promise, outcome) = call.respond::<String>(Ok(response("served")));
            assert_eq!(promise, 3);
            assert_eq!(outcome.ok().unwrap().llm_response.completion, "served");
        }
        _ => panic!("expected a call"),
    }
}

#[test]
fn items_of_another_type_become_errors() {
    let error = |item: Item| match step_of(item) {
        Err(Failure::Library(error)) => error,
        _ => panic!("expected an error"),
    };
    assert_eq!(error(Ok(DriverStep::Request((None, 3)))), ErrorOf::RequestTypeMismatch);
    assert_eq!(error(Ok(DriverStep::Info(None))), ErrorOf::InfoNotDecision);
    assert_eq!(error(Ok(DriverStep::Done(None))), ErrorOf::DoneNotResponse);
}

#[test]
fn every_error_has_its_message() {
    let name = || "x".to_string();
    let messages: Vec<(Error, &str)> = vec![
        (ErrorOf::TargetNotFound(name()), "Target x not found"),
        (ErrorOf::NoTargets, "no targets available"),
        (ErrorOf::NoCandidates, "no candidate models configured"),
        (ErrorOf::AllCandidatesFailed, "all ensemble candidates failed"),
        (ErrorOf::StatePoisoned, "ensemble state lock poisoned"),
        (ErrorOf::NoClient(name()), "run: target 'x' has no client to serve the call"),
        (ErrorOf::StreamEnded, "run: stream ended without a final response"),
        (ErrorOf::StreamClosed, "driver: stream closed"),
        (ErrorOf::StreamAlreadyTaken, "driver: stream already taken"),
        (ErrorOf::PromiseDropped, "driver: promise dropped without a response"),
        (ErrorOf::ReceiverDropped, "driver: response receiver dropped"),
        (ErrorOf::RequestTypeMismatch, "driver: request type mismatch"),
        (ErrorOf::ResponseTypeMismatch, "driver: response type mismatch"),
        (ErrorOf::InfoNotDecision, "driver: info payload was not a Decision"),
        (ErrorOf::DoneNotResponse, "driver: done payload was not a Response"),
        (ErrorOf::MissingApiKey, "ANTHROPIC_API_KEY must be set to upstream bearer key"),
    ];
    for (error, message) in messages {
        assert_eq!(error.message(), message);
    }
}
