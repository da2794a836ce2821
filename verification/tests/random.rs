//! The random router, driven with in-process clients.

use std::any::Any;
use std::collections::HashSet;
use std::sync::Arc;

use libsy::error::{ErrorOf, Failure};
use libsy::rand::{route_to, RandomDecision, RandomOrchAlgo};
use libsy::task::{Action, Event};
use libsy::{
    Algorithm, Context, Decision, LlmRequest, LlmResponse, LlmTarget, LlmTargetSet, Request,
    Response, RoutedRequest, Signals,
};

/// Echoes back the target name it was called with.
struct EchoClient;

impl EchoClient {
    fn call(&self, routed: &RoutedRequest<RandomDecision, EchoClient>) -> Response {
        Response {
            llm_response: LlmResponse {
                completion: routed.decision.selected_model().to_string(),
                raw_response: None,
            },
            metadata: None,
        }
    }
}

fn request() -> Request {
    Request {
        llm_request: LlmRequest {
            inbound_model_name: "auto".to_string(),
            prompt: "hi".to_string(),
        },
        raw_request: None,
        metadata: None,
    }
}

fn algo(names: &[&str]) -> RandomOrchAlgo<EchoClient> {
    let targets: Vec<LlmTarget<EchoClient>> = names
        .iter()
        .map(|name| LlmTarget {
            semantic_name: name.to_string(),
            llm_client: Some(Arc::new(EchoClient)),
        })
        .collect();
    RandomOrchAlgo::new(LlmTargetSet::new(targets))
}

fn run(
    algo: &mut RandomOrchAlgo<EchoClient>,
) -> Result<(Vec<Arc<RandomDecision>>, Response), Failure<String>> {
    let mut trace = Vec::new();
    let (mut run, mut action) = algo.create_run_task::<String>(Context::default(), request());
    loop {
        let event = match action {
            Action::Publish(decision) => {
                trace.push(decision);
                Event::Published(Ok(()))
            }
            Action::Call(routed) => {
                let client = routed.default_client.clone().expect("a client");
                Event::Replied(Ok(client.call(&routed)))
            }
            Action::Finish(outcome) => return outcome.map(|response| (trace, response)),
            _ => panic!("random routing takes one call"),
        };
        let next = algo.resume(run, event);
        run = next.0;
        action = next.1;
    }
}

#[test]
fn single_target_is_always_selected_and_called() {
    let (trace, response) = run(&mut algo(&["only/model"])).unwrap();
    assert_eq!(response.llm_response.completion, "only/model");
    assert_eq!(trace.len(), 1);
    assert_eq!(trace[0].selected_model(), "only/model");
}

#[test]
fn selected_target_is_in_the_set_and_matches_the_trace() {
    let names = ["a/model", "b/model", "c/model"];
    let mut algo = algo(&names);
    for _ in 0..50 {
        let (trace, response) = run(&mut algo).unwrap();
        let selected = response.llm_response.completion.clone();
        assert!(
            names.contains(&selected.as_str()),
            "selected {selected} not in target set"
        );
        // The trace records the same target that was actually called.
        assert_eq!(trace[0].selected_model(), selected.as_str());
    }
}

#[test]
fn selection_covers_all_targets_over_many_runs() {
    let mut algo = algo(&["a/model", "b/model"]);
    let mut seen = HashSet::new();
    for _ in 0..100 {
        let (_, response) = run(&mut algo).unwrap();
        seen.insert(response.llm_response.completion);
    }
    // 100 uniform draws over two targets: both should appear.
    assert_eq!(
        seen.len(),
        2,
        "expected both targets to be selected, saw {seen:?}"
    );
}

#[test]
fn empty_target_set_errors() {
    let mut algo = algo(&[]);
    assert!(algo.select().is_none());
    match run(&mut algo) {
        Err(Failure::Library(error)) => {
            assert_eq!(error, ErrorOf::NoTargets);
            assert_eq!(error.message(), "no targets available");
        }
        _ => panic!("expected an error"),
    }
}

#[test]
fn rand_process_signals_is_a_noop() {
    let mut algo = algo(&["only/model"]);
    assert_eq!(algo.process_signals(Signals {}), Ok(()));
}

#[test]
fn decision_is_inspectable_and_downcasts() {
    let (trace, _) = run(&mut algo(&["only/model"])).unwrap();
    let decision: &dyn Decision = trace[0].as_ref();
    // Uniform, algo-agnostic access via the trait: no concrete type needed.
    assert_eq!(decision.selected_model(), "only/model");
    assert!(decision
        .reasoning()
        .unwrap_or_default()
        .contains("only/model"));
    // The concrete decision can be had back from behind a type-erased handle.
    let erased: Arc<dyn Any + Send + Sync> = trace[0].clone();
    let concrete = erased.downcast_ref::<RandomDecision>().expect("expected a RandomDecision");
    assert_eq!(concrete.selected_model, "only/model");
}

#[test]
fn chosen_target_is_announced_then_called() {
    let chosen = LlmTarget {
        semantic_name: "b/model".to_string(),
        llm_client: Some(Arc::new(EchoClient)),
    };
    let (run, action) = route_to::<EchoClient, String>(Some(chosen.clone()), request());
    match &action {
        Action::Publish(decision) => {
            assert_eq!(decision.selected_model, "b/model");
            assert_eq!(decision.reasoning, "random routing selected target 'b/model'");
        }
        _ => panic!("expected the decision first"),
    }
    let mut algo = algo(&["b/model"]);
    let (_, action) = algo.resume(run, Event::<String>::Published(Ok(())));
    match action {
        Action::Call(routed) => {
            assert_eq!(routed.decision.selected_model(), "b/model");
            assert_eq!(routed.request.llm_request.inbound_model_name, "auto");
            assert_eq!(routed.request.llm_request.prompt, "hi");
            assert!(Arc::ptr_eq(
                routed.default_client.as_ref().unwrap(),
                chosen.llm_client.as_ref().unwrap()
            ));
        }
        _ => panic!("expected the call"),
    }
}

#[test]
fn refused_decision_ends_the_run_without_a_call() {
    let mut algo = algo(&["b/model"]);
    let (run, _) = algo.create_run_task::<String>(Context::default(), request());
    let (_, action) =
        algo.resume(run, Event::<String>::Published(Err(Failure::Library(ErrorOf::StreamClosed))));
    match action {
        Action::Finish(Err(failure)) => {
            assert_eq!(failure, Failure::Library(ErrorOf::StreamClosed));
        }
        _ => panic!("expected the run to end"),
    }
}

#[test]
fn target_set_is_handed_out_as_given() {
    let names: Vec<String> = algo(&["a", "b", "a"])
        .get_target_set()
        .targets()
        .iter()
        .map(|target| target.semantic_name.clone())
        .collect();
    assert_eq!(names, vec!["a", "b", "a"]);
}
