//! The classifier router, driven with in-process clients.

use std::sync::{Arc, Mutex};

use libsy::error::{ErrorOf, Failure};
use libsy::llm_class::{
    ClassifierDecision, ClassifierTier, LlmClassifierOrchAlgo, CLASSIFIER_PROMPT_PREAMBLE,
};
use libsy::score::Score;
use libsy::task::{Action, Event};
use libsy::{
    Algorithm, Context, Decision, LlmRequest, LlmResponse, LlmTarget, LlmTargetSet, Request,
    Response, RoutedRequest, Signals,
};

/// Returns `score` for the classifier target, an answer tagged with the model otherwise. Records
/// the requests it saw.
struct ScoringClient {
    classifier_model: String,
    score: String,
    seen: Mutex<Vec<Request>>,
}

type Routed = RoutedRequest<ClassifierDecision, ScoringClient>;

impl ScoringClient {
    fn call(&self, routed: Routed) -> Result<Response, Failure<String>> {
        let name = routed.decision.selected_model().to_string();
        let completion = if name == self.classifier_model {
            self.score.clone()
        } else {
            format!("answer from {name}")
        };
        self.seen.lock().unwrap().push(routed.request);
        Ok(Response {
            llm_response: LlmResponse { completion, raw_response: None },
            metadata: None,
        })
    }
}

fn score_of(value: f64) -> Score {
    Score { bits: value.to_bits(), text: format!("{value:?}") }
}

fn threshold_of(value: f64) -> Score {
    Score { bits: value.to_bits(), text: format!("{value}") }
}

fn read_score(text: &str) -> Option<Score> {
    text.parse::<f64>().ok().map(score_of)
}

fn algo(
    threshold: f64,
    score: &str,
) -> (LlmClassifierOrchAlgo<ScoringClient>, Arc<ScoringClient>) {
    let client = Arc::new(ScoringClient {
        classifier_model: "router/classifier".to_string(),
        score: score.to_string(),
        seen: Mutex::new(Vec::new()),
    });
    let target = |name: &str| LlmTarget {
        semantic_name: name.to_string(),
        llm_client: Some(client.clone()),
    };
    let target_set = LlmTargetSet::new(vec![
        target("router/classifier"),
        target("frontier/model"),
        target("cheap/model"),
    ]);
    let algo = LlmClassifierOrchAlgo::new(
        "router/classifier".to_string(),
        "frontier/model".to_string(),
        "cheap/model".to_string(),
        threshold_of(threshold),
        target_set,
    );
    (algo, client)
}

fn request(prompt: &str) -> Request {
    Request {
        llm_request: LlmRequest {
            inbound_model_name: "auto".to_string(),
            prompt: prompt.to_string(),
        },
        raw_request: None,
        metadata: None,
    }
}

fn run(
    algo: &mut LlmClassifierOrchAlgo<ScoringClient>,
    request: Request,
) -> Result<(Vec<Arc<ClassifierDecision>>, Response), Failure<String>> {
    let mut trace = Vec::new();
    let (mut run, mut action) = algo.create_run_task::<String>(Context::default(), request);
    loop {
        let event = match action {
            Action::Publish(decision) => {
                trace.push(decision);
                Event::Published(Ok(()))
            }
            Action::Call(routed) => {
                let client = routed.default_client.clone().expect("a client");
                Event::Replied(client.call(routed))
            }
            Action::FanOut(_) => panic!("the classifier never fans out"),
            Action::ReadScore(text) => Event::ScoreRead(read_score(&text)),
            Action::Finish(outcome) => return outcome.map(|response| (trace, response)),
        };
        let next = algo.resume(run, event);
        run = next.0;
        action = next.1;
    }
}

fn value(score: &Option<Score>) -> Option<f64> {
    score.as_ref().map(|score| f64::from_bits(score.bits))
}

#[test]
fn score_at_or_above_threshold_routes_strong() {
    let (mut algo, _) = algo(0.5, "0.9");
    let (trace, response) = run(&mut algo, request("solve this proof")).unwrap();
    assert_eq!(response.llm_response.completion, "answer from frontier/model");
    // Trace: [classify, route].
    assert_eq!(trace[0].selected_model(), "router/classifier");
    let routed = &trace[1];
    assert_eq!(routed.selected_model, "frontier/model");
    assert_eq!(routed.tier, Some(ClassifierTier::Strong));
    assert_eq!(value(&routed.score), Some(0.9));
}

#[test]
fn score_below_threshold_routes_weak() {
    let (mut algo, _) = algo(0.5, "0.2");
    let (trace, response) = run(&mut algo, request("say hello")).unwrap();
    assert_eq!(response.llm_response.completion, "answer from cheap/model");
    let routed = &trace[1];
    assert_eq!(routed.tier, Some(ClassifierTier::Weak));
    assert_eq!(value(&routed.score), Some(0.2));
}

#[test]
fn score_exactly_at_threshold_routes_strong() {
    let (mut algo, _) = algo(0.5, "0.5");
    let (_, response) = run(&mut algo, request("borderline")).unwrap();
    assert_eq!(response.llm_response.completion, "answer from frontier/model");
}

#[test]
fn unparseable_score_defaults_to_strong() {
    let (mut algo, _) = algo(0.5, "not-a-number");
    let (trace, response) = run(&mut algo, request("hi")).unwrap();
    assert_eq!(response.llm_response.completion, "answer from frontier/model");
    let routed = &trace[1];
    assert_eq!(routed.tier, Some(ClassifierTier::Strong));
    assert_eq!(value(&routed.score), None);
}

#[test]
fn classifier_prompt_includes_the_user_text() {
    let (mut algo, client) = algo(0.5, "0.9");
    run(&mut algo, request("prove it")).unwrap();
    let seen = client.seen.lock().unwrap();
    // Two calls: the classifier (preamble + user text), then the routed model.
    assert_eq!(seen.len(), 2);
    assert!(seen[0].llm_request.prompt.contains("prove it"));
    assert!(seen[0].llm_request.prompt.contains("frontier model"));
    assert_eq!(seen[1].llm_request.prompt, "prove it");
    assert_eq!(
        seen[0].llm_request.prompt,
        "Rate how strongly this request needs a frontier model. \
         Reply with a single strong-win-rate score in [0, 1]:\nprove it"
    );
    assert_eq!(
        seen[0].llm_request.prompt,
        format!("{CLASSIFIER_PROMPT_PREAMBLE}prove it")
    );
    for request in seen.iter() {
        assert_eq!(request.llm_request.inbound_model_name, "auto");
    }
}

#[test]
fn reply_is_trimmed_before_it_is_read() {
    // Spaces, a tab, line breaks and a no-break space around the number.
    let (mut algo, _) = algo(0.5, " \t0.2\r\n\u{a0}");
    let (trace, _) = run(&mut algo, request("hi")).unwrap();
    assert_eq!(value(&trace[1].score), Some(0.2));
    assert_eq!(trace[1].tier, Some(ClassifierTier::Weak));
}

#[test]
fn odd_scores() {
    for (reply, tier) in [
        ("NaN", ClassifierTier::Weak),
        ("inf", ClassifierTier::Strong),
        ("-inf", ClassifierTier::Weak),
        ("-0.5", ClassifierTier::Weak),
        ("1e300", ClassifierTier::Strong),
        ("", ClassifierTier::Strong),
        ("0.9 or so", ClassifierTier::Strong),
    ] {
        let (mut algo, _) = algo(0.5, reply);
        let (trace, _) = run(&mut algo, request("hi")).unwrap();
        assert_eq!(trace[1].tier, Some(tier), "reply {reply:?}");
    }
}

#[test]
fn decisions_explain_the_route() {
    let (mut algo, _) = algo(0.5, "0.9");
    let (trace, _) = run(&mut algo, request("hi")).unwrap();
    assert_eq!(trace.len(), 2);
    assert_eq!(trace[0].reasoning(), Some("classifying request via router/classifier"));
    assert!(trace[0].score.is_none());
    assert_eq!(trace[0].tier, None);
    assert_eq!(
        trace[1].reasoning(),
        Some("classifier score Some(0.9) vs threshold 0.5; selected frontier/model (strong)")
    );
    let (mut algo, _) = algo_unreadable();
    let (trace, _) = run(&mut algo, request("hi")).unwrap();
    assert_eq!(
        trace[1].reasoning,
        "classifier score None vs threshold 1; selected frontier/model (strong)"
    );
    assert_eq!(ClassifierTier::Strong.as_str(), "strong");
    assert_eq!(ClassifierTier::Weak.as_str(), "weak");
}

fn algo_unreadable() -> (LlmClassifierOrchAlgo<ScoringClient>, Arc<ScoringClient>) {
    algo(1.0, "no idea")
}

#[test]
fn tiers_follow_the_score() {
    let (algo, _) = algo(0.5, "");
    for (score, tier) in [
        (0.5, ClassifierTier::Strong),
        (0.49999999999999994, ClassifierTier::Weak),
        (0.5000000000000001, ClassifierTier::Strong),
        (0.0, ClassifierTier::Weak),
        (f64::NAN, ClassifierTier::Weak),
    ] {
        assert_eq!(algo.pick_tier(&Some(score_of(score))), tier, "score {score}");
    }
    assert_eq!(algo.pick_tier(&None), ClassifierTier::Strong);
}

#[test]
fn missing_classifier_target_ends_the_run_at_once() {
    let mut algo: LlmClassifierOrchAlgo<ScoringClient> = LlmClassifierOrchAlgo::new(
        "router/classifier".to_string(),
        "strong".to_string(),
        "weak".to_string(),
        threshold_of(0.5),
        LlmTargetSet::new(Vec::new()),
    );
    match run(&mut algo, request("hi")) {
        Err(failure) => assert_eq!(
            failure,
            Failure::Library(ErrorOf::TargetNotFound("router/classifier".to_string()))
        ),
        Ok(_) => panic!("expected a missing target"),
    }
}

#[test]
fn missing_routed_target_ends_the_run_after_the_score() {
    let client = Arc::new(ScoringClient {
        classifier_model: "c".to_string(),
        score: "0.1".to_string(),
        seen: Mutex::new(Vec::new()),
    });
    let mut algo = LlmClassifierOrchAlgo::new(
        "c".to_string(),
        "strong".to_string(),
        "weak".to_string(),
        threshold_of(0.5),
        LlmTargetSet::new(vec![LlmTarget {
            semantic_name: "c".to_string(),
            llm_client: Some(client.clone()),
        }]),
    );
    match run(&mut algo, request("hi")) {
        Err(Failure::Library(error)) => assert_eq!(error.message(), "Target weak not found"),
        _ => panic!("expected a missing target"),
    }
    assert_eq!(client.seen.lock().unwrap().len(), 1);
}

#[test]
fn failed_classifier_call_ends_the_run() {
    let (mut algo, _) = algo(0.5, "0.9");
    let (run, action) = algo.create_run_task::<String>(Context::default(), request("hi"));
    assert!(matches!(action, Action::Publish(_)));
    let (run, action) = algo.resume(run, Event::<String>::Published(Ok(())));
    assert!(matches!(action, Action::Call(_)));
    let (_, action) = algo.resume(run, Event::Replied(Err(Failure::Host("down".to_string()))));
    match action {
        Action::Finish(Err(failure)) => assert_eq!(failure, Failure::Host("down".to_string())),
        _ => panic!("expected the failure"),
    }
}

#[test]
fn classifier_ignores_signals() {
    let (mut algo, _) = algo(0.5, "0.9");
    assert_eq!(algo.process_signals(Signals {}), Ok(()));
    let (run, _) = algo.create_run_task::<String>(Context::default(), request("hi"));
    assert!(algo.can_resume(&run));
}
