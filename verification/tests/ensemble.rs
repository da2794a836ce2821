//! The ensemble router, driven turn by turn with in-process clients.

use std::sync::{Arc, Mutex};

use libsy::ensemble::{
    build_judge_prompt, collect_survivors, parse_choice, EnsembleDecision, EnsembleOrchAlgo,
    EnsemblePhase, EnsembleRun,
};
use libsy::error::{ErrorOf, Failure};
use libsy::task::{Action, Event};
use libsy::{
    Algorithm, Context, Decision, LlmRequest, LlmResponse, LlmTarget, LlmTargetSet, Metadata,
    Request, Response, RoutedRequest, Signals,
};

/// Answers candidate calls with `answer from {model}` and, for the judge model, with the number
/// of the response whose content is `answer from {prefer}`. Fails the calls of the models in
/// `down`. Records every model it was called with.
struct JudgingClient {
    judge_model: String,
    prefer: String,
    down: Vec<String>,
    calls: Mutex<Vec<String>>,
}

type Routed = RoutedRequest<EnsembleDecision, JudgingClient>;
type Outcome = Result<(Vec<Arc<EnsembleDecision>>, Response), Failure<String>>;

impl JudgingClient {
    fn call(&self, routed: &Routed) -> Result<Response, Failure<String>> {
        let name = routed.decision.selected_model().to_string();
        self.calls.lock().unwrap().push(name.clone());
        if self.down.contains(&name) {
            return Err(Failure::Host("upstream down".to_string()));
        }
        let completion = if name == self.judge_model {
            judge_pick(&routed.request.llm_request.prompt, &self.prefer)
        } else {
            format!("answer from {name}")
        };
        Ok(response(&completion))
    }

    fn count(&self, model: &str) -> usize {
        self.calls.lock().unwrap().iter().filter(|c| *c == model).count()
    }
}

fn response(completion: &str) -> Response {
    Response {
        llm_response: LlmResponse { completion: completion.to_string(), raw_response: None },
        metadata: None,
    }
}

/// Scan a judge prompt for the `Response N:` whose body is `answer from {prefer}` and return `N`
/// as a string; defaults to "1".
fn judge_pick(prompt: &str, prefer: &str) -> String {
    let target_line = format!("answer from {prefer}");
    let mut current = 1u32;
    for line in prompt.lines() {
        if let Some(rest) = line.strip_prefix("Response ") {
            if let Ok(num) = rest.trim_end_matches(':').parse::<u32>() {
                current = num;
            }
        } else if line == target_line {
            return current.to_string();
        }
    }
    "1".to_string()
}

fn algo_with_client(
    candidates: &[&str],
    judge: &str,
    exploration_turns: u64,
    client: &Arc<JudgingClient>,
) -> EnsembleOrchAlgo<JudgingClient> {
    let target = |name: &str| LlmTarget {
        semantic_name: name.to_string(),
        llm_client: Some(client.clone()),
    };
    let mut targets: Vec<LlmTarget<JudgingClient>> = candidates.iter().map(|n| target(n)).collect();
    targets.push(target(judge));
    EnsembleOrchAlgo::new(
        candidates.iter().map(|s| s.to_string()).collect(),
        judge.to_string(),
        exploration_turns,
        LlmTargetSet::new(targets),
    )
}

fn client(judge: &str, prefer: &str, down: &[&str]) -> Arc<JudgingClient> {
    Arc::new(JudgingClient {
        judge_model: judge.to_string(),
        prefer: prefer.to_string(),
        down: down.iter().map(|s| s.to_string()).collect(),
        calls: Mutex::new(Vec::new()),
    })
}

fn algo(
    candidates: &[&str],
    judge: &str,
    prefer: &str,
    exploration_turns: u64,
) -> (EnsembleOrchAlgo<JudgingClient>, Arc<JudgingClient>) {
    let client = client(judge, prefer, &[]);
    (algo_with_client(candidates, judge, exploration_turns, &client), client)
}

fn request(prompt: &str) -> Request {
    Request {
        llm_request: LlmRequest {
            inbound_model_name: "auto".to_string(),
            prompt: prompt.to_string(),
        },
        raw_request: None,
        metadata: None,
    }
}

fn serve(routed: &Routed) -> Result<Response, Failure<String>> {
    routed.default_client.as_ref().expect("a client").call(routed)
}

/// Answer one action with the targets' clients. `Err` holds the outcome of a finished run.
fn answer(
    action: Action<EnsembleDecision, JudgingClient, String>,
    trace: &mut Vec<Arc<EnsembleDecision>>,
) -> Result<Event<String>, Result<Response, Failure<String>>> {
    match action {
        Action::Publish(decision) => {
            trace.push(decision);
            Ok(Event::Published(Ok(())))
        }
        Action::Call(routed) => Ok(Event::Replied(serve(&routed))),
        Action::FanOut(calls) => Ok(Event::AllReplied(calls.iter().map(serve).collect())),
        Action::ReadScore(_) => panic!("the ensemble reads no score"),
        Action::Finish(outcome) => Err(outcome),
    }
}

/// Run one request to completion.
fn run(algo: &mut EnsembleOrchAlgo<JudgingClient>, request: Request) -> Outcome {
    let mut trace = Vec::new();
    let (mut run, mut action) = algo.create_run_task::<String>(Context::default(), request);
    loop {
        match answer(action, &mut trace) {
            Ok(event) => {
                let next = algo.resume(run, event);
                run = next.0;
                action = next.1;
            }
            Err(outcome) => return outcome.map(|response| (trace, response)),
        }
    }
}

/// Accept publications until the run asks for something else.
fn publish_all(
    algo: &mut EnsembleOrchAlgo<JudgingClient>,
    mut run: EnsembleRun<JudgingClient>,
    mut action: Action<EnsembleDecision, JudgingClient, String>,
    trace: &mut Vec<Arc<EnsembleDecision>>,
) -> (EnsembleRun<JudgingClient>, Action<EnsembleDecision, JudgingClient, String>) {
    while let Action::Publish(decision) = action {
        trace.push(decision);
        (run, action) = algo.resume(run, Event::Published(Ok(())));
    }
    (run, action)
}

fn phases(trace: &[Arc<EnsembleDecision>]) -> Vec<EnsemblePhase> {
    trace.iter().map(|decision| decision.phase).collect()
}

fn completion(response: &Response) -> &str {
    response.llm_response.completion.as_str()
}

#[test]
fn exploration_turn_fans_out_judges_and_returns_the_winner() {
    // Judge prefers b/model; it should win and be returned.
    let (mut algo, client) = algo(&["a/model", "b/model"], "judge/haiku", "b/model", 100);
    let (trace, response) = run(&mut algo, request("solve it")).unwrap();
    assert_eq!(completion(&response), "answer from b/model");

    // Both candidates and the judge were called.
    let calls = client.calls.lock().unwrap();
    assert!(calls.contains(&"a/model".to_string()));
    assert!(calls.contains(&"b/model".to_string()));
    assert!(calls.contains(&"judge/haiku".to_string()));

    // Trace: [candidate a, candidate b, judge, winner].
    assert_eq!(trace.len(), 4);
    assert_eq!(trace[0].phase, EnsemblePhase::Candidate);
    assert_eq!(trace[2].phase, EnsemblePhase::Judge);
    assert_eq!(trace[3].phase, EnsemblePhase::Winner);
    assert_eq!(trace[3].selected_model, "b/model");
}

#[test]
fn commits_to_the_winningest_model_after_exploration() {
    // Judge always prefers b/model over 2 exploration turns, so the algo commits to b/model even
    // though a/model is listed first.
    let (mut algo, client) = algo(&["a/model", "b/model"], "judge/haiku", "b/model", 2);

    // Two exploration turns.
    run(&mut algo, request("t1")).unwrap();
    run(&mut algo, request("t2")).unwrap();
    assert_eq!(client.count("judge/haiku"), 2);

    // Third request: routes straight to b/model with no fan-out and no judge call.
    let (trace, response) = run(&mut algo, request("t3")).unwrap();
    assert_eq!(completion(&response), "answer from b/model");
    assert_eq!(trace.len(), 1);
    assert_eq!(trace[0].phase, EnsemblePhase::Committed);
    assert_eq!(trace[0].selected_model, "b/model");

    // Judge was not called again on the committed turn.
    assert_eq!(client.count("judge/haiku"), 2);
    // a/model was called only on the two exploration turns, not the third.
    assert_eq!(client.count("a/model"), 2);
}

#[test]
fn single_candidate_skips_the_judge() {
    let (mut algo, client) = algo(&["only/model"], "judge/haiku", "only/model", 100);
    let (trace, response) = run(&mut algo, request("hi")).unwrap();
    assert_eq!(completion(&response), "answer from only/model");
    // No judge call for a lone candidate.
    assert_eq!(client.count("judge/haiku"), 0);
    // Trace: [candidate, winner], no judge entry.
    assert_eq!(trace.len(), 2);
    assert_eq!(trace[1].phase, EnsemblePhase::Winner);
}

#[test]
fn zero_exploration_turns_never_commits() {
    // exploration_turns == 0 keeps ensembling forever.
    let (mut algo, client) = algo(&["a/model", "b/model"], "judge/haiku", "b/model", 0);
    for _ in 0..3 {
        let (trace, _) = run(&mut algo, request("x")).unwrap();
        // Always a full ensemble turn (never a lone Committed decision).
        assert_eq!(trace[trace.len() - 1].phase, EnsemblePhase::Winner);
    }
    // Judge ran on every turn.
    assert_eq!(client.count("judge/haiku"), 3);
}

#[test]
fn all_candidates_failing_errors() {
    let client = client("judge/haiku", "a/model", &["a/model", "b/model", "judge/haiku"]);
    let mut algo = algo_with_client(&["a/model", "b/model"], "judge/haiku", 100, &client);
    match run(&mut algo, request("x")) {
        Err(Failure::Library(error)) => {
            assert_eq!(error, ErrorOf::AllCandidatesFailed);
            assert_eq!(error.message(), "all ensemble candidates failed");
        }
        _ => panic!("expected the turn to fail"),
    }
    assert_eq!(client.count("judge/haiku"), 0);
}

#[test]
fn ensemble_process_signals_is_a_noop() {
    let (mut algo, _) = algo(&["a/model"], "judge/haiku", "a/model", 1);
    assert_eq!(algo.process_signals(Signals {}), Ok(()));
    assert_eq!(algo.resolve_committed(), Ok(None));
}

#[test]
fn parse_choice_reads_first_number_and_fails_open() {
    assert_eq!(parse_choice("2", 3), 1);
    assert_eq!(parse_choice("Response 3 is best", 3), 2);
    assert_eq!(parse_choice("the winner is 1", 3), 0);
    // Out of range and unparseable both fall open to the first response.
    assert_eq!(parse_choice("7", 3), 0);
    assert_eq!(parse_choice("none", 3), 0);
}

#[test]
fn two_sessions_process_in_parallel() {
    // Two independent sessions that share only the client. Both have fanned out before a call of
    // either is served.
    let client = client("judge/haiku", "a/model", &[]);
    let mut session_a = algo_with_client(&["a/model", "b/model"], "judge/haiku", 100, &client);
    let mut session_b = algo_with_client(&["a/model", "b/model"], "judge/haiku", 100, &client);
    let mut trace_a = Vec::new();
    let mut trace_b = Vec::new();
    let (run, action) =
        session_a.create_run_task::<String>(Context::default(), request("from A"));
    let (mut run_a, mut action_a) = publish_all(&mut session_a, run, action, &mut trace_a);
    let (run, action) =
        session_b.create_run_task::<String>(Context::default(), request("from B"));
    let (mut run_b, mut action_b) = publish_all(&mut session_b, run, action, &mut trace_b);
    assert!(matches!(&action_a, Action::FanOut(calls) if calls.len() == 2));
    assert!(matches!(&action_b, Action::FanOut(calls) if calls.len() == 2));
    let (completion_a, completion_b) = loop {
        match (answer(action_a, &mut trace_a), answer(action_b, &mut trace_b)) {
            (Ok(event_a), Ok(event_b)) => {
                let next_a = session_a.resume(run_a, event_a);
                let next_b = session_b.resume(run_b, event_b);
                (run_a, action_a) = next_a;
                (run_b, action_b) = next_b;
            }
            (Err(a), Err(b)) => break (a.unwrap(), b.unwrap()),
            _ => panic!("the sessions take the same number of steps"),
        }
    };
    assert_eq!(completion(&completion_a), "answer from a/model");
    assert_eq!(completion(&completion_b), "answer from a/model");
}

#[test]
fn two_parallel_sessions_keep_independent_state() {
    // Session A's judge prefers a/model, session B's prefers b/model. Each explores for two
    // turns and commits on the third; they must commit to different models.
    let (mut session_a, _) = algo(&["a/model", "b/model"], "judge/haiku", "a/model", 2);
    let (mut session_b, _) = algo(&["a/model", "b/model"], "judge/haiku", "b/model", 2);
    for prompt in ["t1", "t2"] {
        run(&mut session_a, request(prompt)).unwrap();
        run(&mut session_b, request(prompt)).unwrap();
    }
    let (trace_a, response_a) = run(&mut session_a, request("t3")).unwrap();
    let (trace_b, response_b) = run(&mut session_b, request("t3")).unwrap();
    assert_eq!(trace_a.last().unwrap().phase, EnsemblePhase::Committed);
    assert_eq!(completion(&response_a), "answer from a/model");
    assert_eq!(trace_b.last().unwrap().phase, EnsemblePhase::Committed);
    assert_eq!(completion(&response_b), "answer from b/model");
}

#[test]
fn decisions_say_what_happened() {
    let (mut algo, _) = algo(&["a/model", "b/model"], "judge/haiku", "b/model", 1);
    let (trace, _) = run(&mut algo, request("t1")).unwrap();
    let said: Vec<&str> = trace.iter().map(|d| d.reasoning().unwrap()).collect();
    assert_eq!(
        said,
        vec![
            "ensemble candidate 'a/model'",
            "ensemble candidate 'b/model'",
            "judging 2 candidate responses",
            "judge selected 'b/model' as best response",
        ]
    );
    let models: Vec<&str> = trace.iter().map(|d| d.selected_model()).collect();
    assert_eq!(models, vec!["a/model", "b/model", "judge/haiku", "b/model"]);
    let (trace, _) = run(&mut algo, request("t2")).unwrap();
    assert_eq!(trace[0].reasoning, "committed to 'b/model' after 1 turns");
    let phases: Vec<&str> = [
        EnsemblePhase::Candidate,
        EnsemblePhase::Judge,
        EnsemblePhase::Winner,
        EnsemblePhase::Committed,
    ]
    .iter()
    .map(|phase| phase.as_str())
    .collect();
    assert_eq!(phases, vec!["candidate", "judge", "winner", "committed"]);
}

#[test]
fn failed_candidate_is_left_out_of_the_judging() {
    // b/model is down: the judge sees the other two, numbered one and two.
    let client = client("judge/haiku", "c/model", &["b/model"]);
    let mut algo =
        algo_with_client(&["a/model", "b/model", "c/model"], "judge/haiku", 100, &client);
    let (trace, response) = run(&mut algo, request("x")).unwrap();
    assert_eq!(completion(&response), "answer from c/model");
    assert_eq!(trace.len(), 5);
    assert_eq!(trace[3].reasoning, "judging 2 candidate responses");
    assert_eq!(trace[4].selected_model, "c/model");
}

#[test]
fn lone_survivor_wins_without_the_judge() {
    let client = client("judge/haiku", "a/model", &["a/model"]);
    let mut algo = algo_with_client(&["a/model", "b/model"], "judge/haiku", 1, &client);
    let (trace, response) = run(&mut algo, request("x")).unwrap();
    assert_eq!(completion(&response), "answer from b/model");
    assert_eq!(trace.len(), 3);
    assert_eq!(client.count("judge/haiku"), 0);
    // Its win counts.
    assert_eq!(algo.pick_best(), Ok("b/model".to_string()));
    assert_eq!(algo.resolve_committed(), Ok(Some("b/model".to_string())));
}

#[test]
fn failed_judge_fails_the_turn() {
    let client = client("judge/haiku", "a/model", &["judge/haiku"]);
    let mut algo = algo_with_client(&["a/model", "b/model"], "judge/haiku", 1, &client);
    match run(&mut algo, request("x")) {
        Err(failure) => assert_eq!(failure, Failure::Host("upstream down".to_string())),
        Ok(_) => panic!("expected the judge's failure"),
    }
    // No win was recorded, so the next request explores again.
    assert_eq!(algo.resolve_committed(), Ok(None));
}

#[test]
fn failed_publication_ends_the_run() {
    let (mut algo, client) = algo(&["only/model"], "judge/haiku", "only/model", 100);
    let (run, action) = algo.create_run_task::<String>(Context::new(), request("x"));
    assert!(matches!(action, Action::Publish(_)));
    let (_, action) =
        algo.resume(run, Event::<String>::Published(Err(Failure::Library(ErrorOf::StreamClosed))));
    match action {
        Action::Finish(Err(failure)) => {
            assert_eq!(failure, Failure::Library(ErrorOf::StreamClosed));
        }
        _ => panic!("expected the run to end"),
    }
    assert_eq!(client.count("only/model"), 0);
}

#[test]
fn ties_go_to_the_earlier_candidate() {
    let (mut algo, client_b) = algo(&["a/model", "b/model"], "judge/haiku", "b/model", 2);
    let mut trace = Vec::new();
    run(&mut algo, request("t1")).unwrap();
    assert_eq!(client_b.count("judge/haiku"), 1);
    assert_eq!(algo.pick_best(), Ok("b/model".to_string()));
    // The second turn is won by a/model: one win each.
    let (run, action) = algo.create_run_task::<String>(Context::default(), request("t2"));
    let (run, action) = publish_all(&mut algo, run, action, &mut trace);
    let event = answer(action, &mut trace).ok().unwrap();
    let (run, action) = algo.resume(run, event);
    let (run, action) = publish_all(&mut algo, run, action, &mut trace);
    assert!(matches!(action, Action::Call(_)));
    algo.resume(run, Event::<String>::Replied(Ok(response("I pick 1."))));
    assert_eq!(algo.pick_best(), Ok("a/model".to_string()));
    assert_eq!(algo.resolve_committed(), Ok(Some("a/model".to_string())));
    assert_eq!(algo.resolve_committed(), Ok(Some("a/model".to_string())));
}

#[test]
fn commitment_outlasts_late_wins() {
    // A turn that began before the commitment may be settled after it.
    let (mut algo, _) = algo(&["a/model", "b/model"], "judge/haiku", "a/model", 1);
    let mut trace = Vec::new();
    let (late, action) = algo.create_run_task::<String>(Context::default(), request("late"));
    let (late, action) = publish_all(&mut algo, late, action, &mut trace);
    let event = answer(action, &mut trace).ok().unwrap();
    let (late, action) = algo.resume(late, event);
    let (late, _) = publish_all(&mut algo, late, action, &mut trace);
    run(&mut algo, request("t1")).unwrap();
    assert_eq!(algo.resolve_committed(), Ok(Some("a/model".to_string())));
    algo.resume(late, Event::<String>::Replied(Ok(response("2"))));
    assert_eq!(algo.resolve_committed(), Ok(Some("a/model".to_string())));
    let (trace, _) = run(&mut algo, request("t2")).unwrap();
    assert_eq!(trace[0].selected_model, "a/model");
}

#[test]
fn missing_targets_are_reported() {
    let none: Vec<LlmTarget<JudgingClient>> = Vec::new();
    let mut algo = EnsembleOrchAlgo::new(
        vec!["a/model".to_string(), "b/model".to_string()],
        "judge/haiku".to_string(),
        1,
        LlmTargetSet::new(none),
    );
    match run(&mut algo, request("x")) {
        Err(Failure::Library(error)) => assert_eq!(error.message(), "Target a/model not found"),
        _ => panic!("expected a missing target"),
    }
}

#[test]
fn missing_judge_is_reported() {
    let shared = client("judge/haiku", "a/model", &[]);
    let target = |name: &str| LlmTarget {
        semantic_name: name.to_string(),
        llm_client: Some(shared.clone()),
    };
    let mut algo = EnsembleOrchAlgo::new(
        vec!["a/model".to_string(), "b/model".to_string()],
        "judge/haiku".to_string(),
        1,
        LlmTargetSet::new(vec![target("a/model"), target("b/model")]),
    );
    match run(&mut algo, request("x")) {
        Err(Failure::Library(error)) => {
            assert_eq!(error, ErrorOf::TargetNotFound("judge/haiku".to_string()));
        }
        _ => panic!("expected a missing target"),
    }
}

#[test]
fn ensemble_without_candidates() {
    let (mut algo, _) = algo(&[], "judge/haiku", "none", 1);
    match run(&mut algo, request("x")) {
        Err(failure) => assert_eq!(failure, Failure::Library(ErrorOf::AllCandidatesFailed)),
        Ok(_) => panic!("nobody can answer"),
    }
    assert_eq!(algo.pick_best(), Err(ErrorOf::NoCandidates));
}

#[test]
fn every_call_carries_the_envelope_of_the_request() {
    let raw = serde_json::Value::String("provider body".to_string());
    let mut asked = request("solve it");
    asked.raw_request = Some(raw.clone());
    asked.metadata = Some(Metadata {
        session_id: Some("s-1".to_string()),
        agent_id: None,
        task_id: None,
        correlation_id: Some("c-9".to_string()),
        extra_metadata: Some([("k".to_string(), "v".to_string())].into()),
    });
    let check = |routed: &Routed| {
        assert_eq!(routed.request.llm_request.inbound_model_name, "auto");
        assert_eq!(routed.request.raw_request.as_ref(), Some(&raw));
        let metadata = routed.request.metadata.as_ref().unwrap();
        assert_eq!(metadata.session_id.as_deref(), Some("s-1"));
        assert_eq!(metadata.agent_id, None);
        assert_eq!(metadata.task_id, None);
        assert_eq!(metadata.correlation_id.as_deref(), Some("c-9"));
        let extra = metadata.extra_metadata.as_ref().unwrap();
        assert_eq!(extra.get("k").map(|v| v.as_str()), Some("v"));
        assert_eq!(extra.len(), 1);
    };
    let (mut algo, _) = algo(&["a/model", "b/model"], "judge/haiku", "b/model", 1);
    let mut trace = Vec::new();
    let (run, action) = algo.create_run_task::<String>(Context::default(), asked.clone());
    let (run, action) = publish_all(&mut algo, run, action, &mut trace);
    let event = match &action {
        Action::FanOut(calls) => {
            assert_eq!(calls.len(), 2);
            for call in calls {
                check(call);
                assert_eq!(call.request.llm_request.prompt, "solve it");
            }
            Event::AllReplied(calls.iter().map(serve).collect())
        }
        _ => panic!("expected a fan-out"),
    };
    let (run, action) = algo.resume(run, event);
    let (run, action) = publish_all(&mut algo, run, action, &mut trace);
    match &action {
        Action::Call(judge) => {
            check(judge);
            assert_eq!(
                judge.request.llm_request.prompt,
                "You are an impartial judge. Choose which response best answers the user \
                 request.\n\nUser request:\nsolve it\n\nResponse 1:\nanswer from a/model\n\n\
                 Response 2:\nanswer from b/model\n\n\
                 Reply with only the number (1-2) of the best response."
            );
        }
        _ => panic!("expected the judge call"),
    }
    algo.resume(run, Event::<String>::Replied(Ok(response("1"))));
    let (run, action) = algo.create_run_task::<String>(Context::default(), asked);
    let (_, action) = publish_all(&mut algo, run, action, &mut trace);
    match &action {
        Action::Call(committed) => {
            check(committed);
            assert_eq!(committed.request.llm_request.prompt, "solve it");
            assert_eq!(committed.decision.selected_model(), "a/model");
        }
        _ => panic!("expected the committed call"),
    }
}

#[test]
fn judge_prompt_is_anonymous() {
    let named = |a: &str, b: &str| {
        vec![(a.to_string(), response("first")), (b.to_string(), response("second"))]
    };
    let prompt = build_judge_prompt("why?", &named("a/model", "b/model"));
    assert_eq!(prompt, build_judge_prompt("why?", &named("x", "y")));
    assert_eq!(
        build_judge_prompt("why?", &[]),
        "You are an impartial judge. Choose which response best answers the user request.\n\n\
         User request:\nwhy?\n\nReply with only the number (1-0) of the best response."
    );
}

#[test]
fn judge_replies_at_the_edges() {
    assert_eq!(parse_choice("0", 3), 0);
    assert_eq!(parse_choice("3", 3), 2);
    assert_eq!(parse_choice("4", 3), 0);
    assert_eq!(parse_choice("003", 3), 2);
    assert_eq!(parse_choice("", 3), 0);
    assert_eq!(parse_choice("12 or 3", 20), 11);
    assert_eq!(parse_choice("-2", 3), 1);
    assert_eq!(parse_choice("1.5", 3), 0);
    // Only ASCII digits count.
    assert_eq!(parse_choice("\u{0663} or 2", 3), 1);
    // More digits than an index can hold.
    assert_eq!(parse_choice("340282366920938463463374607431768211456", 3), 0);
    assert_eq!(parse_choice("18446744073709551617", 3), 0);
    assert_eq!(parse_choice("5", 0), 0);
}

#[test]
fn survivors_keep_candidate_order() {
    let models = vec!["a".to_string(), "b".to_string(), "c".to_string()];
    let survivors = collect_survivors(
        &models,
        vec![Ok(response("1")), Err(Failure::Host("down".to_string())), Ok(response("3"))],
    );
    let seen: Vec<(&str, &str)> =
        survivors.iter().map(|(model, r)| (model.as_str(), completion(r))).collect();
    assert_eq!(seen, vec![("a", "1"), ("c", "3")]);
}

#[test]
fn decisions_are_published_as_they_are_made() {
    let (mut algo, _) = algo(&["a/model", "b/model"], "judge/haiku", "b/model", 1);
    let mut trace = Vec::new();
    let (run, action) = algo.create_run_task::<String>(Context::default(), request("t1"));
    // The candidates are announced before they are called.
    let (run, action) = publish_all(&mut algo, run, action, &mut trace);
    assert_eq!(phases(&trace), vec![EnsemblePhase::Candidate, EnsemblePhase::Candidate]);
    assert_eq!(trace[0].selected_model, "a/model");
    assert_eq!(trace[1].selected_model, "b/model");
    let event = match &action {
        Action::FanOut(calls) => Event::AllReplied(calls.iter().map(serve).collect()),
        _ => panic!("expected the fan-out"),
    };
    // The judge is announced before it is called.
    let (run, action) = algo.resume(run, event);
    let (run, action) = publish_all(&mut algo, run, action, &mut trace);
    assert_eq!(trace.len(), 3);
    assert_eq!(trace[2].phase, EnsemblePhase::Judge);
    let event = match &action {
        Action::Call(routed) => {
            assert_eq!(routed.decision.selected_model(), "judge/haiku");
            Event::Replied(serve(routed))
        }
        _ => panic!("expected the judge call"),
    };
    // The winner comes last.
    let (run, action) = algo.resume(run, event);
    let (_, action) = publish_all(&mut algo, run, action, &mut trace);
    assert_eq!(trace.len(), 4);
    assert_eq!(trace[3].phase, EnsemblePhase::Winner);
    assert!(matches!(action, Action::Finish(Ok(_))));

    // A committed request announces its model before it calls it.
    let mut trace = Vec::new();
    let (run, action) = algo.create_run_task::<String>(Context::default(), request("t2"));
    let (run, action) = publish_all(&mut algo, run, action, &mut trace);
    assert_eq!(phases(&trace), vec![EnsemblePhase::Committed]);
    let event = match &action {
        Action::Call(routed) => Event::Replied(serve(routed)),
        _ => panic!("expected the committed call"),
    };
    let (_, action) = algo.resume(run, event);
    assert!(matches!(action, Action::Finish(Ok(_))));
}

/// Run a request that fails and return what it published and its failure.
fn run_failing(
    algo: &mut EnsembleOrchAlgo<JudgingClient>,
) -> (Vec<Arc<EnsembleDecision>>, Failure<String>) {
    let mut trace = Vec::new();
    let (mut run, mut action) = algo.create_run_task::<String>(Context::default(), request("x"));
    loop {
        match answer(action, &mut trace) {
            Ok(event) => (run, action) = algo.resume(run, event),
            Err(Err(failure)) => return (trace, failure),
            Err(Ok(_)) => panic!("expected the run to fail"),
        }
    }
}

#[test]
fn failing_turn_has_published_its_decisions() {
    let names = ["a/model", "b/model"];

    // The judge fails: the candidates and the judge are published.
    let broken = client("judge/haiku", "a/model", &["judge/haiku"]);
    let (trace, failure) =
        run_failing(&mut algo_with_client(&names, "judge/haiku", 1, &broken));
    assert_eq!(phases(&trace), vec![EnsemblePhase::Candidate, EnsemblePhase::Candidate, EnsemblePhase::Judge]);
    assert_eq!(failure, Failure::Host("upstream down".to_string()));

    // Every candidate fails: the candidates are published.
    let broken = client("judge/haiku", "a/model", &names);
    let (trace, failure) =
        run_failing(&mut algo_with_client(&names, "judge/haiku", 1, &broken));
    assert_eq!(phases(&trace), vec![EnsemblePhase::Candidate, EnsemblePhase::Candidate]);
    assert_eq!(failure, Failure::Library(ErrorOf::AllCandidatesFailed));

    // The second candidate has no target: the first is published, and nobody is called.
    let lone = client("judge/haiku", "a/model", &[]);
    let mut algo = EnsembleOrchAlgo::new(
        vec!["a/model".to_string(), "b/model".to_string()],
        "judge/haiku".to_string(),
        1,
        LlmTargetSet::new(vec![LlmTarget {
            semantic_name: "a/model".to_string(),
            llm_client: Some(lone.clone()),
        }]),
    );
    let (trace, failure) = run_failing(&mut algo);
    assert_eq!(phases(&trace), vec![EnsemblePhase::Candidate]);
    assert_eq!(failure, Failure::Library(ErrorOf::TargetNotFound("b/model".to_string())));
    assert_eq!(lone.count("a/model"), 0);

    // The committed model fails: its decision is published.
    let broken = client("judge/haiku", "a/model", &["a/model"]);
    let mut algo = algo_with_client(&["a/model"], "judge/haiku", 1, &broken);
    let (run, _) = algo.create_run_task::<String>(Context::default(), request("t1"));
    let (run, _) = algo.resume(run, Event::<String>::Published(Ok(())));
    algo.resume(run, Event::<String>::AllReplied(vec![Ok(response("fine"))]));
    let (trace, failure) = run_failing(&mut algo);
    assert_eq!(phases(&trace), vec![EnsemblePhase::Committed]);
    assert_eq!(failure, Failure::Host("upstream down".to_string()));
}

#[test]
fn interleaved_runs_tally_one_win_each() {
    let (mut algo, _) = algo(&["a/model", "b/model"], "judge/haiku", "a/model", 3);
    let mut trace = Vec::new();
    let mut runs = Vec::new();
    // Three runs have summoned the judge before any of them is settled.
    for prompt in ["t1", "t2", "t3"] {
        let (run, action) = algo.create_run_task::<String>(Context::default(), request(prompt));
        let (run, action) = publish_all(&mut algo, run, action, &mut trace);
        let event = answer(action, &mut trace).ok().unwrap();
        let (run, action) = algo.resume(run, event);
        let (run, _) = publish_all(&mut algo, run, action, &mut trace);
        runs.push(run);
    }
    for (run, reply) in runs.into_iter().zip(["2", "1", "2"]) {
        assert_eq!(algo.resolve_committed(), Ok(None));
        algo.resume(run, Event::<String>::Replied(Ok(response(reply))));
    }
    assert_eq!(algo.pick_best(), Ok("b/model".to_string()));
    assert_eq!(algo.resolve_committed(), Ok(Some("b/model".to_string())));
}
