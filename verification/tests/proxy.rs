//! What the proxy reads from bodies, asks upstream and returns to its callers.

use std::sync::Arc;

use libsy::error::ErrorOf;
use libsy::conversation::{
    ContentBlock, ConversationRequest, ConversationResponse, Instruction, Message,
    ResponseOutput, Role,
};
use libsy::json::{completion_text, content_to_text, extract_prompt, Json};
use libsy::llm_class::{ClassifierDecision, ClassifierTier};
use libsy::proxy::{
    build_orchestrator, chat_completion_body, chat_request_body, endpoint, profile_reply, profile_request,
    routing_metadata, upstream_request, upstream_response, CLASSIFIER_MODEL,
    CLASSIFIER_THRESHOLD_BITS, CLASSIFIER_THRESHOLD_TEXT, DEFAULT_BASE_URL, PROFILE_MODEL_ID, TraceEntry,
    WEAK_MODEL,
};
use libsy::rand::RandomDecision;
use libsy::score::Score;
use libsy::task::{Action, Event};
use libsy::{Algorithm, Context, Decision};

fn text(s: &str) -> Json {
    Json::Text(s.to_string())
}

fn object(members: Vec<(&str, Json)>) -> Json {
    Json::Object(members.into_iter().map(|(key, value)| (key.to_string(), value)).collect())
}

fn message(role: &str, content: Json) -> Json {
    object(vec![("role", text(role)), ("content", content)])
}

fn part(s: &str) -> Json {
    object(vec![("type", text("text")), ("text", text(s))])
}

fn block(s: &str) -> ContentBlock {
    ContentBlock::Text { text: s.to_string() }
}

/// The JSON text of a body.
fn shown(json: &Json) -> String {
    match json {
        Json::Null => "null".to_string(),
        Json::Bool(b) => b.to_string(),
        Json::Number(n) => n.clone(),
        Json::Text(t) => format!("{t:?}"),
        Json::Array(items) => {
            let items: Vec<String> = items.iter().map(shown).collect();
            format!("[{}]", items.join(","))
        }
        Json::Object(members) => {
            let members: Vec<String> =
                members.iter().map(|(key, value)| format!("{key:?}:{}", shown(value))).collect();
            format!("{{{}}}", members.join(","))
        }
    }
}

#[test]
fn content_is_flattened_to_text() {
    assert_eq!(content_to_text(&text("hello")), Some("hello".to_string()));
    assert_eq!(content_to_text(&text("")), Some(String::new()));
    let parts = Json::Array(vec![
        part("one"),
        object(vec![("type", text("image"))]),
        object(vec![("text", Json::Number("3".to_string()))]),
        text("bare"),
        part("two"),
    ]);
    assert_eq!(content_to_text(&parts), Some("one\ntwo".to_string()));
    assert_eq!(content_to_text(&Json::Array(vec![])), None);
    assert_eq!(content_to_text(&Json::Array(vec![part("")])), None);
    // Two empty texts still hold a line break between them.
    assert_eq!(content_to_text(&Json::Array(vec![part(""), part("")])), Some("\n".to_string()));
    assert_eq!(content_to_text(&Json::Null), None);
    assert_eq!(content_to_text(&object(vec![("text", text("x"))])), None);
}

#[test]
fn prompt_is_the_last_user_message() {
    let body = object(vec![(
        "messages",
        Json::Array(vec![
            message("user", text("first")),
            message("user", text("second")),
            message("assistant", text("answer")),
        ]),
    )]);
    assert_eq!(extract_prompt(&body), Some("second".to_string()));
}

#[test]
fn prompt_falls_back_to_the_input() {
    assert_eq!(
        extract_prompt(&object(vec![("input", text("ask"))])),
        Some("ask".to_string())
    );
    let parts = Json::Array(vec![part("a"), part("b")]);
    assert_eq!(extract_prompt(&object(vec![("input", parts)])), Some("a\nb".to_string()));
    // No user message, or one without text: the input counts.
    let no_user = object(vec![
        ("messages", Json::Array(vec![message("assistant", text("x"))])),
        ("input", text("ask")),
    ]);
    assert_eq!(extract_prompt(&no_user), Some("ask".to_string()));
    let empty = object(vec![
        (
            "messages",
            Json::Array(vec![message("user", text("old")), message("user", Json::Null)]),
        ),
        ("input", text("ask")),
    ]);
    assert_eq!(extract_prompt(&empty), Some("ask".to_string()));
    assert_eq!(extract_prompt(&object(vec![("messages", text("none"))])), None);
    assert_eq!(extract_prompt(&Json::Null), None);
}

#[test]
fn completion_is_the_first_choice() {
    let choice = |s: &str| object(vec![("message", message("assistant", text(s)))]);
    let body = object(vec![("choices", Json::Array(vec![choice("yes"), choice("no")]))]);
    assert_eq!(completion_text(&body), Some("yes".to_string()));
    assert_eq!(completion_text(&object(vec![("choices", Json::Array(vec![]))])), None);
    let odd = object(vec![(
        "choices",
        Json::Array(vec![object(vec![("message", message("assistant", Json::Null))])]),
    )]);
    assert_eq!(completion_text(&odd), None);
    assert_eq!(completion_text(&Json::Null), None);
}

#[test]
fn members_are_found_by_key() {
    let body = object(vec![("a", text("1")), ("b", Json::Bool(true)), ("a", text("2"))]);
    assert_eq!(body.get_str("a"), Some("1"));
    assert_eq!(body.get_str("b"), None);
    assert!(matches!(body.get("b"), Some(Json::Bool(true))));
    assert!(body.get("c").is_none());
    assert!(text("a").get("a").is_none());
}

#[test]
fn bodies_have_the_openai_shape() {
    assert_eq!(
        shown(&chat_request_body("m", "hi")),
        "{\"model\":\"m\",\"messages\":[{\"role\":\"user\",\"content\":\"hi\"}],\"stream\":false}"
    );
    assert_eq!(
        shown(&chat_completion_body("yes".to_string())),
        "{\"object\":\"chat.completion\",\"choices\":[{\"index\":0,\"message\":\
         {\"role\":\"assistant\",\"content\":\"yes\"},\"finish_reason\":\"stop\"}]}"
    );
}

#[test]
fn bodies_say_what_was_asked_and_answered() {
    assert_eq!(extract_prompt(&chat_request_body("m", "hi")), Some("hi".to_string()));
    assert_eq!(
        completion_text(&chat_completion_body("yes".to_string())),
        Some("yes".to_string())
    );
}

#[test]
fn conversation_text_is_what_its_blocks_say() {
    let request = ConversationRequest {
        model: None,
        instructions: vec![Instruction { content: vec![block("be brief")] }],
        messages: vec![
            Message {
                role: Role::User,
                content: vec![
                    ContentBlock::Reasoning { text: "hm".to_string() },
                    ContentBlock::Other,
                    ContentBlock::Refusal { text: "no".to_string() },
                ],
            },
            Message {
                role: Role::Assistant,
                content: vec![
                    ContentBlock::Unknown { raw: text("raw") },
                    ContentBlock::Unknown { raw: Json::Null },
                ],
            },
        ],
    };
    assert_eq!(request.prompt(), "be brief\nhm\nno\nraw");
    let single = ConversationRequest::text("auto", "hi".to_string());
    assert_eq!(single.model.as_deref(), Some("auto"));
    assert_eq!(single.prompt(), "hi");
    let response = ConversationResponse {
        outputs: vec![
            ResponseOutput {
                role: Role::Assistant,
                content: vec![block("a"), block("b")],
                stop_reason: None,
            },
            ResponseOutput {
                role: Role::Assistant,
                content: vec![block("c")],
                stop_reason: Some("stop".to_string()),
            },
        ],
    };
    assert_eq!(response.content(), "a\nb\nc");
    assert_eq!(ConversationResponse { outputs: vec![] }.content(), "");
}

#[test]
fn upstream_is_asked_the_text_of_the_conversation() {
    let conversation = ConversationRequest {
        model: Some(PROFILE_MODEL_ID.to_string()),
        instructions: vec![Instruction { content: vec![block("be brief")] }],
        messages: vec![Message { role: Role::User, content: vec![block("hi")] }],
    };
    let body = upstream_request("m", &conversation);
    assert_eq!(shown(&body), shown(&chat_request_body("m", "be brief\nhi")));
}

#[test]
fn upstream_answer_becomes_one_output() {
    let response = upstream_response(Some(&chat_completion_body("yes".to_string())));
    assert_eq!(response.outputs.len(), 1);
    assert_eq!(response.outputs[0].role, Role::Assistant);
    assert!(response.outputs[0].stop_reason.is_none());
    assert_eq!(response.content(), "yes");
    assert_eq!(shown(&profile_reply(&response)), shown(&chat_completion_body("yes".to_string())));
    // A body without a completion, or no body at all, says nothing.
    assert_eq!(upstream_response(Some(&Json::Null)).content(), "");
    assert_eq!(upstream_response(None).content(), "");
}

#[test]
fn inbound_body_becomes_a_request() {
    let body = object(vec![("input", text("ask"))]);
    let raw = serde_json::Value::String("as it came".to_string());
    let request = profile_request(&body, raw.clone()).unwrap();
    assert_eq!(request.llm_request.inbound_model_name, "libsy-classifier");
    assert_eq!(request.llm_request.prompt, "ask");
    assert_eq!(request.raw_request, Some(raw.clone()));
    assert!(request.metadata.is_none());
    assert!(profile_request(&Json::Null, raw).is_none());
}

#[test]
fn orchestrator_routes_between_its_models() {
    assert_eq!(f64::from_bits(CLASSIFIER_THRESHOLD_BITS), 0.5);
    assert_eq!(CLASSIFIER_THRESHOLD_TEXT, format!("{}", 0.5f64));
    for (number, model) in [(0.5f64, "strong/model"), (0.1, WEAK_MODEL)] {
        let mut algo = build_orchestrator("strong/model".to_string(), Arc::new(()));
        let body = object(vec![("input", text("ask"))]);
        let request = profile_request(&body, serde_json::Value::Null).unwrap();
        let (run, action) = algo.create_run_task::<String>(Context::default(), request);
        match &action {
            Action::Publish(decision) => assert_eq!(decision.selected_model(), CLASSIFIER_MODEL),
            _ => panic!("expected the classifier's decision"),
        }
        let (run, action) = algo.resume(run, Event::<String>::Published(Ok(())));
        assert!(matches!(&action, Action::Call(call) if call.default_client.is_some()));
        let reply = libsy::Response {
            llm_response: libsy::text_response(number.to_string()),
            metadata: None,
        };
        let (run, action) = algo.resume(run, Event::<String>::Replied(Ok(reply)));
        assert!(matches!(&action, Action::ReadScore(read) if *read == number.to_string()));
        let score = Score { bits: number.to_bits(), text: format!("{number:?}") };
        let (_, action) = algo.resume(run, Event::<String>::ScoreRead(Some(score)));
        match &action {
            Action::Publish(decision) => assert_eq!(decision.selected_model(), model),
            _ => panic!("expected the routed decision"),
        }
    }
}

#[test]
fn endpoint_needs_a_key() {
    let key = || Some("key".to_string());
    let given = endpoint(Some("http://here".to_string()), key()).ok().unwrap();
    assert_eq!(given.base_url, "http://here");
    assert_eq!(given.api_key, "key");
    assert_eq!(given.timeout_secs, 120);
    let default = endpoint(None, key()).ok().unwrap();
    assert_eq!(default.base_url, "https://inference-api.nvidia.com/v1");
    assert_eq!(default.base_url, DEFAULT_BASE_URL);
    assert_eq!(endpoint(None, None).err(), Some(ErrorOf::MissingApiKey));
    assert_eq!(
        endpoint(Some("http://here".to_string()), None).err(),
        Some(ErrorOf::MissingApiKey)
    );
}

#[test]
fn routing_metadata_comes_from_the_last_decision() {
    let decision = |model: &str, score: Option<f64>, tier: Option<ClassifierTier>| {
        ClassifierDecision {
            selected_model: model.to_string(),
            reasoning: format!("about {model}"),
            score: score.map(|v| Score { bits: v.to_bits(), text: format!("{v:?}") }),
            tier,
        }
    };
    let (classify, route) =
        (decision("c", None, None), decision("s", Some(0.9), Some(ClassifierTier::Strong)));
    let trace: Vec<TraceEntry<RandomDecision>> =
        vec![TraceEntry::Classifier(&classify), TraceEntry::Classifier(&route)];
    let metadata = routing_metadata(&trace);
    assert_eq!(metadata.selected_model.as_deref(), Some("s"));
    assert_eq!(metadata.selected_tier.as_deref(), Some("strong"));
    assert_eq!(metadata.confidence.unwrap().bits, 0.9f64.to_bits());
    assert_eq!(metadata.router_version.as_deref(), Some("libsy-classifier"));
    assert!(metadata.tolerance.is_none());
    assert_eq!(metadata.rationale.as_deref(), Some("about s"));

    let metadata = routing_metadata(&trace[..1]);
    assert_eq!(metadata.selected_model.as_deref(), Some("c"));
    assert!(metadata.selected_tier.is_none());
    assert!(metadata.confidence.is_none());

    // A decision of another router has neither tier nor score, whatever stands before it.
    let other = RandomDecision {
        selected_model: "r".to_string(),
        reasoning: "by chance".to_string(),
    };
    let trace = vec![TraceEntry::Classifier(&route), TraceEntry::Other(&other)];
    let metadata = routing_metadata(&trace);
    assert_eq!(metadata.selected_model.as_deref(), Some("r"));
    assert_eq!(metadata.rationale.as_deref(), Some("by chance"));
    assert!(metadata.selected_tier.is_none());
    assert!(metadata.confidence.is_none());

    let metadata = routing_metadata::<RandomDecision>(&[]);
    assert!(metadata.selected_model.is_none());
    assert!(metadata.rationale.is_none());
    assert_eq!(metadata.router_version.as_deref(), Some("libsy-classifier"));
}
