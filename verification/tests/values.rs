//! Numbers, texts, tallies, targets and the small types around a request.

use std::sync::Arc;

use libsy::error::ErrorOf;
use libsy::score::Score;
use libsy::tally::WinTally;
use libsy::target::share_client;
use libsy::text::{decimal_text, first_number_up_to, join_lines, trim};
use libsy::types::clone_metadata;
use libsy::{
    request_text, response_text, text_request, text_response, Context, LlmTarget, LlmTargetSet,
    Metadata, Request, Response, RoutedRequest, Signals,
};

fn score(value: f64) -> Score {
    Score { bits: value.to_bits(), text: format!("{value:?}") }
}

#[test]
fn scores_compare_as_floating_point_numbers() {
    let values = [
        f64::NEG_INFINITY,
        f64::MIN,
        -1.5,
        -1.0,
        -0.5,
        -f64::MIN_POSITIVE,
        -5e-324,
        -0.0,
        0.0,
        5e-324,
        1e-310,
        f64::MIN_POSITIVE,
        0.1,
        0.2,
        0.49999999999999994,
        0.5,
        0.5000000000000001,
        0.9,
        1.0,
        2.0,
        1e16,
        f64::MAX,
        f64::INFINITY,
        f64::NAN,
        -f64::NAN,
        f64::from_bits(0x7ff0_0000_0000_0001),
    ];
    for a in values {
        for b in values {
            assert_eq!(score(a).is_at_least(&score(b)), a >= b, "{a:?} >= {b:?}");
        }
    }
}

#[test]
fn score_copies_keep_bits_and_text() {
    let copy = score(0.9).clone();
    assert_eq!(copy.bits, 0.9f64.to_bits());
    assert_eq!(copy.text, "0.9");
}

#[test]
fn decimal_texts() {
    for n in [0u64, 1, 9, 10, 99, 100, 12345, u64::MAX] {
        assert_eq!(decimal_text(n), n.to_string());
    }
}

#[test]
fn lines_are_joined() {
    let lines = |texts: &[&str]| -> Vec<String> { texts.iter().map(|t| t.to_string()).collect() };
    assert_eq!(join_lines(&lines(&[])), "");
    assert_eq!(join_lines(&lines(&["a"])), "a");
    assert_eq!(join_lines(&lines(&["a", "", "b"])), "a\n\nb");
}

#[test]
fn trimming_follows_the_white_space_of_characters() {
    for text in [
        "",
        " ",
        "x",
        " \t x y \r\n",
        "\u{2003}0.5\u{3000}",
        "\u{85}a\u{a0}",
        "\u{200b}not white\u{200b}",
        "h\u{e9} ",
    ] {
        assert_eq!(trim(text), text.trim(), "{text:?}");
    }
}

#[test]
fn white_space_is_trimmed_and_nothing_else() {
    let white = [
        0x9u32, 0xa, 0xb, 0xc, 0xd, 0x20, 0x85, 0xa0, 0x1680, 0x2000, 0x2001, 0x2002, 0x2003,
        0x2004, 0x2005, 0x2006, 0x2007, 0x2008, 0x2009, 0x200a, 0x2028, 0x2029, 0x202f, 0x205f,
        0x3000,
    ];
    for code in 0..=0x10ffffu32 {
        if let Some(c) = char::from_u32(code) {
            let text = c.to_string();
            let left = if white.contains(&code) { "" } else { text.as_str() };
            assert_eq!(trim(&text), left, "U+{code:04X}");
        }
    }
}

#[test]
fn first_numbers() {
    assert_eq!(first_number_up_to("12", 12), Some(12));
    assert_eq!(first_number_up_to("12", 11), None);
    assert_eq!(first_number_up_to("a0b7", 9), Some(0));
    assert_eq!(first_number_up_to("none", 9), None);
    let big = usize::MAX.to_string();
    assert_eq!(first_number_up_to(&big, usize::MAX), Some(usize::MAX));
    assert_eq!(first_number_up_to(&format!("{big}0"), usize::MAX), None);
}

#[test]
fn wins_are_tallied() {
    let mut tally = WinTally::new();
    assert_eq!(tally.turns(), 0);
    for model in ["b", "a", "b"] {
        tally.record(model.to_string());
    }
    assert_eq!(tally.turns(), 3);
    assert_eq!(tally.count(&"a".to_string()), 1);
    assert_eq!(tally.count(&"b".to_string()), 2);
    assert_eq!(tally.count(&"c".to_string()), 0);
}

#[test]
fn targets_are_found_by_name() {
    let target = |name: &str, client: u32| LlmTarget {
        semantic_name: name.to_string(),
        llm_client: Some(Arc::new(client)),
    };
    let set = LlmTargetSet::new(vec![target("a", 1), target("b", 2), target("a", 3)]);
    assert_eq!(set.targets().len(), 3);
    // The first of the name is found.
    let found = set.get_target("a").ok().unwrap();
    assert_eq!(found.semantic_name, "a");
    assert_eq!(*found.llm_client.unwrap(), 1);
    assert_eq!(*set.clone().get_target("b").ok().unwrap().llm_client.unwrap(), 2);
    match set.get_target("c") {
        Err(error) => {
            assert_eq!(error, ErrorOf::TargetNotFound("c".to_string()));
            assert_eq!(error.message(), "Target c not found");
        }
        Ok(_) => panic!("there is no such target"),
    }
}

#[test]
fn shared_client_is_the_same_client() {
    let client = Some(Arc::new(7u32));
    let shared = share_client(&client);
    assert!(Arc::ptr_eq(client.as_ref().unwrap(), shared.as_ref().unwrap()));
    assert!(share_client::<u32>(&None).is_none());
}

fn metadata() -> Metadata {
    Metadata {
        session_id: Some("s".to_string()),
        agent_id: Some("a".to_string()),
        task_id: Some("t".to_string()),
        correlation_id: Some("c".to_string()),
        extra_metadata: Some([("k".to_string(), "v".to_string())].into()),
    }
}

fn assert_metadata(copy: &Metadata) {
    assert_eq!(copy.session_id.as_deref(), Some("s"));
    assert_eq!(copy.agent_id.as_deref(), Some("a"));
    assert_eq!(copy.task_id.as_deref(), Some("t"));
    assert_eq!(copy.correlation_id.as_deref(), Some("c"));
    assert_eq!(copy.extra_metadata, Some([("k".to_string(), "v".to_string())].into()));
}

#[test]
fn requests_keep_everything_but_a_new_prompt() {
    let raw = serde_json::Value::Array(vec![
        serde_json::Value::Bool(true),
        serde_json::Value::String("body".to_string()),
    ]);
    let request = Request {
        llm_request: text_request("auto", "old"),
        raw_request: Some(raw.clone()),
        metadata: Some(metadata()),
    };
    let copy = request.clone();
    assert_eq!(copy.llm_request.prompt, "old");
    let asked = request.with_prompt("new".to_string());
    assert_eq!(asked.llm_request.prompt, "new");
    for r in [&copy, &asked] {
        assert_eq!(r.llm_request.inbound_model_name, "auto");
        assert_eq!(r.raw_request.as_ref(), Some(&raw));
        assert_metadata(r.metadata.as_ref().unwrap());
    }
    assert!(clone_metadata(&None).is_none());
}

#[test]
fn texts_go_in_and_out() {
    let request = text_request("auto", "explain tail latency");
    assert_eq!(request.inbound_model_name, "auto");
    assert_eq!(request_text(&request), "explain tail latency");
    let response = Response {
        llm_response: text_response("because".to_string()),
        metadata: Some(metadata()),
    };
    let copy = response.clone();
    assert_eq!(response_text(&copy.llm_response), "because");
    assert!(copy.llm_response.raw_response.is_none());
    assert_metadata(copy.metadata.as_ref().unwrap());
}

#[test]
fn routed_requests_take_the_client_of_their_target() {
    let target = LlmTarget { semantic_name: "a".to_string(), llm_client: Some(Arc::new(5u32)) };
    let request = Request {
        llm_request: text_request("auto", "hi"),
        raw_request: None,
        metadata: None,
    };
    let routed = RoutedRequest::to_target(&target, request, Arc::new("decision"));
    assert_eq!(**routed.default_client.as_ref().unwrap(), 5);
    assert_eq!(*routed.decision, "decision");
    let copy = routed.clone();
    assert!(Arc::ptr_eq(&copy.decision, &routed.decision));
    assert_eq!(copy.request.llm_request.prompt, "hi");
}

#[test]
fn placeholders_carry_nothing() {
    let _: Context = Context::new().clone();
    let _: Context = Context::default();
    let _: Signals = Signals {}.clone();
}
