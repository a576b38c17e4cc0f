use zed_litellm::json::Json;
use zed_litellm::probe::probe_request;
use zed_litellm::models::{ModelEntry, ModelInfo};
use zed_litellm::probe::{
    probe_candidates, probe_verdict, record_probe, ProbeChoice, ProbeError, ProbeMessage,
    ProbeReport, ProbeResponse, ProbeRun,
};

fn entry(name: Option<&str>, reasoning: Option<bool>) -> ModelEntry {
    ModelEntry {
        model_name: name.map(|n| n.to_string()),
        model_info: Some(ModelInfo {
            supports_reasoning: reasoning,
            ..Default::default()
        }),
    }
}

#[test]
fn only_named_reasoning_models_are_probed() {
    let entries = vec![
        entry(Some("o3"), Some(true)),
        entry(Some("gpt-4o"), Some(false)),
        entry(None, Some(true)),
        ModelEntry { model_name: Some("bare".to_string()), model_info: None },
        entry(Some("glm-5.2"), Some(true)),
        entry(Some("other"), None),
    ];
    assert_eq!(probe_candidates(&entries), vec!["o3".to_string(), "glm-5.2".to_string()]);
}

#[test]
fn probe_verdict_reads_the_first_message() {
    let with = |choices: Vec<ProbeChoice>| ProbeResponse { choices };
    let emitted = ProbeChoice { message: Some(ProbeMessage { has_reasoning_content: true }) };
    let silent = ProbeChoice { message: Some(ProbeMessage { has_reasoning_content: false }) };
    let empty = ProbeChoice { message: None };
    assert_eq!(probe_verdict(&with(vec![emitted])), Ok(true));
    assert_eq!(probe_verdict(&with(vec![silent, emitted])), Ok(false));
    assert_eq!(probe_verdict(&with(vec![])), Err(ProbeError::NoMessage));
    assert_eq!(probe_verdict(&with(vec![empty, emitted])), Err(ProbeError::NoMessage));
}

#[test]
fn only_confirmed_models_are_kept() {
    let mut supported = Vec::new();
    assert_eq!(record_probe(&mut supported, "a", &Ok(true)), ProbeReport::Supported);
    assert_eq!(record_probe(&mut supported, "b", &Ok(false)), ProbeReport::NotEmitted);
    assert_eq!(
        record_probe(&mut supported, "c", &Err("timeout".to_string())),
        ProbeReport::Failed
    );
    assert_eq!(record_probe(&mut supported, "d", &Ok(true)), ProbeReport::Supported);
    assert_eq!(supported, vec!["a".to_string(), "d".to_string()]);
}

#[test]
fn probe_request_carries_prior_reasoning_content() {
    let body = probe_request("o3");
    assert_eq!(body.get("model"), Some(&Json::Str("o3".to_string())));
    assert_eq!(body.get("max_tokens"), Some(&Json::Number("1".to_string())));
    assert_eq!(body.get("reasoning_effort"), Some(&Json::Str("medium".to_string())));
    let messages = match body.get("messages") {
        Some(Json::Array(items)) => items,
        other => panic!("messages: {other:?}"),
    };
    assert_eq!(messages.len(), 3);
    assert_eq!(messages[1].get("role"), Some(&Json::Str("assistant".to_string())));
    assert_eq!(
        messages[1].get("reasoning_content"),
        Some(&Json::Str("prior thinking".to_string()))
    );
    assert_eq!(messages[2].get("content"), Some(&Json::Str("hi again".to_string())));
}

#[test]
fn probe_run_keeps_confirmed_models_and_goes_on_after_failures() {
    let entries = vec![
        entry(Some("a"), Some(true)),
        entry(Some("b"), Some(true)),
        entry(Some("skip"), Some(false)),
        entry(Some("c"), Some(true)),
        entry(Some("d"), Some(true)),
    ];
    let mut run = ProbeRun::new(&entries);
    let outcomes = vec![Err("network".to_string()), Ok(true), Ok(false), Ok(true)];
    let mut probed = Vec::new();
    for outcome in outcomes {
        let name = run.next_candidate().cloned().unwrap();
        probed.push(name);
        run.record(outcome);
    }
    assert!(run.next_candidate().is_none());
    assert_eq!(probed, vec!["a", "b", "c", "d"]);
    assert_eq!(run.finish(), vec!["b".to_string(), "d".to_string()]);
}
