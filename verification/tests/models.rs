use zed_litellm::json::{decimal_text, Json, JsonMember};
use zed_litellm::settings::{existing_models, merge_into_settings};
use zed_litellm::models::{models_to_json, to_zed_models, ModelEntry, ModelInfo, DEFAULT_MAX_TOKENS};

fn entry(name: &str, info: ModelInfo) -> ModelEntry {
    ModelEntry {
        model_name: Some(name.to_string()),
        model_info: Some(info),
    }
}

fn text(s: &str) -> Json {
    Json::Str(s.to_string())
}

fn number(n: u64) -> Json {
    Json::Number(n.to_string())
}

fn object(members: Vec<(&str, Json)>) -> Json {
    Json::Object(
        members
            .into_iter()
            .map(|(key, value)| JsonMember { key: key.to_string(), value })
            .collect(),
    )
}

fn generated(entries: &Vec<ModelEntry>, interleaved: &Vec<String>, effort: &str) -> Vec<Json> {
    models_to_json(&to_zed_models(entries, interleaved, effort))
}

#[test]
fn maps_model_info_to_zed_model() {
    let entries = vec![entry(
        "gpt-4o",
        ModelInfo {
            mode: Some("chat".to_string()),
            max_input_tokens: Some(128000),
            max_output_tokens: Some(16384),
            supports_function_calling: Some(true),
            supports_parallel_function_calling: Some(true),
            supports_vision: Some(true),
            supports_prompt_caching: Some(true),
            supports_reasoning: None,
            ..Default::default()
        },
    )];

    let models = generated(&entries, &vec![], "medium");
    assert_eq!(
        models,
        vec![object(vec![
            (
                "capabilities",
                object(vec![
                    ("images", Json::Bool(true)),
                    ("interleaved_reasoning", Json::Bool(false)),
                    ("parallel_tool_calls", Json::Bool(true)),
                    ("prompt_cache_key", Json::Bool(true)),
                    ("tools", Json::Bool(true)),
                ]),
            ),
            ("max_output_tokens", number(16384)),
            ("max_tokens", number(128000)),
            ("name", text("gpt-4o")),
        ])]
    );
}

#[test]
fn generated_capabilities_include_all_zed_required_fields() {
    let entries = vec![entry("mystery-model", ModelInfo::default())];

    let models = generated(&entries, &vec![], "medium");
    let caps = models[0].get("capabilities").unwrap();
    assert!(caps.get("tools").is_some(), "missing tools");
    assert!(caps.get("images").is_some(), "missing images");
    assert!(
        caps.get("parallel_tool_calls").is_some(),
        "missing parallel_tool_calls"
    );
    assert!(
        caps.get("prompt_cache_key").is_some(),
        "missing prompt_cache_key"
    );
    assert!(
        caps.get("interleaved_reasoning").is_some(),
        "missing interleaved_reasoning"
    );
    // A model with no reported capabilities should still get safe defaults.
    assert_eq!(caps.get("tools"), Some(&Json::Bool(true)));
    assert_eq!(caps.get("images"), Some(&Json::Bool(false)));
    assert_eq!(caps.get("parallel_tool_calls"), Some(&Json::Bool(false)));
    assert_eq!(caps.get("prompt_cache_key"), Some(&Json::Bool(false)));
    assert_eq!(caps.get("interleaved_reasoning"), Some(&Json::Bool(false)));
}

#[test]
fn skips_non_chat_models_and_dedupes() {
    let entries = vec![
        entry(
            "text-embedding-3-small",
            ModelInfo {
                mode: Some("embedding".to_string()),
                ..Default::default()
            },
        ),
        entry("gpt-4o", ModelInfo::default()),
        entry("gpt-4o", ModelInfo::default()),
    ];

    let models = generated(&entries, &vec![], "medium");
    assert_eq!(models.len(), 1);
    assert_eq!(models[0].get("name"), Some(&text("gpt-4o")));
}

#[test]
fn reasoning_models_get_reasoning_effort() {
    let entries = vec![entry(
        "o3",
        ModelInfo {
            supports_reasoning: Some(true),
            ..Default::default()
        },
    )];

    let models = generated(&entries, &vec![], "high");
    assert_eq!(models[0].get("reasoning_effort"), Some(&text("high")));
}

#[test]
fn omits_max_output_tokens_when_untrustworthy() {
    // max_output_tokens == max_input_tokens: untrustworthy, must omit.
    let entries = vec![entry(
        "bad-data-model",
        ModelInfo {
            max_input_tokens: Some(1048576),
            max_output_tokens: Some(1048576),
            ..Default::default()
        },
    )];
    let models = generated(&entries, &vec![], "medium");
    assert_eq!(models[0].get("max_tokens"), Some(&number(1048576)));
    assert_eq!(
        models[0].get("max_output_tokens"),
        None,
        "must omit max_output_tokens when it equals the context window"
    );

    // max_output_tokens < max_input_tokens: trustworthy, keep it.
    let entries = vec![entry(
        "good-data-model",
        ModelInfo {
            max_input_tokens: Some(200000),
            max_output_tokens: Some(8192),
            ..Default::default()
        },
    )];
    let models = generated(&entries, &vec![], "medium");
    assert_eq!(models[0].get("max_tokens"), Some(&number(200000)));
    assert_eq!(models[0].get("max_output_tokens"), Some(&number(8192)));
}

#[test]
fn interleaved_reasoning_set_only_for_probed_models() {
    let entries = vec![entry(
        "glm-5.2",
        ModelInfo {
            supports_reasoning: Some(true),
            ..Default::default()
        },
    )];

    // Without probe results: defaults to false.
    let models = generated(&entries, &vec![], "medium");
    assert_eq!(
        models[0].get("capabilities").unwrap().get("interleaved_reasoning"),
        Some(&Json::Bool(false))
    );

    // With this model in the probe-supported list: set to true.
    let models = generated(&entries, &vec!["glm-5.2".to_string()], "medium");
    assert_eq!(
        models[0].get("capabilities").unwrap().get("interleaved_reasoning"),
        Some(&Json::Bool(true))
    );
}

#[test]
fn missing_token_counts_fall_back_to_default() {
    let entries = vec![entry("mystery-model", ModelInfo::default())];

    let models = generated(&entries, &vec![], "medium");
    assert_eq!(models[0].get("max_tokens"), Some(&number(DEFAULT_MAX_TOKENS)));
    assert_eq!(models[0].get("max_output_tokens"), None);
}

#[test]
fn max_tokens_falls_back_to_reported_max_tokens() {
    let entries = vec![entry(
        "fallback-model",
        ModelInfo {
            max_tokens: Some(32768),
            max_output_tokens: Some(4096),
            ..Default::default()
        },
    )];
    let models = to_zed_models(&entries, &vec![], "medium");
    assert_eq!(models[0].max_tokens, 32768);
    assert_eq!(models[0].max_output_tokens, Some(4096));

    // max_input_tokens wins over max_tokens.
    let entries = vec![entry(
        "both-model",
        ModelInfo {
            max_input_tokens: Some(1000),
            max_tokens: Some(2000),
            max_output_tokens: Some(1500),
            ..Default::default()
        },
    )];
    let models = to_zed_models(&entries, &vec![], "medium");
    assert_eq!(models[0].max_tokens, 1000);
    assert_eq!(models[0].max_output_tokens, None);
}

#[test]
fn models_come_out_sorted_by_name_first_deployment_wins() {
    let entries = vec![
        entry("zeta", ModelInfo::default()),
        entry(
            "alpha",
            ModelInfo {
                max_input_tokens: Some(10),
                ..Default::default()
            },
        ),
        ModelEntry { model_name: None, model_info: None },
        ModelEntry { model_name: Some("mid".to_string()), model_info: None },
        entry(
            "alpha",
            ModelInfo {
                max_input_tokens: Some(20),
                ..Default::default()
            },
        ),
        entry(
            "responses-model",
            ModelInfo {
                mode: Some("responses".to_string()),
                ..Default::default()
            },
        ),
        entry(
            "image-model",
            ModelInfo {
                mode: Some("image_generation".to_string()),
                ..Default::default()
            },
        ),
        entry("Zed", ModelInfo::default()),
        entry("émoji", ModelInfo::default()),
    ];
    let models = to_zed_models(&entries, &vec![], "medium");
    let names: Vec<&str> = models.iter().map(|m| m.name.as_str()).collect();
    assert_eq!(names, vec!["Zed", "alpha", "mid", "responses-model", "zeta", "émoji"]);
    assert_eq!(models[1].max_tokens, 10);
}

#[test]
fn reasoning_effort_only_for_reasoning_models() {
    let entries = vec![
        entry(
            "thinker",
            ModelInfo {
                supports_reasoning: Some(true),
                ..Default::default()
            },
        ),
        entry(
            "plain",
            ModelInfo {
                supports_reasoning: Some(false),
                ..Default::default()
            },
        ),
    ];
    let models = to_zed_models(&entries, &vec![], "low");
    assert_eq!(models[0].name, "plain");
    assert_eq!(models[0].reasoning_effort, None);
    assert_eq!(models[1].reasoning_effort, Some("low".to_string()));
}

#[test]
fn decimal_text_writes_whole_numbers() {
    assert_eq!(decimal_text(0), "0");
    assert_eq!(decimal_text(7), "7");
    assert_eq!(decimal_text(128000), "128000");
    assert_eq!(decimal_text(u64::MAX), u64::MAX.to_string());
}

#[test]
fn generated_models_read_back_after_a_sync() {
    let info = |max_output: Option<u64>| ModelInfo {
        mode: Some("chat".to_string()),
        max_input_tokens: Some(200000),
        max_output_tokens: max_output,
        supports_function_calling: Some(true),
        supports_reasoning: Some(true),
        ..ModelInfo::default()
    };
    let entries = vec![entry("deep-thinker", info(Some(64000))), entry("gpt-4o", info(None))];
    let interleaved = vec!["deep-thinker".to_string()];
    let settings = "{\n  // mine\n  \"language_models\": { \"openai_compatible\": {} }\n}\n";
    let merged = merge_into_settings(
        settings,
        "litellm",
        "http://x/v1",
        generated(&entries, &interleaved, "high"),
    )
    .unwrap();
    assert_eq!(existing_models(&merged, "litellm"), generated(&entries, &interleaved, "high"));
}
