use zed_litellm::settings::set_prop;
use zed_litellm::tree::SettingsTree;
use zed_litellm::settings::{select_models, Selection};
use jsonc_parser::ParseOptions;
use zed_litellm::json::{Json, JsonMember};
use zed_litellm::settings::{existing_models, merge_into_settings, provider_models, sync_settings, SettingsError};

fn text(s: &str) -> Json {
    Json::Str(s.to_string())
}

fn object(members: Vec<(&str, Json)>) -> Json {
    Json::Object(
        members
            .into_iter()
            .map(|(key, value)| JsonMember { key: key.to_string(), value })
            .collect(),
    )
}

fn gpt_4o() -> Json {
    object(vec![
        ("name", text("gpt-4o")),
        ("max_tokens", Json::Number("128000".to_string())),
    ])
}

#[test]
fn existing_models_reads_provider_entries_from_jsonc() {
    let settings = r#"{
  // comment
  "language_models": {
    "openai_compatible": {
      "litellm": {
        "api_url": "http://x/v1",
        "available_models": [{ "name": "glm-5.2", "max_tokens": 1 }],
      },
    },
  },
}"#;

    let models = existing_models(settings, "litellm");
    assert_eq!(models.len(), 1);
    assert_eq!(models[0].get("name"), Some(&text("glm-5.2")));

    assert!(existing_models(settings, "other-provider").is_empty());
    assert!(existing_models("{}", "litellm").is_empty());
}

#[test]
fn existing_models_is_empty_for_unparsable_or_misshapen_settings() {
    assert!(existing_models("{ not json", "litellm").is_empty());
    assert!(existing_models("", "litellm").is_empty());
    assert!(existing_models(
        r#"{"language_models": {"openai_compatible": {"litellm": {"available_models": {}}}}}"#,
        "litellm"
    )
    .is_empty());
    assert!(provider_models(None, "litellm").is_empty());
    assert!(provider_models(Some(Json::Array(vec![])), "litellm").is_empty());
}

#[test]
fn merge_preserves_comments_and_other_settings() {
    let settings = r#"{
  // My favorite theme
  "theme": "One Dark",
  "language_models": {
    "openai_compatible": {
      "litellm": {
        "api_url": "http://old:4000/v1",
        "custom_headers": { "X-Team": "devops" },
        "available_models": []
      }
    }
  }
}
"#;

    let merged = merge_into_settings(settings, "litellm", "http://new:4000/v1", vec![gpt_4o()]).unwrap();

    assert!(
        merged.contains("// My favorite theme"),
        "comment lost:\n{merged}"
    );
    assert!(merged.contains(r#""theme": "One Dark""#));
    assert!(
        merged.contains(r#""X-Team": "devops""#),
        "custom_headers lost:\n{merged}"
    );
    assert!(merged.contains("http://new:4000/v1"));
    assert!(merged.contains(r#""name": "gpt-4o""#));
    assert!(!merged.contains("http://old:4000/v1"));
}

#[test]
fn merge_creates_missing_structure() {
    let merged = merge_into_settings("{}\n", "litellm", "http://localhost:4000/v1", vec![gpt_4o()]).unwrap();

    let parsed = jsonc_parser::parse_to_serde_value(&merged, &ParseOptions::default())
        .unwrap()
        .unwrap();
    assert_eq!(
        parsed["language_models"]["openai_compatible"]["litellm"]["api_url"],
        "http://localhost:4000/v1"
    );
    assert_eq!(
        parsed["language_models"]["openai_compatible"]["litellm"]["available_models"][0]["name"],
        "gpt-4o"
    );
}

#[test]
fn written_models_read_back() {
    // Members come back in key order, as `serde_json` keeps objects.
    let model = object(vec![
        ("max_tokens", Json::Number("128000".to_string())),
        ("name", text("gpt-4o")),
    ]);
    let merged = merge_into_settings("{}\n", "litellm", "http://localhost:4000/v1", vec![model]).unwrap();
    let expected = object(vec![
        ("max_tokens", Json::Number("128000".to_string())),
        ("name", text("gpt-4o")),
    ]);
    assert_eq!(existing_models(&merged, "litellm"), vec![expected]);
}

#[test]
fn models_written_into_existing_settings_read_back() {
    let settings = r#"{
  // theme first
  "theme": "One Dark",
  "language_models": {
    "openai_compatible": {
      "other": { "api_url": "http://other/v1", "available_models": [] },
      "litellm": { "api_url": "http://old/v1", "available_models": [{ "name": "old" }] }
    }
  }
}"#;
    let models = || {
        vec![
            object(vec![("max_tokens", Json::Number("128000".to_string())), ("name", text("gpt-4o"))]),
            object(vec![("max_tokens", Json::Number("8192".to_string())), ("name", text("mini"))]),
        ]
    };
    let merged = merge_into_settings(settings, "litellm", "http://new/v1", models()).unwrap();
    assert!(merged.contains("// theme first"));
    assert_eq!(existing_models(&merged, "litellm"), models());
    assert_eq!(existing_models(&merged, "other"), Vec::<Json>::new());
}

#[test]
fn unsorted_model_members_read_back_in_key_order() {
    let model = object(vec![
        ("name", text("gpt-4o")),
        ("max_tokens", Json::Number("128000".to_string())),
    ]);
    let merged = merge_into_settings("{}\n", "litellm", "http://x/v1", vec![model]).unwrap();
    let expected = object(vec![
        ("max_tokens", Json::Number("128000".to_string())),
        ("name", text("gpt-4o")),
    ]);
    assert_eq!(existing_models(&merged, "litellm"), vec![expected]);
}

#[test]
fn a_repeated_name_on_the_way_reads_the_last_one() {
    // The tree updates the first `language_models`, `serde_json` keeps the last.
    let settings = r#"{ "language_models": {}, "language_models": { "x": 1 } }"#;
    let merged = merge_into_settings(settings, "litellm", "http://x/v1", vec![gpt_4o()]).unwrap();
    assert!(merged.contains("gpt-4o"));
    assert_eq!(existing_models(&merged, "litellm"), Vec::<Json>::new());
}

#[test]
fn merge_refuses_text_that_does_not_parse() {
    match merge_into_settings("{ \"a\": ", "litellm", "http://x/v1", vec![]) {
        Err(SettingsError::Parse(message)) => {
            assert!(message.starts_with("parsing settings file: "), "{message}")
        }
        Ok(text) => panic!("unexpected success: {text}"),
    }
}

#[test]
fn second_sync_with_the_same_data_changes_nothing() {
    let settings = r#"{
  // keep me
  "language_models": { "openai_compatible": { "litellm": { "custom_headers": {} } } }
}"#;
    let once = merge_into_settings(settings, "litellm", "http://x:4000/v1", vec![gpt_4o()]).unwrap();
    let twice = merge_into_settings(&once, "litellm", "http://x:4000/v1", vec![gpt_4o()]).unwrap();
    assert_eq!(
        jsonc_parser::parse_to_serde_value(&once, &ParseOptions::default()).unwrap(),
        jsonc_parser::parse_to_serde_value(&twice, &ParseOptions::default()).unwrap()
    );
    assert!(twice.contains("// keep me"));
}

#[test]
fn non_object_levels_are_replaced_by_objects() {
    let settings = r#"{ "language_models": 3, "theme": "x" }"#;
    let merged = merge_into_settings(settings, "litellm", "http://x/v1", vec![]).unwrap();
    let parsed = jsonc_parser::parse_to_serde_value(&merged, &ParseOptions::default())
        .unwrap()
        .unwrap();
    assert_eq!(parsed["theme"], "x");
    assert_eq!(
        parsed["language_models"]["openai_compatible"]["litellm"]["api_url"],
        "http://x/v1"
    );
    assert!(parsed["language_models"]["openai_compatible"]["litellm"]["available_models"]
        .as_array()
        .unwrap()
        .is_empty());

    let merged = merge_into_settings("[1, 2]", "litellm", "http://x/v1", vec![]).unwrap();
    let parsed = jsonc_parser::parse_to_serde_value(&merged, &ParseOptions::default())
        .unwrap()
        .unwrap();
    assert_eq!(
        parsed["language_models"]["openai_compatible"]["litellm"]["api_url"],
        "http://x/v1"
    );
}

#[test]
fn set_prop_replaces_in_place_or_appends() {
    let mut tree = SettingsTree::parse(r#"{ "a": 1, "b": 2 }"#).unwrap();
    tree.open_root();
    set_prop(&mut tree, "a", Json::Number("7".to_string()));
    set_prop(&mut tree, "c", text("new"));
    let out = tree.text();
    let a = out.find("\"a\"").unwrap();
    let b = out.find("\"b\"").unwrap();
    let c = out.find("\"c\"").unwrap();
    assert!(a < b && b < c, "{out}");
    assert!(out.contains("\"a\": 7"), "{out}");
    assert!(out.contains("\"c\": \"new\""), "{out}");
    assert!(!out.contains('1'), "{out}");
}

#[test]
fn select_models_replaces_or_merges() {
    let settings = r#"{"language_models": {"openai_compatible": {"litellm": {"available_models": [{"name": "old"}]}}}}"#;
    match select_models(true, settings, "litellm", vec![gpt_4o()]) {
        Selection::Replaced(models) => assert_eq!(models, vec![gpt_4o()]),
        Selection::Merged(_) => panic!("expected replacement"),
    }
    match select_models(false, settings, "litellm", vec![gpt_4o()]) {
        Selection::Merged(merged) => {
            assert_eq!(merged.existing_count, 1);
            assert_eq!(merged.new_count, 1);
            assert_eq!(merged.models.len(), 2);
            assert_eq!(merged.models[0].get("name"), Some(&text("old")));
        }
        Selection::Replaced(_) => panic!("expected a merge"),
    }
}

#[test]
fn comments_within_replaced_values_go_and_others_stay() {
    let settings = r#"{
  // keep: top
  "language_models": {
    /* keep: inside language_models */
    "openai_compatible": {
      "litellm": {
        "api_url": /* keep: before the value */ "http://old/v1",
        "available_models": [
          // drop: inside the old list
          { "name": "old" }
        ],
        "custom_headers": { /* keep: other setting */ }
      }
    }
  }
}
// keep: after the root
"#;
    let merged = merge_into_settings(settings, "litellm", "http://new/v1", vec![gpt_4o()]).unwrap();
    for kept in [
        "// keep: top",
        "/* keep: inside language_models */",
        "/* keep: before the value */",
        "/* keep: other setting */",
        "// keep: after the root",
    ] {
        assert!(merged.contains(kept), "{kept} missing from {merged}");
    }
    assert!(!merged.contains("drop: inside the old list"), "{merged}");
    assert!(!merged.contains("http://old/v1"), "{merged}");
}

#[test]
fn non_integer_and_negative_numbers_read_back() {
    let model = object(vec![
        ("max_tokens", Json::Number("-5".to_string())),
        ("name", text("m")),
        ("temperature", Json::Number("0.7".to_string())),
    ]);
    let expected = object(vec![
        ("max_tokens", Json::Number("-5".to_string())),
        ("name", text("m")),
        ("temperature", Json::Number("0.7".to_string())),
    ]);
    let merged = merge_into_settings("{}\n", "litellm", "http://x/v1", vec![model]).unwrap();
    assert!(merged.contains("-5") && merged.contains("0.7"), "{merged}");
    assert_eq!(existing_models(&merged, "litellm"), vec![expected]);
}

#[test]
fn a_provider_with_a_backslash_is_updated_when_present_and_refused_when_missing() {
    let settings = r#"{ "language_models": { "openai_compatible": { "a\\b": { "api_url": "http://old/v1" } } } }"#;
    let merged = sync_settings(settings, "a\\b", "http://new/v1", vec![]).unwrap().unwrap();
    assert!(merged.contains("http://new/v1") && !merged.contains("http://old/v1"), "{merged}");
    assert!(sync_settings("{}\n", "a\\b", "http://new/v1", vec![]).is_none());
    match sync_settings("{ \"a\": ", "a\\b", "http://new/v1", vec![]) {
        Some(Err(SettingsError::Parse(message))) => assert!(message.starts_with("parsing settings file: ")),
        _ => panic!("expected a parse error"),
    }
    assert!(sync_settings("{}\n", "litellm", "http://new/v1", vec![]).unwrap().is_ok());
}
