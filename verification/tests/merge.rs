use zed_litellm::json::{Json, JsonMember};
use zed_litellm::merge::merge_models;

fn text(s: &str) -> Json {
    Json::Str(s.to_string())
}

fn number(n: u64) -> Json {
    Json::Number(n.to_string())
}

fn object(members: Vec<(&str, Json)>) -> Json {
    Json::Object(
        members
            .into_iter()
            .map(|(key, value)| JsonMember { key: key.to_string(), value })
            .collect(),
    )
}

fn existing_entry() -> Json {
    object(vec![
        ("name", text("glm-5.2")),
        ("display_name", text("GLM 5.2 (reasoning)")),
        ("max_tokens", number(262144)),
        ("reasoning_effort", text("high")),
        (
            "capabilities",
            object(vec![("interleaved_reasoning", Json::Bool(true))]),
        ),
    ])
}

fn discovered_entries() -> Vec<Json> {
    vec![
        object(vec![("name", text("glm-5.2")), ("max_tokens", number(1048576))]),
        object(vec![("name", text("brand-new-model")), ("max_tokens", number(128000))]),
    ]
}

#[test]
fn merge_models_preserves_existing_entries_verbatim() {
    let existing = vec![existing_entry()];
    let discovered = discovered_entries();

    let merged = merge_models(existing, discovered);

    assert_eq!(merged.existing_count, 1);
    assert_eq!(merged.new_count, 1);
    assert_eq!(merged.models.len(), 2);
    // Existing entry untouched: manual tuning survives.
    assert_eq!(merged.models[0].get("display_name"), Some(&text("GLM 5.2 (reasoning)")));
    assert_eq!(merged.models[0].get("max_tokens"), Some(&number(262144)));
    assert_eq!(merged.models[0].get("reasoning_effort"), Some(&text("high")));
    assert_eq!(
        merged.models[0]
            .get("capabilities")
            .unwrap()
            .get("interleaved_reasoning"),
        Some(&Json::Bool(true))
    );
    // New model appended.
    assert_eq!(merged.models[1].get("name"), Some(&text("brand-new-model")));
}

#[test]
fn merging_again_adds_nothing() {
    let first = merge_models(vec![existing_entry()], discovered_entries());
    let again = merge_models(first.models, discovered_entries());
    assert_eq!(again.new_count, 0);
    assert_eq!(again.existing_count, 2);
    assert_eq!(again.discovered_count, 2);
    assert_eq!(again.models.len(), 2);
    assert_eq!(again.models[0], existing_entry());
}

#[test]
fn unnamed_models_are_neither_names_nor_new() {
    let existing = vec![object(vec![("name", number(1))]), Json::Null];
    let discovered = vec![
        object(vec![("max_tokens", number(5))]),
        object(vec![("name", text("a"))]),
        object(vec![("name", text("a"))]),
    ];
    let merged = merge_models(existing, discovered);
    assert_eq!(merged.discovered_count, 3);
    assert_eq!(merged.existing_count, 2);
    assert_eq!(merged.new_count, 2);
    assert_eq!(merged.models.len(), 4);
    assert_eq!(merged.models[1], Json::Null);
    assert_eq!(merged.models[3].get("name"), Some(&text("a")));
}
