use zed_litellm::url::{api_url_of, chat_completions_url, model_info_url, normalize_base_url};

#[test]
fn normalizes_base_urls() {
    assert_eq!(
        normalize_base_url("http://localhost:4000"),
        "http://localhost:4000"
    );
    assert_eq!(
        normalize_base_url("http://localhost:4000/"),
        "http://localhost:4000"
    );
    assert_eq!(
        normalize_base_url("http://localhost:4000/v1"),
        "http://localhost:4000"
    );
    assert_eq!(
        normalize_base_url("http://localhost:4000/v1/"),
        "http://localhost:4000"
    );
}

#[test]
fn strips_only_one_v1_suffix_after_all_trailing_slashes() {
    assert_eq!(normalize_base_url("http://host/v1//"), "http://host");
    assert_eq!(normalize_base_url("http://host/v1/v1"), "http://host/v1");
    assert_eq!(normalize_base_url("http://host/api/v10"), "http://host/api/v10");
    assert_eq!(normalize_base_url("/v1"), "");
    assert_eq!(normalize_base_url("///"), "");
    assert_eq!(normalize_base_url("v1"), "v1");
    assert_eq!(normalize_base_url("http://hôst/v1"), "http://hôst");
}

#[test]
fn builds_the_endpoint_urls() {
    assert_eq!(api_url_of("http://localhost:4000"), "http://localhost:4000/v1");
    assert_eq!(model_info_url("http://localhost:4000"), "http://localhost:4000/model/info");
    assert_eq!(
        chat_completions_url("http://localhost:4000/v1"),
        "http://localhost:4000/v1/chat/completions"
    );
}

