//! Turns the model list that a LiteLLM proxy reports into the model entries of
//! Zed's `openai_compatible` provider settings, and merges them into an existing
//! settings document.

pub mod url;
pub mod order;
pub mod models;
pub mod json;
pub mod merge;
pub mod settings;
pub mod probe;
pub mod tree;
pub mod reading;
