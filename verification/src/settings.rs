//! Reading and updating Zed's `settings.json`, a JSON-with-comments file.
//!
//! Reading goes through `jsonc_parser`'s value parser, writing through its
//! concrete syntax tree, so that comments and formatting outside the provider's
//! `api_url` and `available_models` survive.

use vstd::prelude::*;

use jsonc_parser::errors::ParseError;
use jsonc_parser::ParseOptions;

use crate::json::{lookup, member, views, Json, JsonMember, JsonV};
use crate::merge::{merge_models, new_models, MergedModels};
use crate::models::{model_json, ZedModel};
use crate::reading::{
    key_count, lemma_model_json_read_back, lemma_serde_member, lemma_set_member_count,
    serde_document, serde_number, serde_reading,
};
use crate::tree::{
    child_object, current_object, has_current, jsonc_cst_accepts, jsonc_tree_document,
    lemma_child_of_with_member, lemma_open_child, lemma_paths, lemma_replace_at, lemma_resolves_push,
    lemma_set_member_lookup, lemma_set_member_missing, lemma_set_member_same,
    lemma_with_child_object, lemma_with_member_twice, members_of, object_at, plain_name,
    comments_outside, jsonc_comments, member_index, non_object,
    read_back, replace_at, resolves, root_as_object, tree_state, with_child_object, with_member,
    writes_back, SettingsTree,
};

verus! {

#[verifier::external_type_specification]
#[verifier::external_body]
pub struct ExSerdeValue(serde_json::Value);

/// The document that `jsonc_parser::parse_to_serde_value` reads from a
/// settings text with the default options: the tree's document as
/// `serde_json` keeps it; nothing when the text does not parse or holds no
/// value.
pub open spec fn settings_document(text: Seq<char>) -> Option<JsonV> {
    if jsonc_cst_accepts(text) {
        serde_document(jsonc_tree_document(text), |literal: Seq<char>| serde_number(literal))
    } else {
        None
    }
}

/// A `serde_json::Value` as a `Json`, variant for variant: numbers keep the
/// text that `serde_json` prints for them, objects their members in the map's
/// order.
#[verifier::external_body]
fn json_from_serde(value: serde_json::Value) -> Json {
    match value {
        serde_json::Value::Null => Json::Null,
        serde_json::Value::Bool(b) => Json::Bool(b),
        serde_json::Value::Number(n) => Json::Number(n.to_string()),
        serde_json::Value::String(s) => Json::Str(s),
        serde_json::Value::Array(items) => Json::Array(items.into_iter().map(json_from_serde).collect()),
        serde_json::Value::Object(map) => Json::Object(
            map.into_iter().map(|(key, value)| JsonMember { key, value: json_from_serde(value) }).collect(),
        ),
    }
}

/// Calls `jsonc_parser::parse_to_serde_value` with the default options. Since
/// this call and `CstRootNode::parse` both read the text with `parse_to_ast`
/// and the same options, the contract claims that the result is `None` when
/// the tree refuses the text and is else the tree's document as `serde_json`
/// keeps it (see `serde_reading`): `None` for a text without a value.
#[verifier::external_body]
fn parse_jsonc(text: &str) -> (doc: Option<Json>)
    ensures
        jsonc_cst_accepts(text@) ==> doc_view(doc) == serde_document(
            jsonc_tree_document(text@),
            |literal: Seq<char>| serde_number(literal),
        ),
        !jsonc_cst_accepts(text@) ==> doc is None,
{
    jsonc_parser::parse_to_serde_value(text, &ParseOptions::default()).ok().flatten().map(json_from_serde)
}

/// The value of an optional document.
pub open spec fn doc_view(doc: Option<Json>) -> Option<JsonV> {
    match doc {
        Some(d) => Some(d@),
        None => None,
    }
}

/// The `available_models` list of a provider, from a parsed settings document:
/// `language_models.openai_compatible.<provider>.available_models`, empty when
/// any of these is missing or is not of the right kind.
pub open spec fn provider_entries(doc: Option<JsonV>, provider: Seq<char>) -> Seq<JsonV> {
    let models = match doc {
        Some(d) => match member(d, "language_models"@) {
            Some(lm) => match member(lm, "openai_compatible"@) {
                Some(oc) => match member(oc, provider) {
                    Some(p) => member(p, "available_models"@),
                    None => None,
                },
                None => None,
            },
            None => None,
        },
        None => None,
    };
    match models {
        Some(JsonV::Array(items)) => items,
        _ => Seq::empty(),
    }
}

/// The provider's current `available_models` entries in a parsed settings
/// document; empty when the provider (or any parent key) is missing.
pub fn provider_models(doc: Option<Json>, provider: &str) -> (models: Vec<Json>)
    ensures
        views(models@) == provider_entries(doc_view(doc), provider@),
{
    let d = match doc {
        Some(d) => d,
        None => {
            let empty: Vec<Json> = Vec::new();
            assert(views(empty@) =~= Seq::empty());
            return empty;
        },
    };
    let lm = match d.take("language_models") {
        Some(v) => v,
        None => {
            let empty: Vec<Json> = Vec::new();
            assert(views(empty@) =~= Seq::empty());
            return empty;
        },
    };
    let oc = match lm.take("openai_compatible") {
        Some(v) => v,
        None => {
            let empty: Vec<Json> = Vec::new();
            assert(views(empty@) =~= Seq::empty());
            return empty;
        },
    };
    let p = match oc.take(provider) {
        Some(v) => v,
        None => {
            let empty: Vec<Json> = Vec::new();
            assert(views(empty@) =~= Seq::empty());
            return empty;
        },
    };
    let list = match p.take("available_models") {
        Some(v) => v,
        None => {
            let empty: Vec<Json> = Vec::new();
            assert(views(empty@) =~= Seq::empty());
            return empty;
        },
    };
    match list.into_array() {
        Some(items) => items,
        None => {
            let empty: Vec<Json> = Vec::new();
            assert(views(empty@) =~= Seq::empty());
            empty
        },
    }
}

/// Reads the provider's current `available_models` entries from the settings
/// text. Returns an empty list when the provider (or any parent key) is
/// missing or the settings can't be parsed.
pub fn existing_models(settings_text: &str, provider: &str) -> (models: Vec<Json>)
    ensures
        views(models@) == provider_entries(settings_document(settings_text@), provider@),
{
    let doc = parse_jsonc(settings_text);
    provider_models(doc, provider)
}

/// Calls `Display::fmt` of `jsonc_parser::errors::ParseError`: the error's
/// kind with its line and column. Nothing is stated of the text.
#[verifier::external_body]
fn parse_error_text(error: &ParseError) -> String {
    error.to_string()
}

/// Sets property `name` of the current object: its value is replaced in
/// place when it exists, the comments within the old value going with it,
/// else the property is appended at the end. Every other comment stays.
/// A missing name with a backslash is left out: the tree would write it
/// unescaped.
pub fn set_prop(tree: &mut SettingsTree, name: &str, value: Json)
    requires
        has_current(tree_state(*old(tree))),
        plain_name(name@) || lookup(members_of(current_object(tree_state(*old(tree)))), name@) is Some,
    ensures
        tree_state(*final(tree)).document == Some(
            replace_at(
                tree_state(*old(tree)).document->0,
                tree_state(*old(tree)).path->0,
                with_member(current_object(tree_state(*old(tree))), name@, read_back(value@)),
            ),
        ),
        tree_state(*final(tree)).path == tree_state(*old(tree)).path,
        has_current(tree_state(*final(tree))),
        current_object(tree_state(*final(tree))) == with_member(
            current_object(tree_state(*old(tree))),
            name@,
            read_back(value@),
        ),
        tree_state(*old(tree)).printable && writes_back(value@) ==> tree_state(
            *final(tree),
        ).printable,
        tree_state(*final(tree)).place == tree_state(*old(tree)).place,
        tree_state(*final(tree)).comments == if lookup(
            members_of(current_object(tree_state(*old(tree)))),
            name@,
        ) is Some {
            comments_outside(
                tree_state(*old(tree)).comments,
                tree_state(*old(tree)).place.push(
                    member_index(members_of(current_object(tree_state(*old(tree)))), name@),
                ),
            )
        } else {
            tree_state(*old(tree)).comments
        },
{
    let ghost o = tree_state(*tree);
    let ghost members = members_of(current_object(o));
    if tree.find_property(name) {
        tree.replace_found(value);
    } else {
        proof {
            lemma_set_member_missing(members, name@, read_back(value@));
        }
        tree.append_property(name, value);
    }
    proof {
        lemma_replace_at(
            o.document->0,
            o.path->0,
            with_member(current_object(o), name@, read_back(value@)),
        );
    }
}

/// Why the settings could not be updated.
#[derive(Debug)]
pub enum SettingsError {
    /// The settings text is not JSON with comments; the message says where.
    Parse(String),
}

/// The models to write: with `replace`, the discovered ones alone; else the
/// merge of the settings' current entries with them.
pub enum Selection {
    Replaced(Vec<Json>),
    Merged(MergedModels),
}

/// Chooses the models to write, as `--replace` asks: regenerate every entry,
/// or keep the existing entries verbatim and append the new models.
pub fn select_models(
    replace: bool,
    settings_text: &str,
    provider: &str,
    discovered: Vec<Json>,
) -> (selection: Selection)
    ensures
        replace ==> (selection matches Selection::Replaced(models) && views(models@) == views(
            discovered@,
        )),
        !replace ==> (selection matches Selection::Merged(merged) && {
            let existing = provider_entries(settings_document(settings_text@), provider@);
            &&& views(merged.models@) == existing + new_models(existing, views(discovered@))
            &&& merged.existing_count == existing.len()
            &&& merged.discovered_count == discovered@.len()
            &&& merged.new_count == new_models(existing, views(discovered@)).len()
        }),
{
    if replace {
        Selection::Replaced(discovered)
    } else {
        let existing = existing_models(settings_text, provider);
        Selection::Merged(merge_models(existing, discovered))
    }
}

/// The settings document after a sync: the root made an object, and in it
/// `language_models.openai_compatible.<provider>` made an object, each kept
/// when it already is one, in which `api_url` and then `available_models` are
/// set, in place or at the end. Nothing else changes.
pub open spec fn settings_with_provider(
    document: Option<JsonV>,
    provider: Seq<char>,
    api_url: Seq<char>,
    models: Seq<JsonV>,
) -> JsonV {
    let root = root_as_object(document);
    let language_models = child_object(root, "language_models"@);
    let openai_compatible = child_object(language_models, "openai_compatible"@);
    let block = child_object(openai_compatible, provider);
    let written = with_member(
        with_member(block, "api_url"@, read_back(JsonV::Str(api_url))),
        "available_models"@,
        read_back(JsonV::Array(models)),
    );
    with_member(
        root,
        "language_models"@,
        with_member(
            language_models,
            "openai_compatible"@,
            with_member(openai_compatible, provider, written),
        ),
    )
}

/// After a sync the provider's block holds the URL and the model list.
pub proof fn lemma_sync_sets_provider_block(
    document: Option<JsonV>,
    provider: Seq<char>,
    api_url: Seq<char>,
    models: Seq<JsonV>,
)
    ensures
        ({
            let block = object_at(
                settings_with_provider(document, provider, api_url, models),
                seq!["language_models"@, "openai_compatible"@, provider],
            );
            &&& lookup(members_of(block), "api_url"@) == Some(read_back(JsonV::Str(api_url)))
            &&& lookup(members_of(block), "available_models"@) == Some(
                read_back(JsonV::Array(models)),
            )
        }),
{
    reveal_strlit("api_url");
    reveal_strlit("available_models");
    assert("api_url"@.len() != "available_models"@.len());
    let root = root_as_object(document);
    let lm = child_object(root, "language_models"@);
    let oc = child_object(lm, "openai_compatible"@);
    let block = child_object(oc, provider);
    let x1 = with_member(block, "api_url"@, read_back(JsonV::Str(api_url)));
    let w = with_member(x1, "available_models"@, read_back(JsonV::Array(models)));
    let b = with_member(oc, provider, w);
    let a = with_member(lm, "openai_compatible"@, b);
    lemma_paths(
        settings_with_provider(document, provider, api_url, models),
        "language_models"@,
        "openai_compatible"@,
        provider,
        w,
    );
    lemma_child_of_with_member(root, "language_models"@, a, "language_models"@);
    lemma_child_of_with_member(lm, "openai_compatible"@, b, "openai_compatible"@);
    lemma_child_of_with_member(oc, provider, w, provider);
    lemma_set_member_lookup(
        members_of(x1),
        "available_models"@,
        read_back(JsonV::Array(models)),
        "api_url"@,
    );
    lemma_set_member_lookup(members_of(block), "api_url"@, read_back(JsonV::Str(api_url)), "api_url"@);
}

/// A sync touches nothing else: every other member of the root, of
/// `language_models`, of `openai_compatible` and of the provider's block reads
/// as before (a level that was not an object reads as an empty one).
pub proof fn lemma_sync_keeps_other_members(
    document: Option<JsonV>,
    provider: Seq<char>,
    api_url: Seq<char>,
    models: Seq<JsonV>,
    key: Seq<char>,
)
    ensures
        ({
            let root = root_as_object(document);
            let lm = child_object(root, "language_models"@);
            let oc = child_object(lm, "openai_compatible"@);
            let block = child_object(oc, provider);
            let out = settings_with_provider(document, provider, api_url, models);
            let out_lm = child_object(out, "language_models"@);
            let out_oc = child_object(out_lm, "openai_compatible"@);
            let out_block = child_object(out_oc, provider);
            &&& key != "language_models"@ ==> lookup(members_of(out), key) == lookup(
                members_of(root),
                key,
            )
            &&& key != "openai_compatible"@ ==> lookup(members_of(out_lm), key) == lookup(
                members_of(lm),
                key,
            )
            &&& key != provider ==> lookup(members_of(out_oc), key) == lookup(
                members_of(oc),
                key,
            )
            &&& key != "api_url"@ && key != "available_models"@ ==> lookup(
                members_of(out_block),
                key,
            ) == lookup(members_of(block), key)
        }),
{
    let root = root_as_object(document);
    let lm = child_object(root, "language_models"@);
    let oc = child_object(lm, "openai_compatible"@);
    let block = child_object(oc, provider);
    let x1 = with_member(block, "api_url"@, read_back(JsonV::Str(api_url)));
    let w = with_member(x1, "available_models"@, read_back(JsonV::Array(models)));
    let b = with_member(oc, provider, w);
    let a = with_member(lm, "openai_compatible"@, b);
    lemma_child_of_with_member(root, "language_models"@, a, "language_models"@);
    lemma_child_of_with_member(lm, "openai_compatible"@, b, "openai_compatible"@);
    lemma_child_of_with_member(oc, provider, w, provider);
    lemma_set_member_lookup(members_of(root), "language_models"@, a, key);
    lemma_set_member_lookup(members_of(lm), "openai_compatible"@, b, key);
    lemma_set_member_lookup(members_of(oc), provider, w, key);
    lemma_set_member_lookup(members_of(x1), "available_models"@, read_back(JsonV::Array(models)), key);
    lemma_set_member_lookup(members_of(block), "api_url"@, read_back(JsonV::Str(api_url)), key);
}

/// Reading the provider's entries back from a synced document, as the tree
/// reads it, gives the written models.
pub proof fn lemma_sync_reads_back(
    document: Option<JsonV>,
    provider: Seq<char>,
    api_url: Seq<char>,
    models: Seq<JsonV>,
)
    requires
        writes_back(JsonV::Array(models)),
    ensures
        provider_entries(
            Some(settings_with_provider(document, provider, api_url, models)),
            provider,
        ) == models,
{
    let root = root_as_object(document);
    let lm = child_object(root, "language_models"@);
    let oc = child_object(lm, "openai_compatible"@);
    let block = child_object(oc, provider);
    let x1 = with_member(block, "api_url"@, read_back(JsonV::Str(api_url)));
    let w = with_member(x1, "available_models"@, read_back(JsonV::Array(models)));
    let b = with_member(oc, provider, w);
    let a = with_member(lm, "openai_compatible"@, b);
    lemma_child_of_with_member(root, "language_models"@, a, "language_models"@);
    lemma_child_of_with_member(lm, "openai_compatible"@, b, "openai_compatible"@);
    lemma_child_of_with_member(oc, provider, w, provider);
    lemma_set_member_lookup(
        members_of(x1),
        "available_models"@,
        read_back(JsonV::Array(models)),
        "available_models"@,
    );
}

/// No name on the way to the provider's `available_models` occurs twice in
/// its object: `language_models` in the root, `openai_compatible` in it, the
/// provider in that, and `available_models` in the provider's block.
pub open spec fn single_path_keys(document: Option<JsonV>, provider: Seq<char>) -> bool {
    let root = root_as_object(document);
    let lm = child_object(root, "language_models"@);
    let oc = child_object(lm, "openai_compatible"@);
    let block = child_object(oc, provider);
    &&& key_count(members_of(root), "language_models"@) <= 1
    &&& key_count(members_of(lm), "openai_compatible"@) <= 1
    &&& key_count(members_of(oc), provider) <= 1
    &&& key_count(members_of(block), "available_models"@) <= 1
}

/// Reading the provider's entries back from a synced document as
/// `serde_json` keeps it (the way `existing_models` reads) gives the written
/// models, when each of them is already as `serde_json` keeps it and no name
/// on the way occurs twice.
pub proof fn lemma_sync_reads_back_through_serde(
    document: Option<JsonV>,
    provider: Seq<char>,
    api_url: Seq<char>,
    models: Seq<JsonV>,
    number: spec_fn(Seq<char>) -> Option<Seq<char>>,
)
    requires
        writes_back(JsonV::Array(models)),
        single_path_keys(document, provider),
        forall|i: int| 0 <= i < models.len() ==> serde_reading(#[trigger] models[i], number) == models[i],
    ensures
        provider_entries(
            serde_document(Some(settings_with_provider(document, provider, api_url, models)), number),
            provider,
        ) == models,
{
    reveal_strlit("api_url");
    reveal_strlit("available_models");
    assert("api_url"@.len() != "available_models"@.len());
    let lm_key = "language_models"@;
    let oc_key = "openai_compatible"@;
    let models_key = "available_models"@;
    let m = JsonV::Array(models);
    let root = root_as_object(document);
    let lm = child_object(root, lm_key);
    let oc = child_object(lm, oc_key);
    let block = child_object(oc, provider);
    let x1 = with_member(block, "api_url"@, read_back(JsonV::Str(api_url)));
    let w = with_member(x1, models_key, m);
    let b = with_member(oc, provider, w);
    let a = with_member(lm, oc_key, b);
    let out = with_member(root, lm_key, a);
    assert(out == settings_with_provider(document, provider, api_url, models));
    lemma_set_member_lookup(members_of(root), lm_key, a, lm_key);
    lemma_set_member_count(members_of(root), lm_key, a, lm_key);
    lemma_serde_member(out, lm_key, a, number);
    lemma_set_member_lookup(members_of(lm), oc_key, b, oc_key);
    lemma_set_member_count(members_of(lm), oc_key, b, oc_key);
    lemma_serde_member(a, oc_key, b, number);
    lemma_set_member_lookup(members_of(oc), provider, w, provider);
    lemma_set_member_count(members_of(oc), provider, w, provider);
    lemma_serde_member(b, provider, w, number);
    lemma_set_member_count(members_of(block), "api_url"@, read_back(JsonV::Str(api_url)), models_key);
    lemma_set_member_lookup(members_of(x1), models_key, m, models_key);
    lemma_set_member_count(members_of(x1), models_key, m, models_key);
    lemma_serde_member(w, models_key, m, number);
    let read = match serde_reading(m, number) {
        JsonV::Array(items) => items,
        _ => Seq::empty(),
    };
    assert(read =~= models);
}

/// The entries generated for Zed models, once synced, read back through
/// `serde_json` as themselves, when no name on the way occurs twice and the
/// list writes back as itself.
pub proof fn lemma_generated_models_read_back(
    document: Option<JsonV>,
    provider: Seq<char>,
    api_url: Seq<char>,
    zed_models: Seq<ZedModel>,
    number: spec_fn(Seq<char>) -> Option<Seq<char>>,
)
    requires
        writes_back(JsonV::Array(zed_models.map_values(|m: ZedModel| model_json(m)))),
        single_path_keys(document, provider),
    ensures
        ({
            let models = zed_models.map_values(|m: ZedModel| model_json(m));
            provider_entries(
                serde_document(
                    Some(settings_with_provider(document, provider, api_url, models)),
                    number,
                ),
                provider,
            ) == models
        }),
{
    let models = zed_models.map_values(|m: ZedModel| model_json(m));
    assert forall|i: int| 0 <= i < models.len() implies serde_reading(#[trigger] models[i], number)
        == models[i] by {
        lemma_model_json_read_back(zed_models[i], number);
    }
    lemma_sync_reads_back_through_serde(document, provider, api_url, models, number);
}

/// Syncing the synced document again with the same data changes nothing.
pub proof fn lemma_sync_twice(
    document: Option<JsonV>,
    provider: Seq<char>,
    api_url: Seq<char>,
    models: Seq<JsonV>,
)
    ensures
        settings_with_provider(
            Some(settings_with_provider(document, provider, api_url, models)),
            provider,
            api_url,
            models,
        ) == settings_with_provider(document, provider, api_url, models),
{
    reveal_strlit("api_url");
    reveal_strlit("available_models");
    assert("api_url"@.len() != "available_models"@.len());
    let u = read_back(JsonV::Str(api_url));
    let m = read_back(JsonV::Array(models));
    let root = root_as_object(document);
    let lm = child_object(root, "language_models"@);
    let oc = child_object(lm, "openai_compatible"@);
    let block = child_object(oc, provider);
    let x1 = with_member(block, "api_url"@, u);
    let w = with_member(x1, "available_models"@, m);
    let b = with_member(oc, provider, w);
    let a = with_member(lm, "openai_compatible"@, b);
    let out = with_member(root, "language_models"@, a);
    assert(root_as_object(Some(out)) == out);
    lemma_child_of_with_member(root, "language_models"@, a, "language_models"@);
    lemma_child_of_with_member(lm, "openai_compatible"@, b, "openai_compatible"@);
    lemma_child_of_with_member(oc, provider, w, provider);
    lemma_set_member_lookup(members_of(x1), "available_models"@, m, "api_url"@);
    lemma_set_member_lookup(members_of(block), "api_url"@, u, "api_url"@);
    lemma_set_member_lookup(members_of(x1), "available_models"@, m, "available_models"@);
    lemma_set_member_same(members_of(w), "api_url"@, u);
    assert(with_member(w, "api_url"@, u) == w);
    lemma_set_member_same(members_of(w), "available_models"@, m);
    assert(with_member(w, "available_models"@, m) == w);
    lemma_set_member_same(members_of(b), provider, w);
    assert(with_member(b, provider, w) == b);
    lemma_set_member_same(members_of(a), "openai_compatible"@, b);
    assert(with_member(a, "openai_compatible"@, b) == a);
    lemma_set_member_same(members_of(out), "language_models"@, a);
    assert(with_member(out, "language_models"@, a) == out);
}

/// An array of JSON documents has the values of its items.
proof fn lemma_array_view(items: Vec<Json>)
    ensures
        Json::Array(items)@ == JsonV::Array(views(items@)),
{
    let ws = match Json::Array(items)@ {
        JsonV::Array(ws) => ws,
        _ => Seq::empty(),
    };
    assert(ws =~= views(items@));
}

/// `[place]` when `replaced`, else nothing.
pub open spec fn replaced_if(replaced: bool, place: Seq<int>) -> Seq<Seq<int>> {
    if replaced {
        seq![place]
    } else {
        Seq::empty()
    }
}

/// The comments that lie within none of the places, in order.
pub open spec fn comments_outside_all(
    comments: Seq<(Seq<int>, Seq<char>)>,
    places: Seq<Seq<int>>,
) -> Seq<(Seq<int>, Seq<char>)>
    decreases places.len(),
{
    if places.len() == 0 {
        comments
    } else {
        comments_outside(comments_outside_all(comments, places.drop_last()), places.last())
    }
}

/// Dropping the comments within one more place, if any.
proof fn lemma_outside_step(
    comments: Seq<(Seq<int>, Seq<char>)>,
    places: Seq<Seq<int>>,
    replaced: bool,
    place: Seq<int>,
)
    ensures
        comments_outside_all(comments, places + replaced_if(replaced, place)) == if replaced {
            comments_outside(comments_outside_all(comments, places), place)
        } else {
            comments_outside_all(comments, places)
        },
{
    let all = places + replaced_if(replaced, place);
    if replaced {
        assert(all.drop_last() =~= places);
        assert(all.last() == place);
    } else {
        assert(all =~= places);
    }
}

/// The places of the values that a sync replaces, in the order it replaces
/// them: the root when it is there and is not an object; `language_models`,
/// `openai_compatible` and the provider's block when each is there and is not
/// an object; the old `api_url` and `available_models` when they are there.
pub open spec fn sync_places(document: Option<JsonV>, provider: Seq<char>, api_url: Seq<char>) -> Seq<
    Seq<int>,
> {
    let root = root_as_object(document);
    let lm = child_object(root, "language_models"@);
    let oc = child_object(lm, "openai_compatible"@);
    let block = child_object(oc, provider);
    let x1 = with_member(block, "api_url"@, read_back(JsonV::Str(api_url)));
    let p_root = seq![0int];
    let p_lm = p_root.push(member_index(members_of(root), "language_models"@));
    let p_oc = p_lm.push(member_index(members_of(lm), "openai_compatible"@));
    let p_block = p_oc.push(member_index(members_of(oc), provider));
    Seq::<Seq<int>>::empty() + replaced_if(non_object(document), p_root) + replaced_if(
        non_object(lookup(members_of(root), "language_models"@)),
        p_lm,
    ) + replaced_if(non_object(lookup(members_of(lm), "openai_compatible"@)), p_oc) + replaced_if(
        non_object(lookup(members_of(oc), provider)),
        p_block,
    ) + replaced_if(
        lookup(members_of(block), "api_url"@) is Some,
        p_block.push(member_index(members_of(block), "api_url"@)),
    ) + replaced_if(
        lookup(members_of(x1), "available_models"@) is Some,
        p_block.push(member_index(members_of(x1), "available_models"@)),
    )
}

/// The provider is a member of `language_models.openai_compatible` in the
/// document, so a sync finds it rather than adding it.
pub open spec fn provider_present(document: Option<JsonV>, provider: Seq<char>) -> bool {
    let root = root_as_object(document);
    let oc = child_object(child_object(root, "language_models"@), "openai_compatible"@);
    lookup(members_of(oc), provider) is Some
}

/// A sync of this text can write the provider: the text does not parse, or
/// the name has no backslash, or the settings already hold the provider.
pub open spec fn provider_writable(settings_text: Seq<char>, provider: Seq<char>) -> bool {
    !jsonc_cst_accepts(settings_text) || plain_name(provider) || provider_present(
        jsonc_tree_document(settings_text),
        provider,
    )
}

/// What a sync of `settings_text` returns: `Ok` exactly when the text parses;
/// an error message that starts with `parsing settings file: `; and, when the
/// URL and the models write back as themselves, a text that parses again, reads
/// as `settings_with_provider` of the old document, and keeps every comment
/// that does not lie within a replaced value.
pub open spec fn sync_result(
    settings_text: Seq<char>,
    provider: Seq<char>,
    api_url: Seq<char>,
    models: Seq<JsonV>,
    r: Result<String, SettingsError>,
) -> bool {
    &&& r is Ok == jsonc_cst_accepts(settings_text)
    &&& r matches Err(SettingsError::Parse(message)) ==> message@.len() >= 23
        && message@.subrange(0, 23) == "parsing settings file: "@
    &&& r matches Ok(out) ==> (writes_back(JsonV::Str(api_url)) && writes_back(
        JsonV::Array(models),
    )) ==> {
        &&& jsonc_cst_accepts(out@)
        &&& jsonc_tree_document(out@) == Some(
            settings_with_provider(jsonc_tree_document(settings_text), provider, api_url, models),
        )
        &&& jsonc_comments(out@) == comments_outside_all(
            jsonc_comments(settings_text),
            sync_places(jsonc_tree_document(settings_text), provider, api_url),
        )
    }
}

/// Updates `language_models.openai_compatible.<provider>` in the settings
/// text, creating intermediate objects as needed. Only `api_url` and
/// `available_models` are touched; any other provider keys (e.g.
/// `custom_headers`) and all comments/formatting elsewhere are preserved.
/// A provider name with a backslash that the settings do not hold yet is
/// left out: the tree writes names unescaped, cannot find such a name again,
/// and panics.
pub fn merge_into_settings(
    settings_text: &str,
    provider: &str,
    api_url: &str,
    models: Vec<Json>,
) -> (r: Result<String, SettingsError>)
    requires
        provider_writable(settings_text@, provider@),
    ensures
        sync_result(settings_text@, provider@, api_url@, views(models@), r),
{
    let mut tree = match SettingsTree::parse(settings_text) {
        Ok(tree) => tree,
        Err(error) => {
            let prefix = String::from_str("parsing settings file: ");
            proof {
                reveal_strlit("parsing settings file: ");
            }
            let message = prefix.concat(parse_error_text(&error).as_str());
            assert(message@.subrange(0, 23) =~= "parsing settings file: "@);
            return Err(SettingsError::Parse(message));
        },
    };
    let ghost lm_key = "language_models"@;
    let ghost oc_key = "openai_compatible"@;
    let ghost api_key = "api_url"@;
    let ghost models_key = "available_models"@;
    proof {
        reveal_strlit("language_models");
        reveal_strlit("openai_compatible");
        reveal_strlit("api_url");
        reveal_strlit("available_models");
        assert(!lm_key.contains('\\'));
        assert(!oc_key.contains('\\'));
        assert(!api_key.contains('\\'));
        assert(!models_key.contains('\\'));
    }
    let ghost d0 = tree_state(tree).document;
    let ghost c0 = tree_state(tree).comments;
    let ghost root = root_as_object(d0);
    let ghost e = Seq::<Seq<char>>::empty();
    tree.open_root();
    let ghost p_root = seq![0int];
    let ghost ps0 = Seq::<Seq<int>>::empty() + replaced_if(non_object(d0), p_root);
    proof {
        lemma_paths(root, lm_key, oc_key, provider@, root);
        lemma_outside_step(c0, Seq::empty(), non_object(d0), p_root);
        assert(tree_state(tree).comments == comments_outside_all(c0, ps0));
    }
    let ghost s1 = tree_state(tree);
    tree.open_child("language_models");
    let ghost p_lm = p_root.push(member_index(members_of(root), lm_key));
    let ghost ps1 = ps0 + replaced_if(non_object(lookup(members_of(root), lm_key)), p_lm);
    proof {
        lemma_outside_step(c0, ps0, non_object(lookup(members_of(root), lm_key)), p_lm);
    }
    let ghost lm = child_object(root, lm_key);
    let ghost d1 = with_child_object(root, lm_key);
    proof {
        lemma_open_child(root, e, lm_key);
        lemma_paths(root, lm_key, oc_key, provider@, with_child_object(root, lm_key));
        assert(e.push(lm_key) =~= seq![lm_key]);
        lemma_with_child_object(root, lm_key, root);
        assert(tree_state(tree).document == Some(d1));
        assert(current_object(tree_state(tree)) == lm);
    }
    tree.open_child("openai_compatible");
    let ghost p_oc = p_lm.push(member_index(members_of(lm), oc_key));
    let ghost ps2 = ps1 + replaced_if(non_object(lookup(members_of(lm), oc_key)), p_oc);
    proof {
        lemma_outside_step(c0, ps1, non_object(lookup(members_of(lm), oc_key)), p_oc);
    }
    let ghost oc = child_object(lm, oc_key);
    let ghost w1 = with_child_object(lm, oc_key);
    let ghost d2 = with_member(root, lm_key, w1);
    proof {
        lemma_open_child(d1, seq![lm_key], oc_key);
        lemma_paths(d1, lm_key, oc_key, provider@, w1);
        lemma_with_child_object(root, lm_key, w1);
        assert(seq![lm_key].push(oc_key) =~= seq![lm_key, oc_key]);
        assert(tree_state(tree).document == Some(d2));
        assert(current_object(tree_state(tree)) == oc);
    }
    tree.open_child(provider);
    let ghost block = child_object(oc, provider@);
    let ghost p_block = p_oc.push(member_index(members_of(oc), provider@));
    let ghost ps3 = ps2 + replaced_if(non_object(lookup(members_of(oc), provider@)), p_block);
    proof {
        lemma_outside_step(c0, ps2, non_object(lookup(members_of(oc), provider@)), p_block);
    }
    let ghost w2 = with_child_object(oc, provider@);
    let ghost d3 = with_member(root, lm_key, with_member(lm, oc_key, w2));
    proof {
        lemma_open_child(d2, seq![lm_key, oc_key], provider@);
        lemma_paths(d2, lm_key, oc_key, provider@, w2);
        lemma_with_child_object(lm, oc_key, w2);
        lemma_with_child_object(oc, provider@, w2);
        lemma_child_of_with_member(root, lm_key, w1, lm_key);
        lemma_child_of_with_member(root, lm_key, with_member(lm, oc_key, w2), lm_key);
        lemma_with_member_twice(root, lm_key, w1, with_member(w1, oc_key, w2));
        assert(seq![lm_key, oc_key].push(provider@) =~= seq![lm_key, oc_key, provider@]);
        assert(tree_state(tree).document == Some(d3));
        assert(current_object(tree_state(tree)) == block);
    }
    let url = Json::Str(String::from_str(api_url));
    assert(url@ == JsonV::Str(api_url@));
    set_prop(&mut tree, "api_url", url);
    let ghost ps4 = ps3 + replaced_if(
        lookup(members_of(block), api_key) is Some,
        p_block.push(member_index(members_of(block), api_key)),
    );
    proof {
        lemma_outside_step(
            c0,
            ps3,
            lookup(members_of(block), api_key) is Some,
            p_block.push(member_index(members_of(block), api_key)),
        );
        assert(tree_state(tree).comments == comments_outside_all(c0, ps4));
    }
    let ghost x1 = with_member(block, api_key, read_back(JsonV::Str(api_url@)));
    let ghost d4 = with_member(root, lm_key, with_member(lm, oc_key, with_member(oc, provider@, x1)));
    proof {
        let p3 = seq![lm_key, oc_key, provider@];
        lemma_paths(d3, lm_key, oc_key, provider@, x1);
        lemma_child_of_with_member(root, lm_key, with_member(lm, oc_key, w2), lm_key);
        lemma_child_of_with_member(lm, oc_key, w2, oc_key);
        lemma_with_child_object(oc, provider@, x1);
        lemma_with_member_twice(lm, oc_key, w2, with_member(oc, provider@, x1));
        lemma_with_member_twice(
            root,
            lm_key,
            with_member(lm, oc_key, w2),
            with_member(lm, oc_key, with_member(oc, provider@, x1)),
        );
        assert(tree_state(tree).document == Some(d4));
    }
    proof {
        lemma_array_view(models);
    }
    let list = Json::Array(models);
    set_prop(&mut tree, "available_models", list);
    let ghost x1v = with_member(block, api_key, read_back(JsonV::Str(api_url@)));
    let ghost ps5 = ps4 + replaced_if(
        lookup(members_of(x1v), models_key) is Some,
        p_block.push(member_index(members_of(x1v), models_key)),
    );
    proof {
        lemma_outside_step(
            c0,
            ps4,
            lookup(members_of(x1v), models_key) is Some,
            p_block.push(member_index(members_of(x1v), models_key)),
        );
        assert(tree_state(tree).comments == comments_outside_all(c0, ps5));
        assert(ps5 == sync_places(d0, provider@, api_url@));
    }
    proof {
        let x2 = with_member(x1, models_key, read_back(JsonV::Array(views(models@))));
        let y1 = with_member(oc, provider@, x1);
        let z1 = with_member(lm, oc_key, y1);
        lemma_paths(d4, lm_key, oc_key, provider@, x2);
        lemma_child_of_with_member(root, lm_key, z1, lm_key);
        lemma_child_of_with_member(lm, oc_key, y1, oc_key);
        lemma_child_of_with_member(oc, provider@, x1, provider@);
        lemma_with_member_twice(oc, provider@, x1, x2);
        lemma_with_member_twice(lm, oc_key, y1, with_member(oc, provider@, x2));
        lemma_with_member_twice(root, lm_key, z1, with_member(lm, oc_key, with_member(oc, provider@, x2)));
        assert(tree_state(tree).document == Some(
            settings_with_provider(d0, provider@, api_url@, views(models@)),
        ));
    }
    Ok(tree.text())
}

/// Whether a name has no backslash.
fn is_plain_name(name: &str) -> (b: bool)
    ensures
        b == plain_name(name@),
{
    let n = name.unicode_len();
    let mut i: usize = 0;
    while i < n
        invariant
            n == name@.len(),
            i <= n,
            forall|j: int| 0 <= j < i ==> name@[j] != '\\',
        decreases n - i,
    {
        if name.get_char(i) == '\\' {
            return false;
        }
        i = i + 1;
    }
    true
}

/// Whether a sync of the text can write the provider (see
/// `provider_writable`).
fn can_write_provider(settings_text: &str, provider: &str) -> (b: bool)
    ensures
        b == provider_writable(settings_text@, provider@),
{
    if is_plain_name(provider) {
        return true;
    }
    let mut tree = match SettingsTree::parse(settings_text) {
        Ok(tree) => tree,
        Err(_) => return true,
    };
    let ghost lm_key = "language_models"@;
    let ghost oc_key = "openai_compatible"@;
    proof {
        reveal_strlit("language_models");
        reveal_strlit("openai_compatible");
        assert(!lm_key.contains('\\'));
        assert(!oc_key.contains('\\'));
    }
    let ghost d0 = tree_state(tree).document;
    let ghost root = root_as_object(d0);
    let ghost e = Seq::<Seq<char>>::empty();
    tree.open_root();
    proof {
        lemma_paths(root, lm_key, oc_key, provider@, root);
    }
    tree.open_child("language_models");
    let ghost lm = child_object(root, lm_key);
    let ghost d1 = with_child_object(root, lm_key);
    proof {
        lemma_open_child(root, e, lm_key);
        lemma_paths(root, lm_key, oc_key, provider@, with_child_object(root, lm_key));
        assert(e.push(lm_key) =~= seq![lm_key]);
        lemma_with_child_object(root, lm_key, root);
        assert(tree_state(tree).document == Some(d1));
        assert(current_object(tree_state(tree)) == lm);
    }
    tree.open_child("openai_compatible");
    proof {
        let w1 = with_child_object(lm, oc_key);
        lemma_open_child(d1, seq![lm_key], oc_key);
        lemma_paths(d1, lm_key, oc_key, provider@, w1);
        lemma_with_child_object(root, lm_key, w1);
        assert(seq![lm_key].push(oc_key) =~= seq![lm_key, oc_key]);
        assert(current_object(tree_state(tree)) == child_object(lm, oc_key));
    }
    tree.find_property(provider)
}

/// Syncs the settings as `merge_into_settings` does when the tree can write
/// the provider; `None` for a provider whose name has a backslash and that the
/// settings do not hold yet, which the tree cannot add.
pub fn sync_settings(
    settings_text: &str,
    provider: &str,
    api_url: &str,
    models: Vec<Json>,
) -> (r: Option<Result<String, SettingsError>>)
    ensures
        r is None == !provider_writable(settings_text@, provider@),
        r matches Some(x) ==> sync_result(settings_text@, provider@, api_url@, views(models@), x),
{
    if can_write_provider(settings_text, provider) {
        Some(merge_into_settings(settings_text, provider, api_url, models))
    } else {
        None
    }
}

} // verus!
