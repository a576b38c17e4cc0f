//! LiteLLM's `/model/info` entries and the Zed `available_models` entries made
//! from them.

use vstd::prelude::*;

use crate::json::{
    decimal, decimal_text, lemma_lookup_index, lemma_object_view, lookup, member, name_of, views, Json,
    JsonMember, JsonV,
};
use crate::order::{
    chars_before, chars_equal, chars_of, lemma_name_before_irreflexive, lemma_name_before_is_str_order,
    str_less,
    lemma_name_before_total, lemma_name_before_transitive, name_before,
};

verus! {

/// Context window given to models for which LiteLLM reports neither
/// `max_input_tokens` nor `max_tokens`.
pub const DEFAULT_MAX_TOKENS: u64 = 128_000;

/// What `/model/info` reports of one deployment. Token counts arrive as JSON
/// numbers and are held here as whole token counts.
#[derive(Clone, Debug)]
pub struct ModelInfo {
    pub mode: Option<String>,
    pub max_input_tokens: Option<u64>,
    pub max_tokens: Option<u64>,
    pub max_output_tokens: Option<u64>,
    pub supports_function_calling: Option<bool>,
    pub supports_parallel_function_calling: Option<bool>,
    pub supports_vision: Option<bool>,
    pub supports_prompt_caching: Option<bool>,
    pub supports_reasoning: Option<bool>,
}

/// A `ModelInfo` that reports nothing.
pub open spec fn empty_info() -> ModelInfo {
    ModelInfo {
        mode: None,
        max_input_tokens: None,
        max_tokens: None,
        max_output_tokens: None,
        supports_function_calling: None,
        supports_parallel_function_calling: None,
        supports_vision: None,
        supports_prompt_caching: None,
        supports_reasoning: None,
    }
}

impl Default for ModelInfo {
    fn default() -> (r: ModelInfo)
        ensures
            r == empty_info(),
    {
        ModelInfo {
            mode: None,
            max_input_tokens: None,
            max_tokens: None,
            max_output_tokens: None,
            supports_function_calling: None,
            supports_parallel_function_calling: None,
            supports_vision: None,
            supports_prompt_caching: None,
            supports_reasoning: None,
        }
    }
}

/// One entry of the `data` list of `/model/info`.
#[derive(Clone, Debug)]
pub struct ModelEntry {
    pub model_name: Option<String>,
    pub model_info: Option<ModelInfo>,
}

/// The `capabilities` block of a Zed model entry.
#[derive(Clone, Copy, Debug, PartialEq, Eq)]
pub struct Capabilities {
    pub tools: bool,
    pub images: bool,
    pub parallel_tool_calls: bool,
    pub prompt_cache_key: bool,
    pub interleaved_reasoning: bool,
}

/// One entry of Zed's `available_models` list.
#[derive(Clone, Debug)]
pub struct ZedModel {
    pub name: String,
    pub max_tokens: u64,
    pub max_output_tokens: Option<u64>,
    pub reasoning_effort: Option<String>,
    pub capabilities: Capabilities,
}

/// What an entry reports, with an absent `model_info` read as reporting nothing.
pub open spec fn info_of(entry: ModelEntry) -> ModelInfo {
    match entry.model_info {
        Some(info) => info,
        None => empty_info(),
    }
}

/// Whether the model serves chat: its mode is `chat` or `responses`, or not
/// reported at all.
pub open spec fn is_chat_mode(info: ModelInfo) -> bool {
    match info.mode {
        Some(mode) => mode@ == "chat"@ || mode@ == "responses"@,
        None => true,
    }
}

/// Whether an entry becomes a Zed model: it has a name and serves chat.
pub open spec fn is_listed(entry: ModelEntry) -> bool {
    entry.model_name is Some && is_chat_mode(info_of(entry))
}

/// The name of an entry, as text.
pub open spec fn entry_name(entry: ModelEntry) -> Seq<char> {
    entry.model_name->0@
}

/// The context window: `max_input_tokens`, else `max_tokens`, else the default.
pub open spec fn context_window(info: ModelInfo) -> u64 {
    match info.max_input_tokens {
        Some(tokens) => tokens,
        None => match info.max_tokens {
            Some(tokens) => tokens,
            None => DEFAULT_MAX_TOKENS,
        },
    }
}

/// The per-response cap, kept only when it is below the context window:
/// LiteLLM often reports the context window there, and Zed would then ask for
/// more completion tokens than can ever fit.
pub open spec fn output_cap(info: ModelInfo) -> Option<u64> {
    match info.max_output_tokens {
        Some(cap) => if cap < context_window(info) {
            Some(cap)
        } else {
            None
        },
        None => None,
    }
}

/// An optional flag, with the value to use when it is not reported.
pub open spec fn flag_or(flag: Option<bool>, default: bool) -> bool {
    match flag {
        Some(b) => b,
        None => default,
    }
}

/// Whether `name` is one of `names`.
pub open spec fn names_contain(names: Seq<String>, name: Seq<char>) -> bool {
    exists|j: int| 0 <= j < names.len() && #[trigger] names[j]@ == name
}

/// The capabilities of the Zed model made from `info`.
pub open spec fn capabilities_of(info: ModelInfo, interleaved: bool) -> Capabilities {
    Capabilities {
        tools: flag_or(info.supports_function_calling, true),
        images: flag_or(info.supports_vision, false),
        parallel_tool_calls: flag_or(info.supports_parallel_function_calling, false),
        prompt_cache_key: flag_or(info.supports_prompt_caching, false),
        interleaved_reasoning: interleaved,
    }
}

/// `model` is the Zed model that the listed entry `entry` becomes, given the
/// names that the probe confirmed and the reasoning effort to assign.
pub open spec fn describes(
    model: ZedModel,
    entry: ModelEntry,
    interleaved: Seq<String>,
    effort: Seq<char>,
) -> bool {
    let info = info_of(entry);
    &&& model.name@ == entry_name(entry)
    &&& model.max_tokens == context_window(info)
    &&& model.max_output_tokens == output_cap(info)
    &&& if info.supports_reasoning == Some(true) {
        model.reasoning_effort matches Some(r) && r@ == effort
    } else {
        model.reasoning_effort is None
    }
    &&& model.capabilities == capabilities_of(
        info,
        names_contain(interleaved, entry_name(entry)),
    )
}

/// Entry `k` is listed and no listed entry before it has the same name.
#[verifier::opaque]
pub open spec fn is_first_listing(entries: Seq<ModelEntry>, k: int) -> bool {
    &&& 0 <= k < entries.len()
    &&& is_listed(entries[k])
    &&& forall|j: int|
        0 <= j < k && is_listed(#[trigger] entries[j]) ==> entry_name(entries[j]) != entry_name(
            entries[k],
        )
}

/// The names of `models` come in strictly increasing order.
pub open spec fn sorted_by_name(models: Seq<ZedModel>) -> bool {
    forall|i: int, j: int|
        0 <= i < j < models.len() ==> name_before(#[trigger] models[i].name@, #[trigger] models[j].name@)
}

/// `model` is the model of the first listed entry, among the first `n`, that
/// has its name.
pub open spec fn has_source(
    model: ZedModel,
    entries: Seq<ModelEntry>,
    n: int,
    interleaved: Seq<String>,
    effort: Seq<char>,
) -> bool {
    exists|k: int|
        0 <= k < n && is_first_listing(entries, k) && describes(
            model,
            #[trigger] entries[k],
            interleaved,
            effort,
        )
}

/// Some model in `models` has the name `name`.
pub open spec fn has_model_named(models: Seq<ZedModel>, name: Seq<char>) -> bool {
    exists|i: int| 0 <= i < models.len() && #[trigger] models[i].name@ == name
}

/// `models` holds, for each name among the first `n` entries, the model of
/// the first listed entry with that name, and nothing else.
pub open spec fn models_of_prefix(
    models: Seq<ZedModel>,
    entries: Seq<ModelEntry>,
    n: int,
    interleaved: Seq<String>,
    effort: Seq<char>,
) -> bool {
    &&& forall|i: int|
        0 <= i < models.len() ==> #[trigger] has_source(models[i], entries, n, interleaved, effort)
    &&& forall|k: int|
        0 <= k < n && is_listed(entries[k]) ==> #[trigger] has_model_named(
            models,
            entry_name(entries[k]),
        )
}

/// The `capabilities` object of a Zed model entry, its keys in order.
pub open spec fn capabilities_json(c: Capabilities) -> JsonV {
    JsonV::Object(
        seq![
            ("images"@, JsonV::Bool(c.images)),
            ("interleaved_reasoning"@, JsonV::Bool(c.interleaved_reasoning)),
            ("parallel_tool_calls"@, JsonV::Bool(c.parallel_tool_calls)),
            ("prompt_cache_key"@, JsonV::Bool(c.prompt_cache_key)),
            ("tools"@, JsonV::Bool(c.tools)),
        ],
    )
}

/// The JSON object of a Zed model entry, its keys in order; the optional
/// `max_output_tokens` and `reasoning_effort` appear only when present.
pub open spec fn model_json(m: ZedModel) -> JsonV {
    JsonV::Object(
        seq![("capabilities"@, capabilities_json(m.capabilities))] + match m.max_output_tokens {
            Some(cap) => seq![("max_output_tokens"@, JsonV::Number(decimal(cap as nat)))],
            None => Seq::empty(),
        } + seq![
            ("max_tokens"@, JsonV::Number(decimal(m.max_tokens as nat))),
            ("name"@, JsonV::Str(m.name@)),
        ] + match m.reasoning_effort {
            Some(effort) => seq![("reasoning_effort"@, JsonV::Str(effort@))],
            None => Seq::empty(),
        },
    )
}

/// A `"key": value` member.
fn json_member(key: &str, value: Json) -> (m: JsonMember)
    ensures
        m.key@ == key@,
        m.value == value,
{
    JsonMember { key: String::from_str(key), value }
}

impl Capabilities {
    /// The `capabilities` object, keys in alphabetical order.
    pub fn to_json(&self) -> (j: Json)
        ensures
            j@ == capabilities_json(*self),
    {
        let mut members: Vec<JsonMember> = Vec::new();
        members.push(json_member("images", Json::Bool(self.images)));
        members.push(json_member("interleaved_reasoning", Json::Bool(self.interleaved_reasoning)));
        members.push(json_member("parallel_tool_calls", Json::Bool(self.parallel_tool_calls)));
        members.push(json_member("prompt_cache_key", Json::Bool(self.prompt_cache_key)));
        members.push(json_member("tools", Json::Bool(self.tools)));
        proof {
            let s = seq![
                ("images"@, JsonV::Bool(self.images)),
                ("interleaved_reasoning"@, JsonV::Bool(self.interleaved_reasoning)),
                ("parallel_tool_calls"@, JsonV::Bool(self.parallel_tool_calls)),
                ("prompt_cache_key"@, JsonV::Bool(self.prompt_cache_key)),
                ("tools"@, JsonV::Bool(self.tools)),
            ];
            lemma_object_view(members, s);
        }
        Json::Object(members)
    }
}

impl ZedModel {
    /// The entry as it is written into Zed's settings, keys in alphabetical
    /// order.
    pub fn to_json(&self) -> (j: Json)
        ensures
            j@ == model_json(*self),
    {
        let mut members: Vec<JsonMember> = Vec::new();
        let ghost mut s: Seq<(Seq<char>, JsonV)> = seq![];
        members.push(json_member("capabilities", self.capabilities.to_json()));
        proof {
            s = s.push(("capabilities"@, capabilities_json(self.capabilities)));
        }
        match self.max_output_tokens {
            Some(cap) => {
                members.push(json_member("max_output_tokens", Json::Number(decimal_text(cap))));
                proof {
                    s = s.push(("max_output_tokens"@, JsonV::Number(decimal(cap as nat))));
                }
            },
            None => {},
        }
        members.push(json_member("max_tokens", Json::Number(decimal_text(self.max_tokens))));
        members.push(json_member("name", Json::Str(self.name.clone())));
        proof {
            s = s.push(("max_tokens"@, JsonV::Number(decimal(self.max_tokens as nat))));
            s = s.push(("name"@, JsonV::Str(self.name@)));
        }
        match &self.reasoning_effort {
            Some(effort) => {
                members.push(json_member("reasoning_effort", Json::Str(effort.clone())));
                proof {
                    s = s.push(("reasoning_effort"@, JsonV::Str(effort@)));
                }
            },
            None => {},
        }
        proof {
            assert forall|i: int| 0 <= i < s.len() implies (#[trigger] members@[i]).key@ == s[i].0
                && members@[i].value@ == s[i].1 by {}
            lemma_object_view(members, s);
            let want = match model_json(*self) {
                JsonV::Object(want) => want,
                _ => Seq::empty(),
            };
            assert(s =~= want);
        }
        Json::Object(members)
    }
}

/// The JSON objects of a list of Zed models, in order.
pub fn models_to_json(models: &Vec<ZedModel>) -> (out: Vec<Json>)
    ensures
        views(out@) == models@.map_values(|m: ZedModel| model_json(m)),
{
    let mut out: Vec<Json> = Vec::new();
    let mut i: usize = 0;
    while i < models.len()
        invariant
            i <= models.len(),
            views(out@) == models@.take(i as int).map_values(|m: ZedModel| model_json(m)),
        decreases models.len() - i,
    {
        let ghost before = out@;
        out.push(models[i].to_json());
        assert(views(out@) =~= models@.take(i + 1).map_values(|m: ZedModel| model_json(m))) by {
            assert(views(out@) =~= views(before).push(model_json(models@[i as int])));
        }
        i = i + 1;
    }
    assert(models@.take(i as int) =~= models@);
    out
}

/// The name that the merge reads from a model's JSON object is the model's
/// name.
pub proof fn lemma_model_json_name(m: ZedModel)
    ensures
        name_of(model_json(m)) == Some(m.name@),
{
    reveal_strlit("capabilities");
    reveal_strlit("max_output_tokens");
    reveal_strlit("max_tokens");
    reveal_strlit("name");
    let members = match model_json(m) {
        JsonV::Object(ms) => ms,
        _ => Seq::empty(),
    };
    let at = if m.max_output_tokens is Some { 3int } else { 2int };
    assert(members[at] == ("name"@, JsonV::Str(m.name@)));
    assert("capabilities"@ != "name"@) by {
        assert("capabilities"@.len() != "name"@.len());
    }
    assert("max_output_tokens"@ != "name"@) by {
        assert("max_output_tokens"@.len() != "name"@.len());
    }
    assert("max_tokens"@ != "name"@) by {
        assert("max_tokens"@.len() != "name"@.len());
    }
    assert forall|j: int| 0 <= j < at implies (#[trigger] members[j]).0 != "name"@ by {
        if m.max_output_tokens is Some && j == 1 {
            assert(members[j].0 == "max_output_tokens"@);
        }
    }
    lemma_lookup_index(members, "name"@, at);
}

/// No two models in a sorted list share a name.
pub proof fn lemma_sorted_names_distinct(models: Seq<ZedModel>)
    requires
        sorted_by_name(models),
    ensures
        forall|i: int, j: int|
            0 <= i < models.len() && 0 <= j < models.len() && i != j ==> #[trigger] models[i].name@
                != #[trigger] models[j].name@,
{
    assert forall|i: int, j: int|
        0 <= i < models.len() && 0 <= j < models.len() && i != j implies #[trigger] models[i].name@
            != #[trigger] models[j].name@ by {
        if i < j {
            lemma_name_before_irreflexive(models[i].name@);
            assert(name_before(models[i].name@, models[j].name@));
        } else {
            lemma_name_before_irreflexive(models[j].name@);
            assert(name_before(models[j].name@, models[i].name@));
        }
    }
}

/// Every generated model keeps the promises of the field mapping: a
/// `max_output_tokens` only below `max_tokens`, `interleaved_reasoning` only
/// for a probed model, and a `reasoning_effort` only with the requested value.
pub proof fn lemma_generated_model_fields(
    models: Seq<ZedModel>,
    entries: Seq<ModelEntry>,
    interleaved: Seq<String>,
    effort: Seq<char>,
)
    requires
        models_of_prefix(models, entries, entries.len() as int, interleaved, effort),
    ensures
        forall|i: int|
            0 <= i < models.len() ==> {
                &&& (#[trigger] models[i]).max_output_tokens matches Some(cap) ==> cap
                    < models[i].max_tokens
                &&& models[i].capabilities.interleaved_reasoning ==> names_contain(
                    interleaved,
                    models[i].name@,
                )
                &&& models[i].reasoning_effort matches Some(r) ==> r@ == effort
            },
{
    assert forall|i: int| 0 <= i < models.len() implies {
        &&& (#[trigger] models[i]).max_output_tokens matches Some(cap) ==> cap < models[i].max_tokens
        &&& models[i].capabilities.interleaved_reasoning ==> names_contain(
            interleaved,
            models[i].name@,
        )
        &&& models[i].reasoning_effort matches Some(r) ==> r@ == effort
    } by {
        assert(has_source(models[i], entries, entries.len() as int, interleaved, effort));
    }
}

/// Whether two texts are equal.
fn text_is(s: &String, lit: &str) -> (r: bool)
    ensures
        r == (s@ == lit@),
{
    *s == String::from_str(lit)
}

/// Whether `name` is one of `names`.
pub(crate) fn contains_name(names: &Vec<String>, name: &String) -> (r: bool)
    ensures
        r == names_contain(names@, name@),
{
    let mut j: usize = 0;
    while j < names.len()
        invariant
            j <= names.len(),
            forall|i: int| 0 <= i < j ==> names@[i]@ != name@,
        decreases names.len() - j,
    {
        if names[j] == *name {
            assert(names@[j as int]@ == name@);
            return true;
        }
        j = j + 1;
    }
    false
}

/// The optional flag, with `default` when it is not reported.
fn flag_value(flag: Option<bool>, default: bool) -> (r: bool)
    ensures
        r == flag_or(flag, default),
{
    match flag {
        Some(b) => b,
        None => default,
    }
}

/// The Zed model for one listed entry.
fn zed_model_of(
    name: &String,
    info: &ModelInfo,
    interleaved: &Vec<String>,
    reasoning_effort: &str,
) -> (m: ZedModel)
    ensures
        m.name@ == name@,
        m.max_tokens == context_window(*info),
        m.max_output_tokens == output_cap(*info),
        if info.supports_reasoning == Some(true) {
            m.reasoning_effort matches Some(r) && r@ == reasoning_effort@
        } else {
            m.reasoning_effort is None
        },
        m.capabilities == capabilities_of(*info, names_contain(interleaved@, name@)),
{
    let max_tokens = match info.max_input_tokens {
        Some(tokens) => tokens,
        None => match info.max_tokens {
            Some(tokens) => tokens,
            None => DEFAULT_MAX_TOKENS,
        },
    };
    let max_output_tokens = match info.max_output_tokens {
        Some(cap) => if cap < max_tokens {
            Some(cap)
        } else {
            None
        },
        None => None,
    };
    let reasoning = match info.supports_reasoning {
        Some(true) => Some(String::from_str(reasoning_effort)),
        _ => None,
    };
    let interleaved_support = contains_name(interleaved, name);
    ZedModel {
        name: name.clone(),
        max_tokens,
        max_output_tokens,
        reasoning_effort: reasoning,
        capabilities: Capabilities {
            tools: flag_value(info.supports_function_calling, true),
            images: flag_value(info.supports_vision, false),
            parallel_tool_calls: flag_value(info.supports_parallel_function_calling, false),
            prompt_cache_key: flag_value(info.supports_prompt_caching, false),
            interleaved_reasoning: interleaved_support,
        },
    }
}


/// Models that do not hold the first `k` entries' names stay right when entry
/// `k` is skipped, or when its name is already there.
proof fn lemma_prefix_extends(
    models: Seq<ZedModel>,
    entries: Seq<ModelEntry>,
    k: int,
    interleaved: Seq<String>,
    effort: Seq<char>,
)
    requires
        0 <= k < entries.len(),
        models_of_prefix(models, entries, k, interleaved, effort),
        is_listed(entries[k]) ==> has_model_named(models, entry_name(entries[k])),
    ensures
        models_of_prefix(models, entries, k + 1, interleaved, effort),
{
    assert forall|i: int| 0 <= i < models.len() implies #[trigger] has_source(
        models[i],
        entries,
        k + 1,
        interleaved,
        effort,
    ) by {
        assert(has_source(models[i], entries, k, interleaved, effort));
    }
}

/// Inserting the model of a new name at its place in the order keeps the list
/// sorted and makes it right for one more entry.
proof fn lemma_insert_model(
    models: Seq<ZedModel>,
    p: int,
    m: ZedModel,
    entries: Seq<ModelEntry>,
    k: int,
    interleaved: Seq<String>,
    effort: Seq<char>,
)
    requires
        0 <= k < entries.len(),
        0 <= p <= models.len(),
        models_of_prefix(models, entries, k, interleaved, effort),
        sorted_by_name(models),
        forall|i: int| 0 <= i < p ==> name_before(#[trigger] models[i].name@, m.name@),
        forall|i: int| p <= i < models.len() ==> name_before(m.name@, #[trigger] models[i].name@),
        is_listed(entries[k]),
        m.name@ == entry_name(entries[k]),
        describes(m, entries[k], interleaved, effort),
    ensures
        sorted_by_name(models.insert(p, m)),
        models_of_prefix(models.insert(p, m), entries, k + 1, interleaved, effort),
{
    let new = models.insert(p, m);
    assert forall|i: int| 0 <= i < models.len() implies #[trigger] models[i].name@ != m.name@ by {
        lemma_name_before_irreflexive(m.name@);
        if i < p {
            lemma_name_before_total(models[i].name@, m.name@);
        } else {
            lemma_name_before_total(m.name@, models[i].name@);
        }
    }
    assert(is_first_listing(entries, k)) by {
        reveal(is_first_listing);
        assert forall|j: int| 0 <= j < k && is_listed(#[trigger] entries[j]) implies entry_name(
            entries[j],
        ) != entry_name(entries[k]) by {
            assert(has_model_named(models, entry_name(entries[j])));
        }
    }
    assert forall|a: int, b: int| 0 <= a < b < new.len() implies name_before(
        #[trigger] new[a].name@,
        #[trigger] new[b].name@,
    ) by {
        if b < p {
            assert(new[a] == models[a] && new[b] == models[b]);
        } else if b == p {
            assert(new[a] == models[a]);
        } else if a < p {
            assert(new[a] == models[a] && new[b] == models[b - 1]);
            lemma_name_before_transitive(models[a].name@, m.name@, models[b - 1].name@);
        } else if a == p {
            assert(new[b] == models[b - 1]);
        } else {
            assert(new[a] == models[a - 1] && new[b] == models[b - 1]);
        }
    }
    assert forall|i: int| 0 <= i < new.len() implies #[trigger] has_source(
        new[i],
        entries,
        k + 1,
        interleaved,
        effort,
    ) by {
        if i == p {
            assert(describes(new[i], entries[k], interleaved, effort));
        } else {
            let o = if i < p { i } else { i - 1 };
            assert(new[i] == models[o]);
            assert(has_source(models[o], entries, k, interleaved, effort));
        }
    }
    assert forall|j: int| 0 <= j < k + 1 && is_listed(entries[j]) implies #[trigger] has_model_named(
        new,
        entry_name(entries[j]),
    ) by {
        if j == k {
            assert(new[p].name@ == entry_name(entries[j]));
        } else {
            assert(has_model_named(models, entry_name(entries[j])));
            let i = choose|i: int|
                0 <= i < models.len() && #[trigger] models[i].name@ == entry_name(entries[j]);
            if i < p {
                assert(new[i] == models[i]);
            } else {
                assert(new[i + 1] == models[i]);
            }
        }
    }
}

/// Maps LiteLLM `/model/info` entries to Zed `available_models` entries.
/// Entries without a name and non-chat models (embeddings, image generation,
/// ...) are skipped; of several deployments with one name the first is kept;
/// the result is ordered by name. `interleaved` lists the models that the probe
/// found to both accept and emit `reasoning_content`.
pub fn to_zed_models(
    entries: &Vec<ModelEntry>,
    interleaved: &Vec<String>,
    reasoning_effort: &str,
) -> (models: Vec<ZedModel>)
    ensures
        sorted_by_name(models@),
        models_of_prefix(models@, entries@, entries@.len() as int, interleaved@, reasoning_effort@),
{
    // The models stay in a `Vec` sorted by name, with each name's characters
    // beside it: the order and the uniqueness of the names are proved here,
    // where a map keyed by `String` would leave both unstated.
    let mut models: Vec<ZedModel> = Vec::new();
    let mut keys: Vec<Vec<char>> = Vec::new();
    let empty = ModelInfo::default();
    let mut k: usize = 0;
    while k < entries.len()
        invariant
            k <= entries.len(),
            empty == empty_info(),
            keys.len() == models.len(),
            forall|i: int| 0 <= i < keys.len() ==> #[trigger] keys@[i]@ == models@[i].name@,
            sorted_by_name(models@),
            models_of_prefix(models@, entries@, k as int, interleaved@, reasoning_effort@),
        decreases entries.len() - k,
    {
        let entry = &entries[k];
        let ghost before = models@;
        match &entry.model_name {
            None => {
                proof {
                    lemma_prefix_extends(models@, entries@, k as int, interleaved@, reasoning_effort@);
                }
            },
            Some(name) => {
                let info: &ModelInfo = match &entry.model_info {
                    Some(i) => i,
                    None => &empty,
                };
                assert(*info == info_of(*entry));
                let chat = match &info.mode {
                    Some(mode) => text_is(mode, "chat") || text_is(mode, "responses"),
                    None => true,
                };
                if !chat {
                    proof {
                        lemma_prefix_extends(models@, entries@, k as int, interleaved@, reasoning_effort@);
                    }
                } else {
                    let key = chars_of(name.as_str());
                    let mut p: usize = 0;
                    while p < keys.len() && chars_before(&keys[p], &key)
                        invariant
                            p <= keys.len(),
                            keys.len() == models.len(),
                            forall|i: int| 0 <= i < keys.len() ==> #[trigger] keys@[i]@ == models@[i].name@,
                            forall|i: int| 0 <= i < p ==> name_before(#[trigger] models@[i].name@, key@),
                        decreases keys.len() - p,
                    {
                        p = p + 1;
                    }
                    if p < keys.len() && chars_equal(&keys[p], &key) {
                        proof {
                            assert(models@[p as int].name@ == entry_name(entries@[k as int]));
                            assert(has_model_named(models@, entry_name(entries@[k as int])));
                            lemma_prefix_extends(models@, entries@, k as int, interleaved@, reasoning_effort@);
                        }
                    } else {
                        proof {
                            if p < keys.len() {
                                assert(!name_before(models@[p as int].name@, key@));
                                lemma_name_before_total(models@[p as int].name@, key@);
                                assert forall|i: int| p <= i < models@.len() implies name_before(
                                    key@,
                                    #[trigger] models@[i].name@,
                                ) by {
                                    if i > p {
                                        lemma_name_before_transitive(key@, models@[p as int].name@, models@[i].name@);
                                    }
                                }
                            }
                        }
                        let model = zed_model_of(name, info, interleaved, reasoning_effort);
                        proof {
                            lemma_insert_model(models@, p as int, model, entries@, k as int, interleaved@, reasoning_effort@);
                        }
                        let ghost old_keys = keys@;
                        let ghost old_models = models@;
                        models.insert(p, model);
                        keys.insert(p, key);
                        assert forall|i: int| 0 <= i < keys.len() implies #[trigger] keys@[i]@ == models@[i].name@ by {
                            if i < p {
                                assert(keys@[i] == old_keys[i] && models@[i] == old_models[i]);
                            } else if i > p {
                                assert(keys@[i] == old_keys[i - 1] && models@[i] == old_models[i - 1]);
                            }
                        }
                    }
                }
            },
        }
        k = k + 1;
    }
    models
}

/// A model's fields as the `/model/info` report `info` gives them: the
/// context window is `max_input_tokens` when reported, whatever `max_tokens`
/// says, else `max_tokens`, else 128000; the per-response cap only when it is
/// below that window; each capability flag as reported, else `tools` on and
/// the others off; a reasoning effort, the requested one, exactly for models
/// that report reasoning.
pub open spec fn fields_follow_report(model: ZedModel, info: ModelInfo, effort: Seq<char>) -> bool {
    &&& model.max_tokens == match info.max_input_tokens {
        Some(window) => window,
        None => match info.max_tokens {
            Some(window) => window,
            None => 128000,
        },
    }
    &&& model.max_output_tokens == match info.max_output_tokens {
        Some(cap) => if cap < model.max_tokens {
            Some(cap)
        } else {
            None
        },
        None => None,
    }
    &&& model.capabilities.tools == match info.supports_function_calling {
        Some(b) => b,
        None => true,
    }
    &&& model.capabilities.images == match info.supports_vision {
        Some(b) => b,
        None => false,
    }
    &&& model.capabilities.parallel_tool_calls == match info.supports_parallel_function_calling {
        Some(b) => b,
        None => false,
    }
    &&& model.capabilities.prompt_cache_key == match info.supports_prompt_caching {
        Some(b) => b,
        None => false,
    }
    &&& (model.reasoning_effort is Some) == (info.supports_reasoning == Some(true))
    &&& model.reasoning_effort matches Some(r) ==> r@ == effort
}

/// The entry carries the name `name`.
pub open spec fn named(entry: ModelEntry, name: Seq<char>) -> bool {
    entry.model_name matches Some(n) && n@ == name
}

/// The entry's reported mode, if any, is `chat` or `responses`.
pub open spec fn reports_chat(entry: ModelEntry) -> bool {
    match entry.model_info {
        Some(info) => match info.mode {
            Some(mode) => "chat"@ == mode@ || "responses"@ == mode@,
            None => true,
        },
        None => true,
    }
}

/// `model` is made from entry `k`: the entry carries the model's name and
/// serves chat, no chat entry before it has that name, and the model's fields
/// follow the entry's report (a missing report reads as reporting nothing),
/// with `interleaved_reasoning` on exactly when the probe confirmed the name.
pub open spec fn made_from_entry(
    model: ZedModel,
    entries: Seq<ModelEntry>,
    k: int,
    interleaved: Seq<String>,
    effort: Seq<char>,
) -> bool {
    &&& 0 <= k < entries.len()
    &&& named(entries[k], model.name@)
    &&& reports_chat(entries[k])
    &&& forall|j: int|
        0 <= j < k && named(#[trigger] entries[j], model.name@) ==> !reports_chat(entries[j])
    &&& match entries[k].model_info {
        Some(info) => fields_follow_report(model, info, effort),
        None => {
            &&& model.max_tokens == 128000
            &&& model.max_output_tokens is None
            &&& model.capabilities.tools
            &&& !model.capabilities.images
            &&& !model.capabilities.parallel_tool_calls
            &&& !model.capabilities.prompt_cache_key
            &&& model.reasoning_effort is None
        },
    }
    &&& model.capabilities.interleaved_reasoning == exists|j: int|
        0 <= j < interleaved.len() && #[trigger] interleaved[j]@ == model.name@
}

/// `model` is made from one of the entries.
pub open spec fn made_from_some_entry(
    model: ZedModel,
    entries: Seq<ModelEntry>,
    interleaved: Seq<String>,
    effort: Seq<char>,
) -> bool {
    exists|k: int| made_from_entry(model, entries, k, interleaved, effort)
}

/// What the conversion promises of its result, read from the reports alone:
/// every model is made from a named chat entry, the first chat entry with its
/// name, field by field as that entry reports; and every named chat entry has
/// a model of its name.
pub proof fn lemma_models_follow_reports(
    models: Seq<ZedModel>,
    entries: Seq<ModelEntry>,
    interleaved: Seq<String>,
    effort: Seq<char>,
)
    requires
        models_of_prefix(models, entries, entries.len() as int, interleaved, effort),
    ensures
        forall|i: int|
            0 <= i < models.len() ==> made_from_some_entry(
                #[trigger] models[i],
                entries,
                interleaved,
                effort,
            ),
        forall|k: int|
            0 <= k < entries.len() && (#[trigger] entries[k]).model_name is Some && reports_chat(
                entries[k],
            ) ==> exists|i: int|
                0 <= i < models.len() && #[trigger] models[i].name@ == entries[k].model_name->0@,
{
    assert forall|i: int| 0 <= i < models.len() implies made_from_some_entry(
        #[trigger] models[i],
        entries,
        interleaved,
        effort,
    ) by {
        assert(has_source(models[i], entries, entries.len() as int, interleaved, effort));
        let k = choose|k: int|
            0 <= k < entries.len() && is_first_listing(entries, k) && describes(
                models[i],
                #[trigger] entries[k],
                interleaved,
                effort,
            );
        reveal(is_first_listing);
        assert forall|j: int|
            0 <= j < k && named(#[trigger] entries[j], models[i].name@) implies !reports_chat(
                entries[j],
            ) by {
            if reports_chat(entries[j]) {
                assert(is_listed(entries[j]));
            }
        }
        let m = models[i];
        assert(named(entries[k], m.name@));
        assert(is_listed(entries[k]));
        assert(reports_chat(entries[k]));
        assert(match entries[k].model_info {
            Some(info) => fields_follow_report(m, info, effort),
            None => {
                &&& m.max_tokens == 128000
                &&& m.max_output_tokens is None
                &&& m.capabilities.tools
                &&& !m.capabilities.images
                &&& !m.capabilities.parallel_tool_calls
                &&& !m.capabilities.prompt_cache_key
                &&& m.reasoning_effort is None
            },
        });
        assert(m.capabilities.interleaved_reasoning == exists|j: int|
            0 <= j < interleaved.len() && #[trigger] interleaved[j]@ == m.name@);
        assert(made_from_entry(models[i], entries, k, interleaved, effort));
    }
    assert forall|k: int|
        0 <= k < entries.len() && (#[trigger] entries[k]).model_name is Some && reports_chat(
            entries[k],
        ) implies exists|i: int|
        0 <= i < models.len() && #[trigger] models[i].name@ == entries[k].model_name->0@ by {
        assert(is_listed(entries[k]));
        assert(has_model_named(models, entry_name(entries[k])));
    }
}

/// The `capabilities` object pairs each key with its own flag.
pub proof fn lemma_capabilities_json_members(c: Capabilities)
    ensures
        member(capabilities_json(c), "images"@) == Some(JsonV::Bool(c.images)),
        member(capabilities_json(c), "interleaved_reasoning"@) == Some(
            JsonV::Bool(c.interleaved_reasoning),
        ),
        member(capabilities_json(c), "parallel_tool_calls"@) == Some(
            JsonV::Bool(c.parallel_tool_calls),
        ),
        member(capabilities_json(c), "prompt_cache_key"@) == Some(JsonV::Bool(c.prompt_cache_key)),
        member(capabilities_json(c), "tools"@) == Some(JsonV::Bool(c.tools)),
{
    reveal_strlit("images");
    reveal_strlit("interleaved_reasoning");
    reveal_strlit("parallel_tool_calls");
    reveal_strlit("prompt_cache_key");
    reveal_strlit("tools");
    reveal_with_fuel(lookup, 6);
    assert("images"@ != "interleaved_reasoning"@ && "images"@ != "parallel_tool_calls"@
        && "images"@ != "prompt_cache_key"@ && "images"@ != "tools"@) by {
        assert("images"@[1] != "interleaved_reasoning"@[1]);
    }
    assert("interleaved_reasoning"@ != "parallel_tool_calls"@ && "interleaved_reasoning"@
        != "prompt_cache_key"@ && "interleaved_reasoning"@ != "tools"@) by {
        assert("interleaved_reasoning"@[0] != "parallel_tool_calls"@[0]);
        assert("interleaved_reasoning"@[0] != "prompt_cache_key"@[0]);
        assert("interleaved_reasoning"@[0] != "tools"@[0]);
    }
    assert("parallel_tool_calls"@ != "prompt_cache_key"@ && "parallel_tool_calls"@ != "tools"@) by {
        assert("parallel_tool_calls"@[1] != "prompt_cache_key"@[1]);
    }
    assert("prompt_cache_key"@ != "tools"@) by {
        assert("prompt_cache_key"@[0] != "tools"@[0]);
    }
}

/// A model's JSON object pairs each key with its own field: `name` with the
/// name, `max_tokens` with the context window, `capabilities` with the
/// capability flags, and `max_output_tokens` and `reasoning_effort` with their
/// values exactly when the model has them.
pub proof fn lemma_model_json_members(m: ZedModel)
    ensures
        member(model_json(m), "name"@) == Some(JsonV::Str(m.name@)),
        member(model_json(m), "max_tokens"@) == Some(JsonV::Number(decimal(m.max_tokens as nat))),
        member(model_json(m), "capabilities"@) == Some(capabilities_json(m.capabilities)),
        member(model_json(m), "max_output_tokens"@) == match m.max_output_tokens {
            Some(cap) => Some(JsonV::Number(decimal(cap as nat))),
            None => None,
        },
        member(model_json(m), "reasoning_effort"@) == match m.reasoning_effort {
            Some(r) => Some(JsonV::Str(r@)),
            None => None,
        },
{
    reveal_strlit("capabilities");
    reveal_strlit("max_output_tokens");
    reveal_strlit("max_tokens");
    reveal_strlit("name");
    reveal_strlit("reasoning_effort");
    assert("capabilities"@[0] != "max_tokens"@[0]);
    assert("capabilities"@[0] != "name"@[0]);
    assert("capabilities"@[0] != "reasoning_effort"@[0]);
    assert("max_output_tokens"@[4] != "max_tokens"@[4]);
    assert("max_output_tokens"@[0] != "name"@[0]);
    assert("max_output_tokens"@[0] != "reasoning_effort"@[0]);
    assert("max_tokens"@[0] != "name"@[0]);
    assert("max_tokens"@[0] != "reasoning_effort"@[0]);
    assert("name"@[0] != "reasoning_effort"@[0]);
    assert("capabilities"@ != "max_output_tokens"@ && "capabilities"@ != "max_tokens"@
        && "capabilities"@ != "name"@ && "capabilities"@ != "reasoning_effort"@);
    assert("max_output_tokens"@ != "max_tokens"@ && "max_output_tokens"@ != "name"@
        && "max_output_tokens"@ != "reasoning_effort"@);
    assert("max_tokens"@ != "name"@ && "max_tokens"@ != "reasoning_effort"@);
    assert("name"@ != "reasoning_effort"@);
    let c = ("capabilities"@, capabilities_json(m.capabilities));
    let t = ("max_tokens"@, JsonV::Number(decimal(m.max_tokens as nat)));
    let n = ("name"@, JsonV::Str(m.name@));
    let members = match model_json(m) {
        JsonV::Object(ms) => ms,
        _ => Seq::empty(),
    };
    reveal_with_fuel(lookup, 6);
    match (m.max_output_tokens, m.reasoning_effort) {
        (Some(cap), Some(r)) => {
            let o = ("max_output_tokens"@, JsonV::Number(decimal(cap as nat)));
            let e = ("reasoning_effort"@, JsonV::Str(r@));
            assert(members =~= seq![c, o, t, n, e]);
        },
        (Some(cap), None) => {
            let o = ("max_output_tokens"@, JsonV::Number(decimal(cap as nat)));
            assert(members =~= seq![c, o, t, n]);
        },
        (None, Some(r)) => {
            let e = ("reasoning_effort"@, JsonV::Str(r@));
            assert(members =~= seq![c, t, n, e]);
        },
        (None, None) => {
            assert(members =~= seq![c, t, n]);
        },
    }
}

/// The generated models are listed by name in the order of `str`, each name
/// strictly after the one before it.
pub proof fn lemma_models_listed_in_str_order(models: Seq<ZedModel>)
    requires
        sorted_by_name(models),
    ensures
        forall|i: int, j: int|
            0 <= i < j < models.len() ==> str_less(#[trigger] models[i].name@, #[trigger] models[j].name@),
{
    assert forall|i: int, j: int| 0 <= i < j < models.len() implies str_less(
        #[trigger] models[i].name@,
        #[trigger] models[j].name@,
    ) by {
        lemma_name_before_is_str_order(models[i].name@, models[j].name@);
    }
}

} // verus!
