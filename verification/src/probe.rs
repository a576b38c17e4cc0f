//! The decisions around probing reasoning models for `interleaved_reasoning`:
//! which models to probe, what a probe's answer says, and what to keep.
//!
//! A model counts as supporting interleaved reasoning only when it (a) accepts
//! a request that carries `reasoning_content` on a prior assistant turn and
//! (b) emits `reasoning_content` in its own response message; this tells real
//! support apart from silently accepting and ignoring the field.

use vstd::prelude::*;

use crate::json::{decimal, decimal_text, lemma_object_view, lookup, member, Json, JsonMember, JsonV};
use crate::models::ModelEntry;

verus! {

/// The texts of a list of strings.
pub open spec fn texts(names: Seq<String>) -> Seq<Seq<char>> {
    names.map_values(|s: String| s@)
}

/// Whether an entry reports `supports_reasoning: true` and has a name. Unlike
/// model listing, an entry without `model_info` is not probed.
pub open spec fn is_probe_candidate(entry: ModelEntry) -> bool {
    &&& entry.model_name is Some
    &&& (entry.model_info matches Some(info) && info.supports_reasoning == Some(true))
}

/// The names of the entries to probe, in the entries' order.
pub open spec fn probe_candidate_names(entries: Seq<ModelEntry>) -> Seq<Seq<char>>
    decreases entries.len(),
{
    if entries.len() == 0 {
        Seq::empty()
    } else {
        let rest = probe_candidate_names(entries.drop_last());
        if is_probe_candidate(entries.last()) {
            rest.push(entries.last().model_name->0@)
        } else {
            rest
        }
    }
}

/// The entry reports reasoning: it has a `model_info` whose
/// `supports_reasoning` is `true`.
pub open spec fn reports_reasoning(entry: ModelEntry) -> bool {
    entry.model_info is Some && entry.model_info->0.supports_reasoning == Some(true)
}

/// The models to probe are exactly the named entries that report
/// reasoning, in the entries' order: an entry without a name, without
/// `model_info`, or whose `supports_reasoning` is absent or `false`, is never
/// probed, and the mode is not consulted.
pub proof fn lemma_candidates_report_reasoning(entries: Seq<ModelEntry>)
    ensures
        probe_candidate_names(entries) == entries.filter(
            |e: ModelEntry| e.model_name is Some && reports_reasoning(e),
        ).map_values(|e: ModelEntry| e.model_name->0@),
    decreases entries.len(),
{
    reveal(Seq::filter);
    let pred = |e: ModelEntry| e.model_name is Some && reports_reasoning(e);
    let name = |e: ModelEntry| e.model_name->0@;
    if entries.len() == 0 {
        assert(entries.filter(pred).map_values(name) =~= Seq::<Seq<char>>::empty());
    } else {
        lemma_candidates_report_reasoning(entries.drop_last());
        let rest = entries.drop_last().filter(pred);
        if pred(entries.last()) {
            assert(rest.push(entries.last()).map_values(name) =~= rest.map_values(name).push(
                name(entries.last()),
            ));
        }
    }
}

/// The names of the reasoning-capable models, in the order of `entries`.
pub fn probe_candidates(entries: &Vec<ModelEntry>) -> (names: Vec<String>)
    ensures
        texts(names@) == probe_candidate_names(entries@),
{
    let mut names: Vec<String> = Vec::new();
    let mut k: usize = 0;
    while k < entries.len()
        invariant
            k <= entries.len(),
            texts(names@) == probe_candidate_names(entries@.take(k as int)),
        decreases entries.len() - k,
    {
        let entry = &entries[k];
        let ghost before = names@;
        proof {
            assert(entries@.take(k + 1).drop_last() =~= entries@.take(k as int));
            assert(entries@.take(k + 1).last() == entries@[k as int]);
        }
        match (&entry.model_info, &entry.model_name) {
            (Some(info), Some(name)) => {
                if info.supports_reasoning == Some(true) {
                    names.push(name.clone());
                    assert(texts(names@) =~= texts(before).push(name@));
                }
            },
            _ => {},
        }
        k = k + 1;
    }
    assert(entries@.take(k as int) =~= entries@);
    names
}

/// The message of one choice in a chat-completions response; of it only
/// whether `reasoning_content` is present (and not `null`) matters.
#[derive(Clone, Copy, Debug)]
pub struct ProbeMessage {
    pub has_reasoning_content: bool,
}

/// One choice of a chat-completions response.
#[derive(Clone, Copy, Debug)]
pub struct ProbeChoice {
    pub message: Option<ProbeMessage>,
}

/// A chat-completions response to a probe.
#[derive(Clone, Debug)]
pub struct ProbeResponse {
    pub choices: Vec<ProbeChoice>,
}

/// Why a probe's response says nothing.
#[derive(Clone, Copy, Debug, PartialEq, Eq)]
pub enum ProbeError {
    /// The response had no first choice with a message.
    NoMessage,
}

/// What a probe response says: the model emitted `reasoning_content` of its
/// own in the first choice's message; an error when there is no such message.
pub fn probe_verdict(response: &ProbeResponse) -> (r: Result<bool, ProbeError>)
    ensures
        match r {
            Ok(b) => {
                &&& response.choices@.len() > 0
                &&& response.choices@[0].message matches Some(m)
                &&& b == m.has_reasoning_content
            },
            Err(e) => e == ProbeError::NoMessage && (response.choices@.len() == 0
                || response.choices@[0].message is None),
        },
{
    if response.choices.len() == 0 {
        return Err(ProbeError::NoMessage);
    }
    match response.choices[0].message {
        Some(message) => Ok(message.has_reasoning_content),
        None => Err(ProbeError::NoMessage),
    }
}

/// What became of one probed model, for the log.
#[derive(Clone, Copy, Debug, PartialEq, Eq)]
pub enum ProbeReport {
    /// The model accepts and emits `reasoning_content`.
    Supported,
    /// The model accepts `reasoning_content` but does not emit it.
    NotEmitted,
    /// The probe failed; the model is left off.
    Failed,
}

/// Records the outcome of probing `model_name`: the name is kept only when
/// the probe answered that the model emits `reasoning_content`. A failed
/// probe leaves the model off, and the other models are still probed.
pub fn record_probe(
    supported: &mut Vec<String>,
    model_name: &str,
    outcome: &Result<bool, String>,
) -> (report: ProbeReport)
    ensures
        match outcome {
            Ok(true) => report == ProbeReport::Supported && texts(final(supported)@) == texts(
                old(supported)@,
            ).push(model_name@),
            Ok(false) => report == ProbeReport::NotEmitted && final(supported)@ == old(supported)@,
            Err(_) => report == ProbeReport::Failed && final(supported)@ == old(supported)@,
        },
{
    match outcome {
        Ok(true) => {
            let ghost before = supported@;
            supported.push(String::from_str(model_name));
            assert(texts(supported@) =~= texts(before).push(model_name@));
            ProbeReport::Supported
        },
        Ok(false) => ProbeReport::NotEmitted,
        Err(_) => ProbeReport::Failed,
    }
}


/// The candidates whose probe answered that the model emits
/// `reasoning_content`, in order, given the outcomes of the first probes.
pub open spec fn confirmed(candidates: Seq<Seq<char>>, outcomes: Seq<Result<bool, String>>) -> Seq<
    Seq<char>,
>
    decreases outcomes.len(),
{
    if outcomes.len() == 0 {
        Seq::empty()
    } else {
        let rest = confirmed(candidates, outcomes.drop_last());
        if outcomes.last() matches Ok(true) {
            rest.push(candidates[outcomes.len() - 1])
        } else {
            rest
        }
    }
}

/// Over the first probes of a run, when each outcome is what probing its
/// candidate gives, the confirmed models are the candidates probed so far
/// whose probe answered `Ok(true)`, in order.
proof fn lemma_confirmed_prefix(
    candidates: Seq<Seq<char>>,
    outcomes: Seq<Result<bool, String>>,
    probe: spec_fn(Seq<char>) -> Result<bool, String>,
)
    requires
        outcomes.len() <= candidates.len(),
        forall|i: int| 0 <= i < outcomes.len() ==> #[trigger] outcomes[i] == probe(candidates[i]),
    ensures
        confirmed(candidates, outcomes) == candidates.take(outcomes.len() as int).filter(
            |n: Seq<char>| probe(n) matches Ok(true),
        ),
    decreases outcomes.len(),
{
    reveal(Seq::filter);
    let pred = |n: Seq<char>| probe(n) matches Ok(true);
    let k = outcomes.len() as int;
    if k == 0 {
        assert(candidates.take(0) =~= Seq::<Seq<char>>::empty());
    } else {
        let shorter = outcomes.drop_last();
        assert forall|i: int| 0 <= i < shorter.len() implies #[trigger] shorter[i] == probe(
            candidates[i],
        ) by {
            assert(shorter[i] == outcomes[i]);
        }
        lemma_confirmed_prefix(candidates, shorter, probe);
        let prefix = candidates.take(k);
        assert(prefix.drop_last() =~= candidates.take(k - 1));
        assert(prefix.last() == candidates[k - 1]);
        assert(outcomes.last() == outcomes[k - 1]);
        assert(pred(prefix.last()) == (outcomes.last() matches Ok(true)));
    }
}

/// A whole run: when every candidate is probed once, in order, and each
/// outcome is what probing that candidate gives, the confirmed models are
/// exactly the candidates whose probe answered `Ok(true)`, in order. A probe
/// that fails or answers `Ok(false)` leaves out its own model and no other.
pub proof fn lemma_run_confirms_exactly(
    candidates: Seq<Seq<char>>,
    outcomes: Seq<Result<bool, String>>,
    probe: spec_fn(Seq<char>) -> Result<bool, String>,
)
    requires
        outcomes.len() == candidates.len(),
        forall|i: int| 0 <= i < outcomes.len() ==> #[trigger] outcomes[i] == probe(candidates[i]),
    ensures
        confirmed(candidates, outcomes) == candidates.filter(
            |n: Seq<char>| probe(n) matches Ok(true),
        ),
{
    lemma_confirmed_prefix(candidates, outcomes, probe);
    assert(candidates.take(candidates.len() as int) =~= candidates);
}

/// A probe of the reasoning-capable models, one at a time: the candidates in
/// order, the outcome of each probe so far, and the models confirmed so far.
pub struct ProbeRun {
    candidates: Vec<String>,
    next: usize,
    supported: Vec<String>,
    outcomes: Ghost<Seq<Result<bool, String>>>,
}

impl ProbeRun {
    /// The names to probe, in order.
    pub closed spec fn candidate_names(&self) -> Seq<Seq<char>> {
        texts(self.candidates@)
    }

    /// The outcomes of the probes made so far, one per candidate in order.
    pub closed spec fn outcomes(&self) -> Seq<Result<bool, String>> {
        self.outcomes@
    }

    /// The run is consistent: no more outcomes than candidates, and the
    /// confirmed models are those the outcomes confirm.
    pub closed spec fn wf(&self) -> bool {
        &&& self.next == self.outcomes@.len()
        &&& self.next <= self.candidates@.len()
        &&& texts(self.supported@) == confirmed(texts(self.candidates@), self.outcomes@)
    }

    /// A run over the reasoning-capable models of `entries`.
    pub fn new(entries: &Vec<ModelEntry>) -> (run: ProbeRun)
        ensures
            run.wf(),
            run.candidate_names() == probe_candidate_names(entries@),
            run.outcomes() == Seq::<Result<bool, String>>::empty(),
    {
        let run = ProbeRun {
            candidates: probe_candidates(entries),
            next: 0,
            supported: Vec::new(),
            outcomes: Ghost(Seq::empty()),
        };
        assert(texts(run.supported@) =~= Seq::empty());
        run
    }

    /// The model to probe next; `None` once every candidate is probed.
    pub fn next_candidate(&self) -> (name: Option<&String>)
        requires
            self.wf(),
        ensures
            match name {
                Some(n) => self.outcomes().len() < self.candidate_names().len()
                    && n@ == self.candidate_names()[self.outcomes().len() as int],
                None => self.outcomes().len() == self.candidate_names().len(),
            },
    {
        if self.next < self.candidates.len() {
            Some(&self.candidates[self.next])
        } else {
            None
        }
    }

    /// Records the outcome of probing the next model. A failed probe leaves
    /// the model off, and the run goes on with the next one.
    pub fn record(&mut self, outcome: Result<bool, String>) -> (report: ProbeReport)
        requires
            old(self).wf(),
            old(self).outcomes().len() < old(self).candidate_names().len(),
        ensures
            final(self).wf(),
            final(self).candidate_names() == old(self).candidate_names(),
            final(self).outcomes() == old(self).outcomes().push(outcome),
            report == match outcome {
                Ok(true) => ProbeReport::Supported,
                Ok(false) => ProbeReport::NotEmitted,
                Err(_) => ProbeReport::Failed,
            },
    {
        let ghost before = self.outcomes@;
        let i = self.next;
        assert(texts(self.candidates@).len() == self.candidates@.len());
        assert(i < self.candidates.len());
        let name = self.candidates[i].clone();
        let report = record_probe(&mut self.supported, name.as_str(), &outcome);
        self.outcomes = Ghost(before.push(outcome));
        self.next = i + 1;
        proof {
            assert(self.outcomes@.drop_last() =~= before);
        }
        report
    }

    /// The confirmed models, once every candidate is probed: exactly the
    /// candidates whose probe answered `Ok(true)`, in order.
    pub fn finish(self) -> (supported: Vec<String>)
        requires
            self.wf(),
            self.outcomes().len() == self.candidate_names().len(),
        ensures
            texts(supported@) == confirmed(self.candidate_names(), self.outcomes()),
    {
        self.supported
    }
}

/// A chat message with the given members, as `(key, text)` pairs.
pub open spec fn message_json(members: Seq<(Seq<char>, Seq<char>)>) -> JsonV {
    JsonV::Object(Seq::new(members.len(), |i: int| (members[i].0, JsonV::Str(members[i].1))))
}

/// The request body of a probe: a minimal chat-completions request whose
/// prior assistant turn carries `reasoning_content`. `reasoning_effort:
/// medium` makes the model take a reasoning turn, `max_tokens: 1` keeps the
/// cost near zero. Keys are in alphabetical order.
pub open spec fn probe_request_json(model_name: Seq<char>) -> JsonV {
    JsonV::Object(
        seq![
            ("max_tokens"@, JsonV::Number(decimal(1))),
            (
                "messages"@,
                JsonV::Array(
                    seq![
                        message_json(seq![("content"@, "hi"@), ("role"@, "user"@)]),
                        message_json(
                            seq![
                                ("content"@, "ok"@),
                                ("reasoning_content"@, "prior thinking"@),
                                ("role"@, "assistant"@),
                            ],
                        ),
                        message_json(seq![("content"@, "hi again"@), ("role"@, "user"@)]),
                    ],
                ),
            ),
            ("model"@, JsonV::Str(model_name)),
            ("reasoning_effort"@, JsonV::Str("medium"@)),
        ],
    )
}

/// A `"key": "text"` member.
fn text_member(key: &str, text: &str) -> (m: JsonMember)
    ensures
        m.key@ == key@,
        m.value@ == JsonV::Str(text@),
{
    JsonMember { key: String::from_str(key), value: Json::Str(String::from_str(text)) }
}

/// A chat message from its `(key, text)` members.
fn message(members: Vec<JsonMember>, texts: Ghost<Seq<(Seq<char>, Seq<char>)>>) -> (j: Json)
    requires
        members@.len() == texts@.len(),
        forall|i: int|
            0 <= i < texts@.len() ==> (#[trigger] members@[i]).key@ == texts@[i].0
                && members@[i].value@ == JsonV::Str(texts@[i].1),
    ensures
        j@ == message_json(texts@),
{
    proof {
        let s = Seq::new(texts@.len(), |i: int| (texts@[i].0, JsonV::Str(texts@[i].1)));
        lemma_object_view(members, s);
    }
    Json::Object(members)
}

/// The request body that probes `model_name`.
pub fn probe_request(model_name: &str) -> (body: Json)
    ensures
        body@ == probe_request_json(model_name@),
{
    let ghost t1 = seq![("content"@, "hi"@), ("role"@, "user"@)];
    let ghost t2 = seq![
        ("content"@, "ok"@),
        ("reasoning_content"@, "prior thinking"@),
        ("role"@, "assistant"@),
    ];
    let ghost t3 = seq![("content"@, "hi again"@), ("role"@, "user"@)];
    let first = message(vec![text_member("content", "hi"), text_member("role", "user")], Ghost(t1));
    let second = message(
        vec![
            text_member("content", "ok"),
            text_member("reasoning_content", "prior thinking"),
            text_member("role", "assistant"),
        ],
        Ghost(t2),
    );
    let third = message(
        vec![text_member("content", "hi again"), text_member("role", "user")],
        Ghost(t3),
    );
    let ghost msgs = seq![first@, second@, third@];
    let messages = Json::Array(vec![first, second, third]);
    assert(messages@ == JsonV::Array(msgs)) by {
        let ws = match messages@ {
            JsonV::Array(ws) => ws,
            _ => Seq::empty(),
        };
        assert(ws =~= msgs);
    }
    let members = vec![
        JsonMember { key: String::from_str("max_tokens"), value: Json::Number(decimal_text(1)) },
        JsonMember { key: String::from_str("messages"), value: messages },
        JsonMember { key: String::from_str("model"), value: Json::Str(String::from_str(model_name)) },
        text_member("reasoning_effort", "medium"),
    ];
    proof {
        let want = match probe_request_json(model_name@) {
            JsonV::Object(want) => want,
            _ => Seq::empty(),
        };
        lemma_object_view(members, want);
    }
    Json::Object(members)
}

/// The probe asks the model to answer a user turn that follows an assistant
/// turn carrying `reasoning_content`: the messages are a user turn, an
/// assistant turn with reasoning, and a user turn, and only the assistant
/// turn carries `reasoning_content`. The request names the probed model.
pub proof fn lemma_probe_request_turns(model_name: Seq<char>)
    ensures
        member(probe_request_json(model_name), "model"@) == Some(JsonV::Str(model_name)),
        member(probe_request_json(model_name), "messages"@) matches Some(JsonV::Array(turns)) && {
            &&& turns.len() == 3
            &&& member(turns[0], "role"@) == Some(JsonV::Str("user"@))
            &&& member(turns[1], "role"@) == Some(JsonV::Str("assistant"@))
            &&& member(turns[2], "role"@) == Some(JsonV::Str("user"@))
            &&& member(turns[0], "reasoning_content"@) is None
            &&& member(turns[1], "reasoning_content"@) matches Some(JsonV::Str(r)) && r.len() > 0
            &&& member(turns[2], "reasoning_content"@) is None
        },
{
    reveal_strlit("max_tokens");
    reveal_strlit("messages");
    reveal_strlit("model");
    reveal_strlit("content");
    reveal_strlit("role");
    reveal_strlit("reasoning_content");
    reveal_strlit("prior thinking");
    reveal_with_fuel(lookup, 5);
    assert("max_tokens"@ != "messages"@ && "max_tokens"@ != "model"@) by {
        assert("max_tokens"@[1] != "messages"@[1]);
        assert("max_tokens"@[1] != "model"@[1]);
    }
    assert("messages"@ != "model"@) by {
        assert("messages"@[1] != "model"@[1]);
    }
    assert("content"@ != "role"@ && "content"@ != "reasoning_content"@) by {
        assert("content"@[0] != "role"@[0]);
        assert("content"@[0] != "reasoning_content"@[0]);
    }
    assert("reasoning_content"@ != "role"@) by {
        assert("reasoning_content"@[1] != "role"@[1]);
    }
    let t1 = seq![("content"@, "hi"@), ("role"@, "user"@)];
    let t2 = seq![
        ("content"@, "ok"@),
        ("reasoning_content"@, "prior thinking"@),
        ("role"@, "assistant"@),
    ];
    let t3 = seq![("content"@, "hi again"@), ("role"@, "user"@)];
    let m1 = match message_json(t1) {
        JsonV::Object(ms) => ms,
        _ => Seq::empty(),
    };
    let m2 = match message_json(t2) {
        JsonV::Object(ms) => ms,
        _ => Seq::empty(),
    };
    let m3 = match message_json(t3) {
        JsonV::Object(ms) => ms,
        _ => Seq::empty(),
    };
    assert(m1 =~= seq![("content"@, JsonV::Str("hi"@)), ("role"@, JsonV::Str("user"@))]);
    assert(m2 =~= seq![
        ("content"@, JsonV::Str("ok"@)),
        ("reasoning_content"@, JsonV::Str("prior thinking"@)),
        ("role"@, JsonV::Str("assistant"@)),
    ]);
    assert(m3 =~= seq![("content"@, JsonV::Str("hi again"@)), ("role"@, JsonV::Str("user"@))]);
}

} // verus!
