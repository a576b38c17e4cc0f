//! Merging freshly discovered models into the entries already in the settings.

use vstd::prelude::*;

use crate::json::{member, model_name, name_of, views, Json, JsonV};
use crate::models::{contains_name, names_contain};

verus! {

/// Some entry of `existing` has the name `name`.
pub open spec fn has_name(existing: Seq<JsonV>, name: Seq<char>) -> bool {
    exists|i: int| 0 <= i < existing.len() && #[trigger] name_of(existing[i]) == Some(name)
}

/// A discovered model is new when it has a name that no existing entry has.
pub open spec fn is_new(existing: Seq<JsonV>, model: JsonV) -> bool {
    match name_of(model) {
        Some(name) => !has_name(existing, name),
        None => false,
    }
}

/// The discovered models that are new, in their order.
pub open spec fn new_models(existing: Seq<JsonV>, discovered: Seq<JsonV>) -> Seq<JsonV>
    decreases discovered.len(),
{
    if discovered.len() == 0 {
        Seq::empty()
    } else {
        let rest = new_models(existing, discovered.drop_last());
        if is_new(existing, discovered.last()) {
            rest.push(discovered.last())
        } else {
            rest
        }
    }
}

/// A model that is new is among the new models.
proof fn lemma_new_is_kept(existing: Seq<JsonV>, discovered: Seq<JsonV>, k: int)
    requires
        0 <= k < discovered.len(),
        is_new(existing, discovered[k]),
    ensures
        exists|i: int|
            0 <= i < new_models(existing, discovered).len() && #[trigger] new_models(
                existing,
                discovered,
            )[i] == discovered[k],
    decreases discovered.len(),
{
    let rest = new_models(existing, discovered.drop_last());
    if k == discovered.len() - 1 {
        assert(new_models(existing, discovered)[rest.len() as int] == discovered[k]);
    } else {
        assert(discovered.drop_last()[k] == discovered[k]);
        lemma_new_is_kept(existing, discovered.drop_last(), k);
        let i = choose|i: int| 0 <= i < rest.len() && #[trigger] rest[i] == discovered[k];
        assert(new_models(existing, discovered)[i] == rest[i]);
    }
}

/// Nothing is new when no discovered model is.
proof fn lemma_nothing_new(existing: Seq<JsonV>, discovered: Seq<JsonV>)
    requires
        forall|k: int| 0 <= k < discovered.len() ==> !is_new(existing, #[trigger] discovered[k]),
    ensures
        new_models(existing, discovered).len() == 0,
    decreases discovered.len(),
{
    if discovered.len() > 0 {
        assert forall|k: int| 0 <= k < discovered.len() - 1 implies !is_new(
            existing,
            #[trigger] discovered.drop_last()[k],
        ) by {
            assert(discovered.drop_last()[k] == discovered[k]);
        }
        lemma_nothing_new(existing, discovered.drop_last());
        assert(!is_new(existing, discovered[discovered.len() - 1]));
    }
}

/// After a merge, every discovered model that has a name is represented: an
/// entry with its name is in the merged list.
pub proof fn lemma_merge_covers_discovered(existing: Seq<JsonV>, discovered: Seq<JsonV>)
    ensures
        forall|k: int|
            0 <= k < discovered.len() && (#[trigger] name_of(discovered[k])) is Some ==> has_name(
                existing + new_models(existing, discovered),
                name_of(discovered[k])->0,
            ),
{
    let merged = existing + new_models(existing, discovered);
    assert forall|k: int|
        0 <= k < discovered.len() && (#[trigger] name_of(discovered[k])) is Some implies has_name(
            merged,
            name_of(discovered[k])->0,
        ) by {
        let n = name_of(discovered[k])->0;
        if has_name(existing, n) {
            let i = choose|i: int| 0 <= i < existing.len() && #[trigger] name_of(existing[i]) == Some(n);
            assert(merged[i] == existing[i]);
        } else {
            lemma_new_is_kept(existing, discovered, k);
            let nm = new_models(existing, discovered);
            let i = choose|i: int| 0 <= i < nm.len() && #[trigger] nm[i] == discovered[k];
            assert(merged[existing.len() + i] == nm[i]);
        }
    }
}

/// Syncing again with the same discovered models appends nothing: every
/// discovered model's name is already listed after the first merge.
pub proof fn lemma_merge_again_adds_nothing(existing: Seq<JsonV>, discovered: Seq<JsonV>)
    ensures
        new_models(existing + new_models(existing, discovered), discovered).len() == 0,
{
    lemma_merge_covers_discovered(existing, discovered);
    let merged = existing + new_models(existing, discovered);
    assert forall|k: int| 0 <= k < discovered.len() implies !is_new(merged, #[trigger] discovered[k]) by {
        if name_of(discovered[k]) is Some {
            assert(has_name(merged, name_of(discovered[k])->0));
        }
    }
    lemma_nothing_new(merged, discovered);
}

/// Every appended model has a name that no existing entry has.
pub proof fn lemma_merge_appends_only_new_names(existing: Seq<JsonV>, discovered: Seq<JsonV>)
    ensures
        forall|i: int|
            0 <= i < new_models(existing, discovered).len() ==> is_new(
                existing,
                #[trigger] new_models(existing, discovered)[i],
            ),
    decreases discovered.len(),
{
    if discovered.len() > 0 {
        lemma_merge_appends_only_new_names(existing, discovered.drop_last());
        let rest = new_models(existing, discovered.drop_last());
        let all = new_models(existing, discovered);
        assert forall|i: int| 0 <= i < all.len() implies is_new(existing, #[trigger] all[i]) by {
            if i < rest.len() {
                assert(all[i] == rest[i]);
            }
        }
    }
}

/// The merged model list, with what the merge did.
pub struct MergedModels {
    pub models: Vec<Json>,
    pub discovered_count: usize,
    pub existing_count: usize,
    pub new_count: usize,
}

/// Existing entries win: they are kept verbatim (preserving manual tuning
/// such as `display_name`, `reasoning_effort`, or capabilities LiteLLM can't
/// report, like `interleaved_reasoning`). Discovered models not already
/// present are appended. Nothing is removed.
pub fn merge_models(existing: Vec<Json>, discovered: Vec<Json>) -> (merged: MergedModels)
    ensures
        views(merged.models@) == views(existing@) + new_models(views(existing@), views(discovered@)),
        merged.existing_count == existing@.len(),
        merged.discovered_count == discovered@.len(),
        merged.new_count == new_models(views(existing@), views(discovered@)).len(),
{
    let ghost ev = views(existing@);
    let ghost dv = views(discovered@);
    let mut existing_names: Vec<String> = Vec::new();
    let mut k: usize = 0;
    while k < existing.len()
        invariant
            k <= existing.len(),
            ev == views(existing@),
            forall|n: Seq<char>|
                #![trigger names_contain(existing_names@, n)]
                names_contain(existing_names@, n) == has_name(ev.take(k as int), n),
        decreases existing.len() - k,
    {
        let ghost before = existing_names@;
        match model_name(&existing[k]) {
            Some(name) => {
                existing_names.push(name.clone());
            },
            None => {},
        }
        assert forall|n: Seq<char>| #![trigger names_contain(existing_names@, n)]
            names_contain(existing_names@, n) == has_name(ev.take(k + 1), n) by {
            let t = ev.take(k + 1);
            assert(t[k as int] == existing@[k as int]@);
            if names_contain(existing_names@, n) {
                let j = choose|j: int| 0 <= j < existing_names@.len() && #[trigger] existing_names@[j]@ == n;
                if j < before.len() {
                    assert(names_contain(before, n));
                    let i = choose|i: int| 0 <= i < k && #[trigger] name_of(ev.take(k as int)[i]) == Some(n);
                    assert(t[i] == ev.take(k as int)[i]);
                }
            }
            if has_name(t, n) {
                let i = choose|i: int| 0 <= i < t.len() && #[trigger] name_of(t[i]) == Some(n);
                if i < k {
                    assert(ev.take(k as int)[i] == t[i]);
                    assert(has_name(ev.take(k as int), n));
                    assert(names_contain(before, n));
                    let j = choose|j: int| 0 <= j < before.len() && #[trigger] before[j]@ == n;
                    assert(existing_names@[j] == before[j]);
                } else {
                    assert(existing_names@[before.len() as int]@ == n);
                }
            }
        }
        k = k + 1;
    }
    assert(ev.take(existing@.len() as int) =~= ev);
    let discovered_count = discovered.len();
    let existing_count = existing.len();
    let mut models = existing;
    let mut rest = discovered;
    let mut new_count: usize = 0;
    let mut done: usize = 0;
    while rest.len() > 0
        invariant
            dv.len() == discovered_count,
            done + rest@.len() == discovered_count,
            views(rest@) == dv.skip(done as int),
            views(models@) == ev + new_models(ev, dv.take(done as int)),
            new_count == new_models(ev, dv.take(done as int)).len(),
            new_count <= done,
            forall|n: Seq<char>|
                #![trigger names_contain(existing_names@, n)]
                names_contain(existing_names@, n) == has_name(ev, n),
        decreases rest@.len(),
    {
        let ghost old_rest = rest@;
        let model = rest.remove(0);
        proof {
            assert forall|i: int| 0 <= i < rest@.len() implies views(rest@)[i] == dv.skip(done + 1)[i] by {
                assert(rest@[i] == old_rest[i + 1]);
                assert(views(old_rest)[i + 1] == dv.skip(done as int)[i + 1]);
            }
            assert(dv.skip(done as int)[0] == model@);
            assert(dv.take(done + 1).drop_last() =~= dv.take(done as int));
            assert(dv.take(done + 1).last() == model@);
            assert(views(rest@) =~= dv.skip(done + 1));
        }
        let is_new_model = match model_name(&model) {
            Some(name) => !contains_name(&existing_names, name),
            None => false,
        };
        let ghost before = models@;
        if is_new_model {
            models.push(model);
            new_count = new_count + 1;
            assert(views(models@) =~= views(before).push(dv.take(done + 1).last()));
        }
        done = done + 1;
    }
    assert(dv.take(done as int) =~= dv);
    MergedModels { models, discovered_count, existing_count, new_count }
}

/// The model has a string `name` that no existing entry has as its string
/// `name`.
pub open spec fn named_freshly(existing: Seq<JsonV>, model: JsonV) -> bool {
    &&& member(model, "name"@) matches Some(JsonV::Str(n))
    &&& forall|i: int|
        0 <= i < existing.len() ==> member(#[trigger] existing[i], "name"@) != member(
            model,
            "name"@,
        )
}

/// The merge keeps the existing entries as they are, in front, and appends,
/// in their order, exactly the discovered models with a string `name` that no
/// existing entry has; discovered models without such a name are dropped.
pub proof fn lemma_merge_appends_fresh_names(existing: Seq<JsonV>, discovered: Seq<JsonV>)
    ensures
        new_models(existing, discovered) == discovered.filter(
            |model: JsonV| named_freshly(existing, model),
        ),
    decreases discovered.len(),
{
    reveal(Seq::filter);
    if discovered.len() > 0 {
        lemma_merge_appends_fresh_names(existing, discovered.drop_last());
        let d = discovered.last();
        if is_new(existing, d) {
            let n = name_of(d)->0;
            assert forall|i: int| 0 <= i < existing.len() implies member(
                #[trigger] existing[i],
                "name"@,
            ) != member(d, "name"@) by {
                if member(existing[i], "name"@) == member(d, "name"@) {
                    assert(name_of(existing[i]) == Some(n));
                }
            }
        }
        if named_freshly(existing, d) {
            if has_name(existing, name_of(d)->0) {
                let i = choose|i: int|
                    0 <= i < existing.len() && #[trigger] name_of(existing[i]) == Some(
                        name_of(d)->0,
                    );
                assert(member(existing[i], "name"@) == member(d, "name"@));
            }
        }
    }
}

} // verus!
