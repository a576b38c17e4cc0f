//! How `serde_json` keeps a JSON-with-comments document once
//! `jsonc_parser` has read it: objects become maps ordered by key, where a
//! later member with the same name wins; numbers are parsed and printed again.

use vstd::prelude::*;

use crate::json::{decimal, lookup, member, JsonV};
use crate::models::{capabilities_json, model_json, ZedModel};
use crate::order::{
    lemma_name_before_irreflexive, lemma_name_before_total, lemma_name_before_transitive, name_before,
};
use crate::tree::set_member;

verus! {

/// The text that `serde_json` prints for a number literal after parsing it
/// with `Number::from_str`; nothing when it does not parse, and the literal is
/// then kept as a string.
pub uninterp spec fn serde_number(literal: Seq<char>) -> Option<Seq<char>>;

/// The literal is the decimal text of a `u64`; `serde_json` keeps such a
/// number as that `u64` and prints it as the same text.
pub open spec fn is_u64_text(literal: Seq<char>) -> bool {
    exists|n: u64| decimal(n as nat) == literal
}

/// The literal is `-` and the decimal text of a number from 1 to 2^63;
/// `serde_json` keeps such a number as an `i64` and prints it as the same
/// text.
pub open spec fn is_negative_i64_text(literal: Seq<char>) -> bool {
    exists|m: u64| 1 <= m <= 0x8000_0000_0000_0000 && seq!['-'] + decimal(m as nat) == literal
}

/// Members ordered by key, with `(key, v)` put at its place; a member with
/// that key is replaced.
pub open spec fn sorted_insert(sorted: Seq<(Seq<char>, JsonV)>, key: Seq<char>, v: JsonV) -> Seq<
    (Seq<char>, JsonV),
>
    decreases sorted.len(),
{
    if sorted.len() == 0 {
        seq![(key, v)]
    } else if sorted[0].0 == key {
        sorted.update(0, (key, v))
    } else if name_before(key, sorted[0].0) {
        seq![(key, v)] + sorted
    } else {
        seq![sorted[0]] + sorted_insert(sorted.drop_first(), key, v)
    }
}

/// The map that inserting `members`, in order, into `map` gives.
pub open spec fn insert_all(map: Seq<(Seq<char>, JsonV)>, members: Seq<(Seq<char>, JsonV)>) -> Seq<
    (Seq<char>, JsonV),
>
    decreases members.len(),
{
    if members.len() == 0 {
        map
    } else {
        insert_all(sorted_insert(map, members[0].0, members[0].1), members.drop_first())
    }
}

/// The value of a document as `serde_json` keeps it, given what it makes of
/// number literals that are not `u64` texts.
pub open spec fn serde_reading(v: JsonV, number: spec_fn(Seq<char>) -> Option<Seq<char>>) -> JsonV
    decreases v,
{
    match v {
        JsonV::Number(literal) => if is_u64_text(literal) || is_negative_i64_text(literal) {
            JsonV::Number(literal)
        } else {
            match number(literal) {
                Some(printed) => JsonV::Number(printed),
                None => JsonV::Str(literal),
            }
        },
        JsonV::Array(items) => {
            proof {
                assert forall|i: int| 0 <= i < items.len() implies decreases_to!(v => items[i]) by {
                    assert(decreases_to!(v => items));
                    assert(decreases_to!(items => items[i]));
                }
            }
            JsonV::Array(
                Seq::new(
                    items.len(),
                    |i: int|
                        if 0 <= i < items.len() {
                            serde_reading(items[i], number)
                        } else {
                            JsonV::Null
                        },
                ),
            )
        },
        JsonV::Object(members) => {
            proof {
                assert(decreases_to!(v => members));
            }
            JsonV::Object(insert_all(Seq::empty(), read_members(members, number)))
        },
        _ => v,
    }
}

/// A document as `serde_json` keeps it, if there is one.
pub open spec fn serde_document(
    document: Option<JsonV>,
    number: spec_fn(Seq<char>) -> Option<Seq<char>>,
) -> Option<JsonV> {
    match document {
        Some(v) => Some(serde_reading(v, number)),
        None => None,
    }
}


/// How many members are named `key`.
pub open spec fn key_count(members: Seq<(Seq<char>, JsonV)>, key: Seq<char>) -> nat
    decreases members.len(),
{
    if members.len() == 0 {
        0
    } else {
        (if members[0].0 == key {
            1nat
        } else {
            0nat
        }) + key_count(members.drop_first(), key)
    }
}

/// The value of the last member named `key`.
pub open spec fn last_lookup(members: Seq<(Seq<char>, JsonV)>, key: Seq<char>) -> Option<JsonV>
    decreases members.len(),
{
    if members.len() == 0 {
        None
    } else {
        let rest = last_lookup(members.drop_first(), key);
        if rest is Some {
            rest
        } else if members[0].0 == key {
            Some(members[0].1)
        } else {
            None
        }
    }
}

/// The members with their values as `serde_json` keeps them.
pub open spec fn read_members(
    members: Seq<(Seq<char>, JsonV)>,
    number: spec_fn(Seq<char>) -> Option<Seq<char>>,
) -> Seq<(Seq<char>, JsonV)>
    decreases members,
{
    proof {
        assert forall|i: int| 0 <= i < members.len() implies decreases_to!(members => members[i].1) by {
            assert(decreases_to!(members => members[i]));
            assert(decreases_to!(members[i] => members[i].1));
        }
    }
    Seq::new(
        members.len(),
        |i: int|
            if 0 <= i < members.len() {
                (members[i].0, serde_reading(members[i].1, number))
            } else {
                (Seq::empty(), JsonV::Null)
            },
    )
}

/// Setting a member keeps how often each name occurs, but for a missing
/// name, which then occurs once.
pub proof fn lemma_set_member_count(
    members: Seq<(Seq<char>, JsonV)>,
    key: Seq<char>,
    v: JsonV,
    other: Seq<char>,
)
    ensures
        key_count(set_member(members, key, v), other) == if other != key {
            key_count(members, other)
        } else if key_count(members, key) == 0 {
            1
        } else {
            key_count(members, key)
        },
    decreases members.len(),
{
    let s = set_member(members, key, v);
    if members.len() == 0 {
        assert(s =~= seq![(key, v)]);
        assert(s.drop_first() =~= Seq::<(Seq<char>, JsonV)>::empty());
        assert(key_count(s.drop_first(), other) == 0);
    } else if members[0].0 == key {
        assert(s.drop_first() =~= members.drop_first());
        assert(s[0].0 == key);
    } else {
        lemma_set_member_count(members.drop_first(), key, v, other);
        assert(s.drop_first() =~= set_member(members.drop_first(), key, v));
        assert(s[0] == members[0]);
    }
}

/// Each member's name comes strictly before the next one's.
pub open spec fn names_ascending(members: Seq<(Seq<char>, JsonV)>) -> bool {
    forall|i: int| 0 <= i < members.len() - 1 ==> name_before(#[trigger] members[i].0, members[i + 1].0)
}

/// A key after every key of a map goes at its end.
proof fn lemma_sorted_insert_after(map: Seq<(Seq<char>, JsonV)>, key: Seq<char>, v: JsonV)
    requires
        forall|i: int| 0 <= i < map.len() ==> name_before(#[trigger] map[i].0, key),
    ensures
        sorted_insert(map, key, v) == map.push((key, v)),
    decreases map.len(),
{
    if map.len() == 0 {
        assert(seq![(key, v)] =~= map.push((key, v)));
    } else {
        lemma_name_before_total(map[0].0, key);
        lemma_name_before_irreflexive(key);
        assert(name_before(map[0].0, key));
        assert(map[0].0 != key);
        assert(!name_before(key, map[0].0));
        let rest = map.drop_first();
        assert forall|i: int| 0 <= i < rest.len() implies name_before(#[trigger] rest[i].0, key) by {
            assert(rest[i] == map[i + 1]);
        }
        lemma_sorted_insert_after(rest, key, v);
        assert(seq![map[0]] + rest.push((key, v)) =~= map.push((key, v)));
    }
}

/// Inserting members whose names go up, all after the map's, appends them.
proof fn lemma_insert_all_ascending(map: Seq<(Seq<char>, JsonV)>, rest: Seq<(Seq<char>, JsonV)>)
    requires
        names_ascending(rest),
        rest.len() > 0 ==> forall|i: int| 0 <= i < map.len() ==> name_before(#[trigger] map[i].0, rest[0].0),
    ensures
        insert_all(map, rest) == map + rest,
    decreases rest.len(),
{
    if rest.len() == 0 {
        assert(map + rest =~= map);
    } else {
        lemma_sorted_insert_after(map, rest[0].0, rest[0].1);
        assert(rest[0] == (rest[0].0, rest[0].1));
        let next = map.push(rest[0]);
        let tail = rest.drop_first();
        assert forall|i: int| 0 <= i < tail.len() - 1 implies name_before(
            #[trigger] tail[i].0,
            tail[i + 1].0,
        ) by {
            assert(tail[i] == rest[i + 1]);
            assert(tail[i + 1] == rest[i + 2]);
            assert(name_before(rest[i + 1].0, rest[(i + 1) + 1].0));
        }
        if tail.len() > 0 {
            assert(name_before(rest[0].0, rest[0int + 1].0));
            assert(tail[0] == rest[1]);
            assert forall|i: int| 0 <= i < next.len() implies name_before(
                #[trigger] next[i].0,
                tail[0].0,
            ) by {
                if i < map.len() {
                    assert(next[i] == map[i]);
                    lemma_name_before_transitive(map[i].0, rest[0].0, rest[1].0);
                }
            }
        }
        lemma_insert_all_ascending(next, tail);
        assert(next + tail =~= map + rest);
    }
}

/// An object whose names go up and whose values `serde_json` keeps as they
/// are is kept as it is.
pub proof fn lemma_serde_keeps_object(
    members: Seq<(Seq<char>, JsonV)>,
    number: spec_fn(Seq<char>) -> Option<Seq<char>>,
)
    requires
        names_ascending(members),
        forall|i: int|
            0 <= i < members.len() ==> serde_reading(#[trigger] members[i].1, number) == members[i].1,
    ensures
        serde_reading(JsonV::Object(members), number) == JsonV::Object(members),
{
    let read = read_members(members, number);
    assert forall|i: int| 0 <= i < members.len() implies read[i] == members[i] by {
        assert(members[i] == (members[i].0, members[i].1));
    }
    assert(read =~= members);
    lemma_insert_all_ascending(Seq::empty(), members);
    assert(Seq::<(Seq<char>, JsonV)>::empty() + members =~= members);
}

/// The entry written for a Zed model reads back through `serde_json` as
/// itself: its names are in key order and its numbers are `u64` texts.
pub proof fn lemma_model_json_read_back(m: ZedModel, number: spec_fn(Seq<char>) -> Option<Seq<char>>)
    ensures
        serde_reading(model_json(m), number) == model_json(m),
{
    reveal_strlit("images");
    reveal_strlit("interleaved_reasoning");
    reveal_strlit("parallel_tool_calls");
    reveal_strlit("prompt_cache_key");
    reveal_strlit("tools");
    reveal_strlit("capabilities");
    reveal_strlit("max_output_tokens");
    reveal_strlit("max_tokens");
    reveal_strlit("name");
    reveal_strlit("reasoning_effort");
    reveal_with_fuel(name_before, 6);
    assert(name_before("images"@, "interleaved_reasoning"@));
    assert(name_before("interleaved_reasoning"@, "parallel_tool_calls"@));
    assert(name_before("parallel_tool_calls"@, "prompt_cache_key"@));
    assert(name_before("prompt_cache_key"@, "tools"@));
    assert(name_before("capabilities"@, "max_output_tokens"@));
    assert(name_before("capabilities"@, "max_tokens"@));
    assert(name_before("max_output_tokens"@, "max_tokens"@));
    assert(name_before("max_tokens"@, "name"@));
    assert(name_before("name"@, "reasoning_effort"@));
    let caps = match capabilities_json(m.capabilities) {
        JsonV::Object(ms) => ms,
        _ => Seq::empty(),
    };
    assert forall|i: int| 0 <= i < caps.len() - 1 implies name_before(
        #[trigger] caps[i].0,
        caps[i + 1].0,
    ) by {
        if i == 0 {
        } else if i == 1 {
        } else if i == 2 {
        } else {
        }
    }
    lemma_serde_keeps_object(caps, number);
    let members = match model_json(m) {
        JsonV::Object(ms) => ms,
        _ => Seq::empty(),
    };
    assert(is_u64_text(decimal(m.max_tokens as nat)));
    if let Some(cap) = m.max_output_tokens {
        assert(is_u64_text(decimal(cap as nat)));
    }
    assert forall|i: int| 0 <= i < members.len() - 1 implies name_before(
        #[trigger] members[i].0,
        members[i + 1].0,
    ) by {
        let k = if m.max_output_tokens is Some { 1int } else { 0int };
        if i == 0 {
        } else if i == k {
        } else if i == k + 1 {
        } else {
        }
    }
    assert forall|i: int| 0 <= i < members.len() implies serde_reading(
        #[trigger] members[i].1,
        number,
    ) == members[i].1 by {
        let k = if m.max_output_tokens is Some { 1int } else { 0int };
        if i == 0 {
        } else if i == k {
        } else if i == k + 1 {
        } else {
        }
    }
    lemma_serde_keeps_object(members, number);
}

/// With at most one member named `key`, the first and the last agree.
proof fn lemma_single_lookup(members: Seq<(Seq<char>, JsonV)>, key: Seq<char>)
    requires
        key_count(members, key) <= 1,
    ensures
        last_lookup(members, key) == lookup(members, key),
        key_count(members, key) == 0 ==> lookup(members, key) is None,
    decreases members.len(),
{
    if members.len() > 0 {
        lemma_single_lookup(members.drop_first(), key);
    }
}

/// Inserting into a map gives the key its value and leaves the others.
proof fn lemma_sorted_insert(sorted: Seq<(Seq<char>, JsonV)>, key: Seq<char>, v: JsonV, other: Seq<char>)
    ensures
        lookup(sorted_insert(sorted, key, v), key) == Some(v),
        other != key ==> lookup(sorted_insert(sorted, key, v), other) == lookup(sorted, other),
    decreases sorted.len(),
{
    let s = sorted_insert(sorted, key, v);
    if sorted.len() == 0 {
        assert(s =~= seq![(key, v)]);
        assert(s.drop_first() =~= Seq::<(Seq<char>, JsonV)>::empty());
    } else if sorted[0].0 == key {
        assert(s.drop_first() =~= sorted.drop_first());
        assert(s[0] == (key, v));
    } else if name_before(key, sorted[0].0) {
        assert(s.drop_first() =~= sorted);
        assert(s[0] == (key, v));
        assert(s.len() > 0);
        if other != key {
            assert(lookup(s, other) == lookup(s.drop_first(), other));
        }
    } else {
        lemma_sorted_insert(sorted.drop_first(), key, v, other);
        assert(s.drop_first() =~= sorted_insert(sorted.drop_first(), key, v));
        assert(s[0] == sorted[0]);
        assert(s.len() > 0);
        if other != key && sorted[0].0 != other {
            assert(lookup(s, other) == lookup(s.drop_first(), other));
        }
    }
}

/// Inserting members in order: the last member with a key wins.
proof fn lemma_insert_all(map: Seq<(Seq<char>, JsonV)>, members: Seq<(Seq<char>, JsonV)>, key: Seq<char>)
    ensures
        lookup(insert_all(map, members), key) == match last_lookup(members, key) {
            Some(v) => Some(v),
            None => lookup(map, key),
        },
    decreases members.len(),
{
    if members.len() > 0 {
        let next = sorted_insert(map, members[0].0, members[0].1);
        lemma_insert_all(next, members.drop_first(), key);
        lemma_sorted_insert(map, members[0].0, members[0].1, key);
    }
}

/// Reading the values keeps names, counts and first members.
proof fn lemma_read_members(
    members: Seq<(Seq<char>, JsonV)>,
    key: Seq<char>,
    number: spec_fn(Seq<char>) -> Option<Seq<char>>,
)
    ensures
        key_count(read_members(members, number), key) == key_count(members, key),
        lookup(read_members(members, number), key) == match lookup(members, key) {
            Some(v) => Some(serde_reading(v, number)),
            None => None,
        },
    decreases members.len(),
{
    if members.len() > 0 {
        lemma_read_members(members.drop_first(), key, number);
        assert(read_members(members, number).drop_first() =~= read_members(
            members.drop_first(),
            number,
        ));
    }
}

/// A member that an object has once reads, through `serde_json`, as that
/// member's value read through `serde_json`.
pub proof fn lemma_serde_member(
    object: JsonV,
    key: Seq<char>,
    v: JsonV,
    number: spec_fn(Seq<char>) -> Option<Seq<char>>,
)
    requires
        object matches JsonV::Object(members) && lookup(members, key) == Some(v) && key_count(
            members,
            key,
        ) <= 1,
    ensures
        member(serde_reading(object, number), key) == Some(serde_reading(v, number)),
{
    let members = match object {
        JsonV::Object(members) => members,
        _ => Seq::empty(),
    };
    let read = read_members(members, number);
    let inner = match serde_reading(object, number) {
        JsonV::Object(ms) => ms,
        _ => Seq::empty(),
    };
    assert(inner == insert_all(Seq::empty(), read));
    lemma_read_members(members, key, number);
    lemma_single_lookup(read, key);
    lemma_insert_all(Seq::empty(), read, key);
}

} // verus!
