//! Zed's settings text held as `jsonc_parser`'s concrete syntax tree, which
//! keeps comments and formatting, together with the document that the tree
//! reads as.
//!
//! The tree is changed in place through one object at a time, the "current"
//! object, which is reached from the root by a path of member names. The
//! document is described by `JsonV`: objects keep their members in the order
//! of the text, and a name looks up the first member that has it.

use vstd::prelude::*;

use jsonc_parser::cst::{CstInputValue, CstObject, CstObjectProp, CstRootNode};
use jsonc_parser::errors::ParseError;
use jsonc_parser::ParseOptions;

use crate::json::{lookup, Json, JsonV};

verus! {

/// The members of an object; none for other values.
pub open spec fn members_of(v: JsonV) -> Seq<(Seq<char>, JsonV)> {
    match v {
        JsonV::Object(members) => members,
        _ => Seq::empty(),
    }
}

/// The members with the first member named `key` given the value `v`, or
/// with `(key, v)` appended when there is no such member.
pub open spec fn set_member(members: Seq<(Seq<char>, JsonV)>, key: Seq<char>, v: JsonV) -> Seq<
    (Seq<char>, JsonV),
>
    decreases members.len(),
{
    if members.len() == 0 {
        seq![(key, v)]
    } else if members[0].0 == key {
        members.update(0, (key, v))
    } else {
        seq![members[0]] + set_member(members.drop_first(), key, v)
    }
}

/// The object with member `key` set to `v`, in place or at the end.
pub open spec fn with_member(object: JsonV, key: Seq<char>, v: JsonV) -> JsonV {
    JsonV::Object(set_member(members_of(object), key, v))
}

/// The object that member `key` holds; an empty object when it holds none.
pub open spec fn child_object(object: JsonV, key: Seq<char>) -> JsonV {
    match lookup(members_of(object), key) {
        Some(JsonV::Object(members)) => JsonV::Object(members),
        _ => JsonV::Object(Seq::empty()),
    }
}

/// The object with member `key` made an object: kept when it is one,
/// replaced by an empty object when it holds something else, appended as an
/// empty object when it is missing.
pub open spec fn with_child_object(object: JsonV, key: Seq<char>) -> JsonV {
    if lookup(members_of(object), key) matches Some(JsonV::Object(_)) {
        JsonV::Object(members_of(object))
    } else {
        with_member(object, key, JsonV::Object(Seq::empty()))
    }
}

/// The root as an object: kept when it is one, else an empty object.
pub open spec fn root_as_object(document: Option<JsonV>) -> JsonV {
    match document {
        Some(JsonV::Object(members)) => JsonV::Object(members),
        _ => JsonV::Object(Seq::empty()),
    }
}

/// Every object along `path`, from `v` down, is there and is an object.
pub open spec fn resolves(v: JsonV, path: Seq<Seq<char>>) -> bool
    decreases path.len(),
{
    &&& v is Object
    &&& path.len() > 0 ==> {
        &&& lookup(members_of(v), path[0]) matches Some(JsonV::Object(_))
        &&& resolves(child_object(v, path[0]), path.drop_first())
    }
}

/// The object at `path`.
pub open spec fn object_at(v: JsonV, path: Seq<Seq<char>>) -> JsonV
    decreases path.len(),
{
    if path.len() == 0 {
        v
    } else {
        object_at(child_object(v, path[0]), path.drop_first())
    }
}

/// The document with the object at `path` replaced by `new`.
pub open spec fn replace_at(v: JsonV, path: Seq<Seq<char>>, new: JsonV) -> JsonV
    decreases path.len(),
{
    if path.len() == 0 {
        new
    } else {
        with_member(v, path[0], replace_at(child_object(v, path[0]), path.drop_first(), new))
    }
}

/// A name that the tree writes back as it is: it has no backslash, the one
/// character that the tree's writer does not escape.
pub open spec fn plain_name(name: Seq<char>) -> bool {
    !name.contains('\\')
}

/// A number text of decimal digits without a leading zero.
pub open spec fn plain_integer(text: Seq<char>) -> bool {
    &&& text.len() > 0
    &&& forall|i: int| 0 <= i < text.len() ==> '0' <= #[trigger] text[i] <= '9'
    &&& text.len() > 1 ==> text[0] != '0'
}

/// One or more decimal digits.
pub open spec fn digits(text: Seq<char>) -> bool {
    &&& text.len() > 0
    &&& forall|i: int| 0 <= i < text.len() ==> '0' <= #[trigger] text[i] <= '9'
}

/// Nothing, or a `.` followed by digits.
pub open spec fn fraction_part(text: Seq<char>) -> bool {
    text.len() == 0 || (text[0] == '.' && digits(text.drop_first()))
}

/// Nothing, or `e` or `E`, an optional sign and digits.
pub open spec fn exponent_part(text: Seq<char>) -> bool {
    text.len() == 0 || ((text[0] == 'e' || text[0] == 'E') && {
        let rest = text.drop_first();
        if rest.len() > 0 && (rest[0] == '+' || rest[0] == '-') {
            digits(rest.drop_first())
        } else {
            digits(rest)
        }
    })
}

/// The text without a leading `-`.
pub open spec fn unsigned_part(text: Seq<char>) -> Seq<char> {
    if text.len() > 0 && text[0] == '-' {
        text.drop_first()
    } else {
        text
    }
}

/// A JSON number literal: an optional `-`, an integer part without a
/// leading zero, an optional fraction and an optional exponent.
pub open spec fn json_number_literal(text: Seq<char>) -> bool {
    let body = unsigned_part(text);
    exists|i: int, j: int|
        #![trigger body.subrange(0, i), body.subrange(i, j)]
        0 < i <= j <= body.len() && plain_integer(body.subrange(0, i)) && fraction_part(
            body.subrange(i, j),
        ) && exponent_part(body.subrange(j, body.len() as int))
}

/// A value that the tree writes so that it reads back as itself: names and
/// strings without backslashes, numbers as JSON number literals.
pub open spec fn writes_back(v: JsonV) -> bool
    decreases v,
{
    match v {
        JsonV::Str(s) => plain_name(s),
        JsonV::Number(t) => json_number_literal(t),
        JsonV::Array(items) => forall|i: int| 0 <= i < items.len() ==> writes_back(#[trigger] items[i]),
        JsonV::Object(members) => forall|i: int|
            0 <= i < members.len() ==> plain_name((#[trigger] members[i]).0) && writes_back(
                members[i].1,
            ),
        _ => true,
    }
}

/// Setting a member gives it the new value.
pub proof fn lemma_set_member_lookup(members: Seq<(Seq<char>, JsonV)>, key: Seq<char>, v: JsonV, other: Seq<char>)
    ensures
        lookup(set_member(members, key, v), key) == Some(v),
        other != key ==> lookup(set_member(members, key, v), other) == lookup(members, other),
    decreases members.len(),
{
    let s = set_member(members, key, v);
    if members.len() == 0 {
        assert(s =~= seq![(key, v)]);
        assert(s.drop_first() =~= Seq::<(Seq<char>, JsonV)>::empty());
    } else if members[0].0 == key {
        assert(s.drop_first() =~= members.drop_first());
        assert(s[0] == (key, v));
    } else {
        lemma_set_member_lookup(members.drop_first(), key, v, other);
        assert(s.drop_first() =~= set_member(members.drop_first(), key, v));
        assert(s[0] == members[0]);
        assert(s.len() > 0);
        if other != key && members[0].0 != other {
            assert(lookup(s, other) == lookup(s.drop_first(), other));
        }
    }
}

/// Setting a member twice is setting it once, to the second value.
pub proof fn lemma_set_member_twice(members: Seq<(Seq<char>, JsonV)>, key: Seq<char>, v1: JsonV, v2: JsonV)
    ensures
        set_member(set_member(members, key, v1), key, v2) == set_member(members, key, v2),
    decreases members.len(),
{
    let s1 = set_member(members, key, v1);
    if members.len() == 0 {
        assert(set_member(s1, key, v2) =~= seq![(key, v2)]);
    } else if members[0].0 == key {
        assert(set_member(s1, key, v2) =~= set_member(members, key, v2));
    } else {
        lemma_set_member_twice(members.drop_first(), key, v1, v2);
        assert(s1.drop_first() =~= set_member(members.drop_first(), key, v1));
        assert(set_member(s1, key, v2) =~= set_member(members, key, v2));
    }
}

/// Setting a member to the value it already has changes nothing.
pub proof fn lemma_set_member_same(members: Seq<(Seq<char>, JsonV)>, key: Seq<char>, v: JsonV)
    requires
        lookup(members, key) == Some(v),
    ensures
        set_member(members, key, v) == members,
    decreases members.len(),
{
    if members[0].0 == key {
        assert(set_member(members, key, v) =~= members);
    } else {
        lemma_set_member_same(members.drop_first(), key, v);
        assert(set_member(members, key, v) =~= members);
    }
}

/// Making a member an object and then reading it reads the same object as
/// before; setting it afterwards is setting it directly.
pub proof fn lemma_with_child_object(object: JsonV, key: Seq<char>, x: JsonV)
    ensures
        child_object(with_child_object(object, key), key) == child_object(object, key),
        with_member(with_child_object(object, key), key, x) == with_member(object, key, x),
        with_child_object(object, key) is Object,
        lookup(members_of(with_child_object(object, key)), key) matches Some(JsonV::Object(_)),
{
    let e: JsonV = JsonV::Object(Seq::empty());
    lemma_set_member_lookup(members_of(object), key, e, key);
    lemma_set_member_twice(members_of(object), key, e, x);
}

/// A member set to an object reads back as that object.
pub proof fn lemma_child_of_with_member(object: JsonV, key: Seq<char>, v: JsonV, other: Seq<char>)
    requires
        v is Object,
    ensures
        child_object(with_member(object, key, v), key) == v,
        other != key ==> child_object(with_member(object, key, v), other) == child_object(object, other),
        lookup(members_of(with_member(object, key, v)), key) == Some(v),
{
    lemma_set_member_lookup(members_of(object), key, v, other);
}

/// Setting a member of an object twice is setting it once.
pub proof fn lemma_with_member_twice(object: JsonV, key: Seq<char>, v1: JsonV, v2: JsonV)
    ensures
        with_member(with_member(object, key, v1), key, v2) == with_member(object, key, v2),
{
    lemma_set_member_twice(members_of(object), key, v1, v2);
}

/// Setting a missing member appends it.
pub proof fn lemma_set_member_missing(members: Seq<(Seq<char>, JsonV)>, key: Seq<char>, v: JsonV)
    requires
        lookup(members, key) is None,
    ensures
        set_member(members, key, v) == members.push((key, v)),
    decreases members.len(),
{
    if members.len() == 0 {
        assert(set_member(members, key, v) =~= members.push((key, v)));
    } else {
        lemma_set_member_missing(members.drop_first(), key, v);
        assert(set_member(members, key, v) =~= members.push((key, v)));
    }
}

/// Replacing the object at a path that resolves by an object: the path still
/// resolves, and leads to the new object.
pub proof fn lemma_replace_at(d: JsonV, path: Seq<Seq<char>>, new: JsonV)
    requires
        resolves(d, path),
        new is Object,
    ensures
        resolves(replace_at(d, path, new), path),
        object_at(replace_at(d, path, new), path) == new,
    decreases path.len(),
{
    if path.len() > 0 {
        let c = child_object(d, path[0]);
        lemma_replace_at(c, path.drop_first(), new);
        let r = replace_at(c, path.drop_first(), new);
        lemma_child_of_with_member(d, path[0], r, path[0]);
    }
}

/// A path that resolves, extended by a member that holds an object,
/// resolves to that object.
pub proof fn lemma_resolves_push(d: JsonV, path: Seq<Seq<char>>, key: Seq<char>)
    requires
        resolves(d, path),
        lookup(members_of(object_at(d, path)), key) matches Some(JsonV::Object(_)),
    ensures
        resolves(d, path.push(key)),
        object_at(d, path.push(key)) == child_object(object_at(d, path), key),
    decreases path.len(),
{
    let p = path.push(key);
    if path.len() == 0 {
        assert(p.drop_first() =~= Seq::<Seq<char>>::empty());
        assert(p[0] == key);
        assert(object_at(d, path) == d);
        assert(resolves(child_object(d, key), p.drop_first()));
        assert(object_at(child_object(d, key), p.drop_first()) == child_object(d, key));
    } else {
        assert(p.drop_first() =~= path.drop_first().push(key));
        assert(p[0] == path[0]);
        assert(object_at(d, path) == object_at(child_object(d, path[0]), path.drop_first()));
        lemma_resolves_push(child_object(d, path[0]), path.drop_first(), key);
    }
}

/// Opening member `name` of the object at `path`: the longer path resolves,
/// to the object that the member held, or to an empty one.
pub proof fn lemma_open_child(d: JsonV, path: Seq<Seq<char>>, name: Seq<char>)
    requires
        resolves(d, path),
    ensures
        resolves(
            replace_at(d, path, with_child_object(object_at(d, path), name)),
            path.push(name),
        ),
        object_at(
            replace_at(d, path, with_child_object(object_at(d, path), name)),
            path.push(name),
        ) == child_object(object_at(d, path), name),
{
    let new = with_child_object(object_at(d, path), name);
    lemma_with_child_object(object_at(d, path), name, new);
    lemma_replace_at(d, path, new);
    lemma_resolves_push(replace_at(d, path, new), path, name);
}

/// Paths of up to three names, written out.
pub proof fn lemma_paths(d: JsonV, a: Seq<char>, b: Seq<char>, c: Seq<char>, new: JsonV)
    ensures
        replace_at(d, Seq::<Seq<char>>::empty(), new) == new,
        object_at(d, Seq::<Seq<char>>::empty()) == d,
        replace_at(d, seq![a], new) == with_member(d, a, new),
        object_at(d, seq![a]) == child_object(d, a),
        replace_at(d, seq![a, b], new) == with_member(d, a, with_member(child_object(d, a), b, new)),
        object_at(d, seq![a, b]) == child_object(child_object(d, a), b),
        replace_at(d, seq![a, b, c], new) == with_member(
            d,
            a,
            with_member(
                child_object(d, a),
                b,
                with_member(child_object(child_object(d, a), b), c, new),
            ),
        ),
        object_at(d, seq![a, b, c]) == child_object(child_object(child_object(d, a), b), c),
{
    let e = Seq::<Seq<char>>::empty();
    assert(seq![a].drop_first() =~= e);
    assert(seq![a, b].drop_first() =~= seq![b]);
    assert(seq![b].drop_first() =~= e);
    assert(seq![a, b, c].drop_first() =~= seq![b, c]);
    assert(seq![b, c].drop_first() =~= seq![c]);
    assert(seq![c].drop_first() =~= e);
    let c1 = child_object(d, a);
    let c2 = child_object(c1, b);
    assert(replace_at(c1, e, new) == new);
    assert(object_at(c1, e) == c1);
    assert(replace_at(d, seq![a], new) == with_member(d, a, replace_at(c1, e, new)));
    assert(object_at(d, seq![a]) == object_at(c1, e));
    assert(replace_at(c2, seq![c], new) == with_member(c2, c, replace_at(child_object(c2, c), e, new)));
    assert(replace_at(c1, seq![b, c], new) == with_member(c1, b, replace_at(c2, seq![c], new)));
    assert(object_at(c2, seq![c]) == object_at(child_object(c2, c), e));
    assert(object_at(c1, seq![b, c]) == object_at(c2, seq![c]));
    assert(replace_at(c1, seq![b], new) == with_member(c1, b, replace_at(c2, e, new)));
    assert(object_at(c1, seq![b]) == object_at(c2, e));
}


#[verifier::external_type_specification]
#[verifier::external_body]
pub struct ExCstRootNode(CstRootNode);

#[verifier::external_type_specification]
#[verifier::external_body]
pub struct ExCstObject(CstObject);

#[verifier::external_type_specification]
#[verifier::external_body]
pub struct ExCstObjectProp(CstObjectProp);

#[verifier::external_type_specification]
#[verifier::external_body]
pub struct ExCstInputValue(CstInputValue);

#[verifier::external_type_specification]
#[verifier::external_body]
pub struct ExParseError(ParseError);

/// What a settings tree holds, as far as the library reads it: the document
/// (nothing for a text without a value), the path of the current object, the
/// name of the property last found in it, whether the tree's text reads back
/// as its document, the comments with their places (see `jsonc_comments`),
/// and the place of the current object.
pub struct TreeState {
    pub document: Option<JsonV>,
    pub path: Option<Seq<Seq<char>>>,
    pub found: Option<Seq<char>>,
    pub printable: bool,
    pub comments: Seq<(Seq<int>, Seq<char>)>,
    pub place: Seq<int>,
}

/// The comments of a text, in order, each with its place: the positions,
/// from the outside in, of the values whose text holds the comment. The root
/// value is at position 0; a member of an object, or an element of an array,
/// is at its index among the object's members or the array's elements. A
/// comment outside the root value has the empty place; one between a member's
/// name and its value is outside that value.
pub uninterp spec fn jsonc_comments(text: Seq<char>) -> Seq<(Seq<int>, Seq<char>)>;

/// `at` is `place` or lies within the value at `place`.
pub open spec fn within(place: Seq<int>, at: Seq<int>) -> bool {
    place.len() <= at.len() && at.subrange(0, place.len() as int) == place
}

/// The comments that do not lie within the value at `place`, in order.
pub open spec fn comments_outside(comments: Seq<(Seq<int>, Seq<char>)>, place: Seq<int>) -> Seq<
    (Seq<int>, Seq<char>),
> {
    comments.filter(|c: (Seq<int>, Seq<char>)| !within(place, c.0))
}

/// The index of the first member named `key`; the number of members when
/// there is none.
pub open spec fn member_index(members: Seq<(Seq<char>, JsonV)>, key: Seq<char>) -> int
    decreases members.len(),
{
    if members.len() == 0 {
        0
    } else if members[0].0 == key {
        0
    } else {
        1 + member_index(members.drop_first(), key)
    }
}

/// There is a value, and it is not an object.
pub open spec fn non_object(v: Option<JsonV>) -> bool {
    v matches Some(x) && !(x is Object)
}

/// A settings text held as `jsonc_parser`'s concrete syntax tree. The tree
/// and the handles into it share their nodes, so all of them are kept here
/// and changed only through `&mut self`.
#[verifier::external_body]
pub struct SettingsTree {
    root: CstRootNode,
    current: Option<CstObject>,
    found: Option<CstObjectProp>,
}

/// What a settings tree holds.
pub uninterp spec fn tree_state(tree: SettingsTree) -> TreeState;

/// The document that `CstRootNode::parse` reads from a text with the default
/// options: strings decoded, numbers as their text, members in the order of
/// the text; nothing when the text holds no value.
pub uninterp spec fn jsonc_tree_document(text: Seq<char>) -> Option<JsonV>;

/// Whether `CstRootNode::parse` accepts a text with the default options.
pub uninterp spec fn jsonc_cst_accepts(text: Seq<char>) -> bool;

/// What the tree reads a written value as. The writer escapes only `"`, so
/// a value that does not write back as itself (see `writes_back`) may read
/// as something else.
pub uninterp spec fn jsonc_written(v: JsonV) -> JsonV;

/// The value a written value reads as.
pub open spec fn read_back(v: JsonV) -> JsonV {
    if writes_back(v) {
        v
    } else {
        jsonc_written(v)
    }
}

/// The tree has a current object, and it is an object of the document.
pub open spec fn has_current(s: TreeState) -> bool {
    &&& s.document is Some
    &&& s.path is Some
    &&& resolves(s.document->0, s.path->0)
}

/// The current object.
pub open spec fn current_object(s: TreeState) -> JsonV {
    object_at(s.document->0, s.path->0)
}

/// A `Json` as a `jsonc_parser` input value, variant for variant.
#[verifier::external_body]
fn cst_value(value: Json) -> CstInputValue {
    match value {
        Json::Null => CstInputValue::Null,
        Json::Bool(b) => CstInputValue::Bool(b),
        Json::Number(n) => CstInputValue::Number(n),
        Json::Str(s) => CstInputValue::String(s),
        Json::Array(items) => CstInputValue::Array(items.into_iter().map(cst_value).collect()),
        Json::Object(members) => CstInputValue::Object(
            members.into_iter().map(|m| (m.key, cst_value(m.value))).collect(),
        ),
    }
}

impl SettingsTree {
    /// Calls `CstRootNode::parse` with the default options. Claims that it
    /// succeeds exactly when the text is accepted, that the tree then reads as
    /// the text's document and holds its comments, and that the tree prints a
    /// text that reads back.
    #[verifier::external_body]
    pub fn parse(text: &str) -> (r: Result<SettingsTree, ParseError>)
        ensures
            r is Ok == jsonc_cst_accepts(text@),
            r matches Ok(tree) ==> tree_state(tree) == (TreeState {
                document: jsonc_tree_document(text@),
                path: None,
                found: None,
                printable: true,
                comments: jsonc_comments(text@),
                place: Seq::empty(),
            }),
    {
        match CstRootNode::parse(text, &ParseOptions::default()) {
            Ok(root) => Ok(SettingsTree { root, current: None, found: None }),
            Err(error) => Err(error),
        }
    }

    /// Calls `CstRootNode::object_value_or_set`, which keeps the root when it
    /// is an object and else sets it to an empty object, the comments within
    /// the old root going with it; that object becomes the current object.
    #[verifier::external_body]
    pub fn open_root(&mut self)
        requires
            tree_state(*old(self)).path is None,
            tree_state(*old(self)).found is None,
        ensures
            tree_state(*final(self)) == (TreeState {
                document: Some(root_as_object(tree_state(*old(self)).document)),
                path: Some(Seq::empty()),
                found: None,
                printable: tree_state(*old(self)).printable,
                comments: if non_object(tree_state(*old(self)).document) {
                    comments_outside(tree_state(*old(self)).comments, seq![0int])
                } else {
                    tree_state(*old(self)).comments
                },
                place: seq![0int],
            }),
    {
        self.current = Some(self.root.object_value_or_set());
    }

    /// Calls `CstObject::object_value_or_set` on the current object: member
    /// `name` is kept when it is an object, replaced in place by an empty
    /// object when it holds something else, and appended as an empty object
    /// when it is missing; that object becomes the current object, and the
    /// comments within a replaced value go with it. A missing name with a
    /// backslash is left out: the call writes it unescaped, does not find it
    /// again, and panics.
    #[verifier::external_body]
    pub fn open_child(&mut self, name: &str)
        requires
            has_current(tree_state(*old(self))),
            tree_state(*old(self)).found is None,
            plain_name(name@) || lookup(
                members_of(current_object(tree_state(*old(self)))),
                name@,
            ) is Some,
        ensures
            tree_state(*final(self)) == (TreeState {
                document: Some(
                    replace_at(
                        tree_state(*old(self)).document->0,
                        tree_state(*old(self)).path->0,
                        with_child_object(current_object(tree_state(*old(self))), name@),
                    ),
                ),
                path: Some(tree_state(*old(self)).path->0.push(name@)),
                found: None,
                printable: tree_state(*old(self)).printable,
                comments: if non_object(
                    lookup(members_of(current_object(tree_state(*old(self)))), name@),
                ) {
                    comments_outside(
                        tree_state(*old(self)).comments,
                        tree_state(*old(self)).place.push(
                            member_index(members_of(current_object(tree_state(*old(self)))), name@),
                        ),
                    )
                } else {
                    tree_state(*old(self)).comments
                },
                place: tree_state(*old(self)).place.push(
                    member_index(members_of(current_object(tree_state(*old(self)))), name@),
                ),
            }),
    {
        let child = match &self.current {
            Some(object) => object.object_value_or_set(name),
            None => return,
        };
        self.current = Some(child);
    }

    /// Calls `CstObject::get` on the current object and keeps what it found:
    /// the first property named `name`, if there is one.
    #[verifier::external_body]
    pub fn find_property(&mut self, name: &str) -> (found: bool)
        requires
            has_current(tree_state(*old(self))),
        ensures
            found == lookup(members_of(current_object(tree_state(*old(self)))), name@) is Some,
            tree_state(*final(self)) == (TreeState {
                found: if found {
                    Some(name@)
                } else {
                    None
                },
                ..tree_state(*old(self))
            }),
    {
        self.found = match &self.current {
            Some(object) => object.get(name),
            None => None,
        };
        self.found.is_some()
    }

    /// Calls `CstObjectProp::set_value` on the property last found: its value
    /// is replaced in place, and the comments within the old value go with
    /// it; the other nodes stay.
    #[verifier::external_body]
    pub fn replace_found(&mut self, value: Json)
        requires
            has_current(tree_state(*old(self))),
            tree_state(*old(self)).found is Some,
        ensures
            tree_state(*final(self)).document == Some(
                replace_at(
                    tree_state(*old(self)).document->0,
                    tree_state(*old(self)).path->0,
                    with_member(
                        current_object(tree_state(*old(self))),
                        tree_state(*old(self)).found->0,
                        if writes_back(value@) {
                            value@
                        } else {
                            jsonc_written(value@)
                        },
                    ),
                ),
            ),
            tree_state(*final(self)).path == tree_state(*old(self)).path,
            tree_state(*final(self)).found == tree_state(*old(self)).found,
            tree_state(*final(self)).place == tree_state(*old(self)).place,
            tree_state(*final(self)).comments == comments_outside(
                tree_state(*old(self)).comments,
                tree_state(*old(self)).place.push(
                    member_index(
                        members_of(current_object(tree_state(*old(self)))),
                        tree_state(*old(self)).found->0,
                    ),
                ),
            ),
            tree_state(*old(self)).printable && writes_back(value@) ==> tree_state(
                *final(self),
            ).printable,
    {
        if let Some(prop) = &self.found {
            prop.set_value(cst_value(value));
        }
    }

    /// Calls `CstObject::append` on the current object: the property is
    /// added after the last one; it adds line breaks, indentation and a comma,
    /// and removes no comment.
    #[verifier::external_body]
    pub fn append_property(&mut self, name: &str, value: Json)
        requires
            has_current(tree_state(*old(self))),
            tree_state(*old(self)).found is None,
            plain_name(name@),
        ensures
            tree_state(*final(self)).document == Some(
                replace_at(
                    tree_state(*old(self)).document->0,
                    tree_state(*old(self)).path->0,
                    JsonV::Object(
                        members_of(current_object(tree_state(*old(self)))).push(
                            (
                                name@,
                                if writes_back(value@) {
                                    value@
                                } else {
                                    jsonc_written(value@)
                                },
                            ),
                        ),
                    ),
                ),
            ),
            tree_state(*final(self)).path == tree_state(*old(self)).path,
            tree_state(*final(self)).found is None,
            tree_state(*final(self)).place == tree_state(*old(self)).place,
            tree_state(*final(self)).comments == tree_state(*old(self)).comments,
            tree_state(*old(self)).printable && writes_back(value@) ==> tree_state(
                *final(self),
            ).printable,
    {
        if let Some(object) = &self.current {
            object.append(name, cst_value(value));
        }
    }

    /// Calls `Display::fmt` of `CstRootNode`: the text of the tree, comments
    /// and formatting included. Claims that, while the tree is printable, the
    /// text parses again, reads as the tree's document and has the tree's
    /// comments.
    #[verifier::external_body]
    pub fn text(&self) -> (text: String)
        ensures
            tree_state(*self).printable ==> jsonc_cst_accepts(text@) && jsonc_tree_document(text@)
                == tree_state(*self).document && jsonc_comments(text@) == tree_state(*self).comments,
    {
        self.root.to_string()
    }
}

} // verus!
