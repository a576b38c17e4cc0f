//! A JSON document as the library reads and writes it.

use vstd::prelude::*;

verus! {

/// A JSON value. Numbers keep their text; objects keep their members in order.
#[derive(Debug, PartialEq, Eq)]
pub enum Json {
    Null,
    Bool(bool),
    Number(String),
    Str(String),
    Array(Vec<Json>),
    Object(Vec<JsonMember>),
}

/// One `"key": value` member of a JSON object.
#[derive(Debug, PartialEq, Eq)]
pub struct JsonMember {
    pub key: String,
    pub value: Json,
}

/// The mathematical value of a JSON document.
pub enum JsonV {
    Null,
    Bool(bool),
    Number(Seq<char>),
    Str(Seq<char>),
    Array(Seq<JsonV>),
    Object(Seq<(Seq<char>, JsonV)>),
}

/// The mathematical value of a `Json`.
pub open spec fn json_view(j: Json) -> JsonV
    decreases j,
{
    match j {
        Json::Null => JsonV::Null,
        Json::Bool(b) => JsonV::Bool(b),
        Json::Number(n) => JsonV::Number(n@),
        Json::Str(s) => JsonV::Str(s@),
        Json::Array(items) => {
            proof {
                assert forall|i: int| 0 <= i < items@.len() implies decreases_to!(j => items@[i]) by {
                    assert(decreases_to!(j => items));
                    assert(decreases_to!(items => items@));
                    assert(decreases_to!(items@ => items@[i]));
                }
            }
            JsonV::Array(Seq::new(items@.len(), |i: int| if 0 <= i < items@.len() { json_view(items@[i]) } else { JsonV::Null }))
        },
        Json::Object(members) => {
            proof {
                assert forall|i: int| 0 <= i < members@.len() implies decreases_to!(j => members@[i].value) by {
                    assert(decreases_to!(j => members));
                    assert(decreases_to!(members => members@));
                    assert(decreases_to!(members@ => members@[i]));
                    assert(decreases_to!(members@[i] => members@[i].value));
                }
            }
            JsonV::Object(
                Seq::new(members@.len(), |i: int|
                    if 0 <= i < members@.len() {
                        (members@[i].key@, json_view(members@[i].value))
                    } else {
                        (Seq::empty(), JsonV::Null)
                    }),
            )
        },
    }
}


impl View for Json {
    type V = JsonV;

    open spec fn view(&self) -> JsonV {
        json_view(*self)
    }
}

/// An object whose members read, in order, as `s` has that value.
pub proof fn lemma_object_view(members: Vec<JsonMember>, s: Seq<(Seq<char>, JsonV)>)
    requires
        members@.len() == s.len(),
        forall|i: int|
            0 <= i < s.len() ==> (#[trigger] members@[i]).key@ == s[i].0 && members@[i].value@
                == s[i].1,
    ensures
        Json::Object(members)@ == JsonV::Object(s),
{
    let ws = match Json::Object(members)@ {
        JsonV::Object(ws) => ws,
        _ => Seq::empty(),
    };
    assert(ws =~= s);
}

/// The values of a list of JSON documents.
pub open spec fn views(models: Seq<Json>) -> Seq<JsonV> {
    models.map_values(|j: Json| j@)
}

/// The value of the first member named `key`.
pub open spec fn lookup(members: Seq<(Seq<char>, JsonV)>, key: Seq<char>) -> Option<JsonV>
    decreases members.len(),
{
    if members.len() == 0 {
        None
    } else if members[0].0 == key {
        Some(members[0].1)
    } else {
        lookup(members.drop_first(), key)
    }
}

/// The value of member `key` of an object; nothing for other values.
pub open spec fn member(v: JsonV, key: Seq<char>) -> Option<JsonV> {
    match v {
        JsonV::Object(members) => lookup(members, key),
        _ => None,
    }
}

/// The text of a JSON string; nothing for other values.
pub open spec fn text_of(v: Option<JsonV>) -> Option<Seq<char>> {
    match v {
        Some(JsonV::Str(s)) => Some(s),
        _ => None,
    }
}

/// The `name` of a model entry, when it is a string.
pub open spec fn name_of(v: JsonV) -> Option<Seq<char>> {
    text_of(member(v, "name"@))
}

/// The first member named `key` is at index `i`, or there is none when `i` is
/// the length.
pub proof fn lemma_lookup_index(members: Seq<(Seq<char>, JsonV)>, key: Seq<char>, i: int)
    requires
        0 <= i <= members.len(),
        forall|j: int| 0 <= j < i ==> (#[trigger] members[j]).0 != key,
        i < members.len() ==> members[i].0 == key,
    ensures
        lookup(members, key) == if i < members.len() {
            Some(members[i].1)
        } else {
            None::<JsonV>
        },
    decreases i,
{
    if i > 0 {
        assert(members[0].0 != key);
        let rest = members.drop_first();
        assert forall|j: int| 0 <= j < i - 1 implies (#[trigger] rest[j]).0 != key by {
            assert(rest[j] == members[j + 1]);
        }
        lemma_lookup_index(rest, key, i - 1);
    }
}

/// The index of the first member named `key`, or the number of members.
fn find_member(members: &Vec<JsonMember>, key: &str) -> (i: usize)
    ensures
        i <= members.len(),
        forall|j: int| 0 <= j < i ==> (#[trigger] members@[j]).key@ != key@,
        i < members.len() ==> members@[i as int].key@ == key@,
{
    let wanted = String::from_str(key);
    let mut i: usize = 0;
    while i < members.len()
        invariant
            i <= members.len(),
            wanted@ == key@,
            forall|j: int| 0 <= j < i ==> (#[trigger] members@[j]).key@ != key@,
        decreases members.len() - i,
    {
        if members[i].key == wanted {
            return i;
        }
        i = i + 1;
    }
    i
}

impl Json {
    /// Member `key` of an object, by reference; `None` for a missing member or
    /// a value that is not an object.
    pub fn get(&self, key: &str) -> (r: Option<&Json>)
        ensures
            match r {
                Some(v) => member(self@, key@) == Some(v@),
                None => member(self@, key@) is None,
            },
    {
        match self {
            Json::Object(members) => {
                let i = find_member(members, key);
                let ghost vm = Seq::new(
                    members@.len(),
                    |j: int|
                        if 0 <= j < members@.len() {
                            (members@[j].key@, json_view(members@[j].value))
                        } else {
                            (Seq::empty(), JsonV::Null)
                        },
                );
                assert(self@ == JsonV::Object(vm)) by {
                    let ws = match self@ {
                        JsonV::Object(ws) => ws,
                        _ => Seq::empty(),
                    };
                    assert(ws =~= vm);
                }
                proof {
                    lemma_lookup_index(vm, key@, i as int);
                }
                if i < members.len() {
                    Some(&members[i].value)
                } else {
                    None
                }
            },
            _ => None,
        }
    }

    /// Member `key` of an object, taken out of it.
    pub fn take(self, key: &str) -> (r: Option<Json>)
        ensures
            match r {
                Some(v) => member(self@, key@) == Some(v@),
                None => member(self@, key@) is None,
            },
    {
        let ghost whole = self@;
        match self {
            Json::Object(members) => {
                let mut members = members;
                let i = find_member(&members, key);
                let ghost vm = Seq::new(
                    members@.len(),
                    |j: int|
                        if 0 <= j < members@.len() {
                            (members@[j].key@, json_view(members@[j].value))
                        } else {
                            (Seq::empty(), JsonV::Null)
                        },
                );
                assert(whole == JsonV::Object(vm)) by {
                    let ws = match whole {
                        JsonV::Object(ws) => ws,
                        _ => Seq::empty(),
                    };
                    assert(ws =~= vm);
                }
                proof {
                    lemma_lookup_index(vm, key@, i as int);
                }
                if i < members.len() {
                    let m = members.remove(i);
                    Some(m.value)
                } else {
                    None
                }
            },
            _ => None,
        }
    }

    /// The text of a string value.
    pub fn as_str(&self) -> (r: Option<&String>)
        ensures
            match r {
                Some(s) => self@ == JsonV::Str(s@),
                None => !(self@ is Str),
            },
    {
        match self {
            Json::Str(s) => Some(s),
            _ => None,
        }
    }

    /// The items of an array value, taken out of it.
    pub fn into_array(self) -> (r: Option<Vec<Json>>)
        ensures
            match r {
                Some(items) => self@ == JsonV::Array(items@.map_values(|j: Json| j@)),
                None => !(self@ is Array),
            },
    {
        let ghost whole = self@;
        match self {
            Json::Array(items) => {
                assert(whole == JsonV::Array(items@.map_values(|j: Json| j@))) by {
                    let ws = match whole {
                        JsonV::Array(ws) => ws,
                        _ => Seq::empty(),
                    };
                    assert(ws =~= items@.map_values(|j: Json| j@));
                }
                Some(items)
            },
            _ => None,
        }
    }
}

/// The decimal digit `d` as a character.
pub open spec fn digit_char(d: nat) -> char {
    if d == 0 {
        '0'
    } else if d == 1 {
        '1'
    } else if d == 2 {
        '2'
    } else if d == 3 {
        '3'
    } else if d == 4 {
        '4'
    } else if d == 5 {
        '5'
    } else if d == 6 {
        '6'
    } else if d == 7 {
        '7'
    } else if d == 8 {
        '8'
    } else {
        '9'
    }
}

/// The decimal text of `n`, without sign or leading zeros.
pub open spec fn decimal(n: nat) -> Seq<char>
    decreases n,
{
    if n < 10 {
        seq![digit_char(n)]
    } else {
        decimal(n / 10) + seq![digit_char(n % 10)]
    }
}

/// The text of one decimal digit.
fn digit_text(d: u64) -> (s: &'static str)
    requires
        d < 10,
    ensures
        s@ == seq![digit_char(d as nat)],
{
    proof {
        reveal_strlit("0");
        reveal_strlit("1");
        reveal_strlit("2");
        reveal_strlit("3");
        reveal_strlit("4");
        reveal_strlit("5");
        reveal_strlit("6");
        reveal_strlit("7");
        reveal_strlit("8");
        reveal_strlit("9");
    }
    if d == 0 {
        assert("0"@ =~= seq!['0']);
        "0"
    } else if d == 1 {
        assert("1"@ =~= seq!['1']);
        "1"
    } else if d == 2 {
        assert("2"@ =~= seq!['2']);
        "2"
    } else if d == 3 {
        assert("3"@ =~= seq!['3']);
        "3"
    } else if d == 4 {
        assert("4"@ =~= seq!['4']);
        "4"
    } else if d == 5 {
        assert("5"@ =~= seq!['5']);
        "5"
    } else if d == 6 {
        assert("6"@ =~= seq!['6']);
        "6"
    } else if d == 7 {
        assert("7"@ =~= seq!['7']);
        "7"
    } else if d == 8 {
        assert("8"@ =~= seq!['8']);
        "8"
    } else {
        assert("9"@ =~= seq!['9']);
        "9"
    }
}

/// The decimal text of `n`, as JSON writes a whole number.
pub fn decimal_text(n: u64) -> (s: String)
    ensures
        s@ == decimal(n as nat),
    decreases n,
{
    if n < 10 {
        String::from_str(digit_text(n))
    } else {
        let mut s = decimal_text(n / 10);
        s.append(digit_text(n % 10));
        s
    }
}

/// The `name` of a model entry, when it is a string.
pub fn model_name(model: &Json) -> (r: Option<&String>)
    ensures
        match r {
            Some(s) => name_of(model@) == Some(s@),
            None => name_of(model@) is None,
        },
{
    match model.get("name") {
        Some(v) => v.as_str(),
        None => None,
    }
}

/// The number that a text of decimal digits stands for, read from the left.
pub open spec fn digits_value(text: Seq<char>) -> int
    decreases text.len(),
{
    if text.len() == 0 {
        0
    } else {
        10 * digits_value(text.drop_last()) + (text.last() as int - '0' as int)
    }
}

/// A digit's character stands for the digit.
proof fn lemma_digit_char_value(d: nat)
    requires
        d < 10,
    ensures
        digit_char(d) as int - '0' as int == d,
        '0' <= digit_char(d) <= '9',
{
    if d == 0 {
    } else if d == 1 {
    } else if d == 2 {
    } else if d == 3 {
    } else if d == 4 {
    } else if d == 5 {
    } else if d == 6 {
    } else if d == 7 {
    } else if d == 8 {
    } else {
    }
}

/// The decimal text of `n` is made of digits, has no leading zero, and reads
/// back as `n`.
pub proof fn lemma_decimal_reads_back(n: nat)
    ensures
        digits_value(decimal(n)) == n,
        decimal(n).len() > 0,
        forall|i: int| 0 <= i < decimal(n).len() ==> '0' <= #[trigger] decimal(n)[i] <= '9',
        decimal(n).len() > 1 ==> decimal(n)[0] != '0',
        n > 0 ==> decimal(n)[0] != '0',
        decimal(n).len() > 1 <==> n >= 10,
    decreases n,
{
    let s = decimal(n);
    if n < 10 {
        lemma_digit_char_value(n);
        assert(s =~= seq![digit_char(n)]);
        assert(s.drop_last() =~= Seq::<char>::empty());
        assert(digits_value(s.drop_last()) == 0);
        assert(digits_value(s) == 10 * digits_value(s.drop_last()) + (s.last() as int - '0' as int));
    } else {
        lemma_decimal_reads_back(n / 10);
        lemma_digit_char_value(n % 10);
        assert(s.drop_last() =~= decimal(n / 10));
        assert(s.last() == digit_char(n % 10));
        assert(n == 10 * (n / 10) + n % 10);
        assert(digits_value(s) == 10 * digits_value(s.drop_last()) + (s.last() as int - '0' as int));
        assert(digits_value(s) == 10 * (n / 10) + n % 10);
        assert forall|i: int| 0 <= i < s.len() implies '0' <= #[trigger] s[i] <= '9' by {
            if i < s.len() - 1 {
                assert(s[i] == decimal(n / 10)[i]);
            }
        }
        assert(s[0] == decimal(n / 10)[0]);
    }
}

} // verus!
