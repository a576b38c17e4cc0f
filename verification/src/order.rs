//! The order in which model names are listed: the order of Rust's `str`, that
//! is byte-wise on UTF-8, which is the order of the characters' code points.

use vstd::prelude::*;

verus! {

/// `a` comes strictly before `b`, comparing character by character.
pub open spec fn name_before(a: Seq<char>, b: Seq<char>) -> bool
    decreases a.len(),
{
    if a.len() == 0 {
        b.len() > 0
    } else if b.len() == 0 {
        false
    } else if a[0] == b[0] {
        name_before(a.drop_first(), b.drop_first())
    } else {
        (a[0] as int) < (b[0] as int)
    }
}

/// No name comes before itself.
pub proof fn lemma_name_before_irreflexive(a: Seq<char>)
    ensures
        !name_before(a, a),
    decreases a.len(),
{
    if a.len() > 0 {
        lemma_name_before_irreflexive(a.drop_first());
    }
}

/// Of two different names, one comes before the other, and not both ways.
pub proof fn lemma_name_before_total(a: Seq<char>, b: Seq<char>)
    ensures
        a != b ==> (name_before(a, b) || name_before(b, a)),
        !(name_before(a, b) && name_before(b, a)),
    decreases a.len(),
{
    if a.len() > 0 && b.len() > 0 {
        if a[0] == b[0] {
            lemma_name_before_total(a.drop_first(), b.drop_first());
            if a.drop_first() == b.drop_first() {
                assert(a =~= seq![a[0]] + a.drop_first());
                assert(b =~= seq![b[0]] + b.drop_first());
            }
        } else {
            assert((a[0] as int) != (b[0] as int));
        }
    } else if a.len() == 0 && b.len() == 0 {
        assert(a =~= b);
    }
}

/// The order is transitive.
pub proof fn lemma_name_before_transitive(a: Seq<char>, b: Seq<char>, c: Seq<char>)
    requires
        name_before(a, b),
        name_before(b, c),
    ensures
        name_before(a, c),
    decreases a.len(),
{
    if a.len() > 0 && a[0] == b[0] && b[0] == c[0] {
        lemma_name_before_transitive(a.drop_first(), b.drop_first(), c.drop_first());
    }
}

/// The characters of a text, in order.
pub fn chars_of(s: &str) -> (v: Vec<char>)
    ensures
        v@ == s@,
{
    let n = s.unicode_len();
    let mut v: Vec<char> = Vec::new();
    let mut i: usize = 0;
    while i < n
        invariant
            n == s@.len(),
            i <= n,
            v@ == s@.subrange(0, i as int),
        decreases n - i,
    {
        let c = s.get_char(i);
        v.push(c);
        i = i + 1;
        assert(v@ =~= s@.subrange(0, i as int));
    }
    assert(v@ =~= s@);
    v
}

/// Whether the name `a` comes strictly before the name `b`.
pub fn chars_before(a: &Vec<char>, b: &Vec<char>) -> (r: bool)
    ensures
        r == name_before(a@, b@),
{
    let mut i: usize = 0;
    assert(a@.skip(0) =~= a@);
    assert(b@.skip(0) =~= b@);
    while i < a.len() && i < b.len() && a[i] == b[i]
        invariant
            i <= a.len(),
            i <= b.len(),
            name_before(a@, b@) == name_before(a@.skip(i as int), b@.skip(i as int)),
        decreases a.len() - i,
    {
        assert(a@.skip(i as int).drop_first() =~= a@.skip(i + 1));
        assert(b@.skip(i as int).drop_first() =~= b@.skip(i + 1));
        i = i + 1;
    }
    if i == a.len() {
        i < b.len()
    } else if i == b.len() {
        false
    } else {
        a[i] < b[i]
    }
}

/// Whether two character sequences are equal.
pub fn chars_equal(a: &Vec<char>, b: &Vec<char>) -> (r: bool)
    ensures
        r == (a@ == b@),
{
    if a.len() != b.len() {
        return false;
    }
    let mut i: usize = 0;
    while i < a.len()
        invariant
            i <= a.len(),
            a.len() == b.len(),
            a@.subrange(0, i as int) == b@.subrange(0, i as int),
        decreases a.len() - i,
    {
        if a[i] != b[i] {
            return false;
        }
        i = i + 1;
        assert(a@.subrange(0, i as int) =~= b@.subrange(0, i as int)) by {
            assert forall|j: int| 0 <= j < i implies a@[j] == b@[j] by {
                if j < i - 1 {
                    assert(a@.subrange(0, i - 1)[j] == b@.subrange(0, i - 1)[j]);
                }
            }
        }
    }
    assert(a@ =~= a@.subrange(0, i as int));
    assert(b@ =~= b@.subrange(0, i as int));
    true
}

/// `a` comes before `b` in the order of `str`: at the first place where they
/// differ, `a`'s character has the smaller code point, or `a` is a proper
/// prefix of `b`.
pub open spec fn str_less(a: Seq<char>, b: Seq<char>) -> bool {
    exists|k: int|
        #![trigger a.subrange(0, k)]
        0 <= k <= a.len() && k <= b.len() && a.subrange(0, k) == b.subrange(0, k) && (
        (k == a.len() && k < b.len()) || (k < a.len() && k < b.len() && (a[k] as int) < (
        b[k] as int)))
}

/// The order of names is the order of `str`.
pub proof fn lemma_name_before_is_str_order(a: Seq<char>, b: Seq<char>)
    ensures
        name_before(a, b) == str_less(a, b),
    decreases a.len(),
{
    if a.len() == 0 {
        if b.len() > 0 {
            assert(a.subrange(0, 0) =~= b.subrange(0, 0));
        }
    } else if b.len() == 0 {
    } else if a[0] == b[0] {
        lemma_name_before_is_str_order(a.drop_first(), b.drop_first());
        let a1 = a.drop_first();
        let b1 = b.drop_first();
        if str_less(a1, b1) {
            let k = choose|k: int|
                #![trigger a1.subrange(0, k)]
                0 <= k <= a1.len() && k <= b1.len() && a1.subrange(0, k) == b1.subrange(0, k) && (
                (k == a1.len() && k < b1.len()) || (k < a1.len() && k < b1.len() && (a1[k] as int)
                < (b1[k] as int)));
            assert(a.subrange(0, k + 1) =~= seq![a[0]] + a1.subrange(0, k));
            assert(b.subrange(0, k + 1) =~= seq![b[0]] + b1.subrange(0, k));
            assert(a[k + 1] == a1[k] || k + 1 >= a.len());
        }
        if str_less(a, b) {
            let k = choose|k: int|
                #![trigger a.subrange(0, k)]
                0 <= k <= a.len() && k <= b.len() && a.subrange(0, k) == b.subrange(0, k) && (
                (k == a.len() && k < b.len()) || (k < a.len() && k < b.len() && (a[k] as int) < (
                b[k] as int)));
            assert(k >= 1);
            assert(a1.subrange(0, k - 1) =~= a.subrange(1, k));
            assert(b1.subrange(0, k - 1) =~= b.subrange(1, k));
            assert(a.subrange(1, k) =~= a.subrange(0, k).subrange(1, k));
            assert(b.subrange(1, k) =~= b.subrange(0, k).subrange(1, k));
            assert(a1.subrange(0, k - 1) == b1.subrange(0, k - 1));
        }
    } else {
        assert(a.subrange(0, 0) =~= b.subrange(0, 0));
        if str_less(a, b) {
            let k = choose|k: int|
                #![trigger a.subrange(0, k)]
                0 <= k <= a.len() && k <= b.len() && a.subrange(0, k) == b.subrange(0, k) && (
                (k == a.len() && k < b.len()) || (k < a.len() && k < b.len() && (a[k] as int) < (
                b[k] as int)));
            if k > 0 {
                assert(a.subrange(0, k)[0] == b.subrange(0, k)[0]);
            }
        }
    }
}

} // verus!
