//! The proxy's base URL, as given by the user.

use vstd::prelude::*;

verus! {

/// The text with every trailing `/` removed.
pub open spec fn without_trailing_slashes(s: Seq<char>) -> Seq<char>
    decreases s.len(),
{
    if s.len() > 0 && s.last() == '/' {
        without_trailing_slashes(s.drop_last())
    } else {
        s
    }
}

/// Whether the text ends in `/v1`.
pub open spec fn ends_with_v1(s: Seq<char>) -> bool {
    &&& s.len() >= 3
    &&& s[s.len() - 3] == '/'
    &&& s[s.len() - 2] == 'v'
    &&& s[s.len() - 1] == '1'
}

/// The proxy root that a user's URL names: trailing slashes go first, then
/// one `/v1` suffix, so that both the root and the OpenAI-style base URL work.
pub open spec fn proxy_root(url: Seq<char>) -> Seq<char> {
    let trimmed = without_trailing_slashes(url);
    if ends_with_v1(trimmed) {
        trimmed.subrange(0, trimmed.len() - 3)
    } else {
        trimmed
    }
}

/// Trimming a text whose last character is not `/` leaves it as it is, and
/// trimming never reaches past the characters that are kept.
proof fn lemma_trim_prefix(s: Seq<char>, k: int)
    requires
        0 <= k <= s.len(),
        forall|i: int| k <= i < s.len() ==> s[i] == '/',
    ensures
        without_trailing_slashes(s) == without_trailing_slashes(s.subrange(0, k)),
    decreases s.len() - k,
{
    if k < s.len() {
        assert(s.drop_last() =~= s.subrange(0, s.len() - 1));
        lemma_trim_prefix(s.drop_last(), k);
        assert(s.drop_last().subrange(0, k) =~= s.subrange(0, k));
    } else {
        assert(s.subrange(0, k) =~= s);
    }
}

/// Trimming keeps a prefix, drops only slashes, and leaves no slash at the
/// end.
proof fn lemma_trim_shape(s: Seq<char>)
    ensures
        without_trailing_slashes(s).len() <= s.len(),
        s.subrange(0, without_trailing_slashes(s).len() as int) == without_trailing_slashes(s),
        forall|i: int|
            without_trailing_slashes(s).len() <= i < s.len() ==> #[trigger] s[i] == '/',
        !(without_trailing_slashes(s).len() > 0 && without_trailing_slashes(s).last() == '/'),
    decreases s.len(),
{
    if s.len() > 0 && s.last() == '/' {
        lemma_trim_shape(s.drop_last());
        let t = without_trailing_slashes(s);
        assert(s.drop_last().subrange(0, t.len() as int) =~= s.subrange(0, t.len() as int));
        assert forall|i: int| t.len() <= i < s.len() implies #[trigger] s[i] == '/' by {
            if i < s.len() - 1 {
                assert(s[i] == s.drop_last()[i]);
            }
        }
    } else {
        assert(s.subrange(0, s.len() as int) =~= s);
    }
}

/// The proxy root is what the URL starts with, and what follows it is either
/// nothing but slashes, the root then ending in neither `/` nor `/v1`, or
/// `/v1` followed by nothing but slashes.
pub proof fn lemma_proxy_root_shape(url: Seq<char>)
    ensures
        ({
            let root = proxy_root(url);
            let tail = url.subrange(root.len() as int, url.len() as int);
            &&& root.len() <= url.len()
            &&& url.subrange(0, root.len() as int) == root
            &&& {
                ||| {
                    &&& forall|i: int| 0 <= i < tail.len() ==> #[trigger] tail[i] == '/'
                    &&& !(root.len() > 0 && root.last() == '/')
                    &&& !(root.len() >= 3 && root.subrange(root.len() - 3, root.len() as int)
                        == seq!['/', 'v', '1'])
                }
                ||| {
                    &&& tail.len() >= 3
                    &&& tail.subrange(0, 3) == seq!['/', 'v', '1']
                    &&& forall|i: int| 3 <= i < tail.len() ==> #[trigger] tail[i] == '/'
                }
            }
        }),
{
    let t = without_trailing_slashes(url);
    lemma_trim_shape(url);
    let root = proxy_root(url);
    let tail = url.subrange(root.len() as int, url.len() as int);
    if ends_with_v1(t) {
        assert(root =~= t.subrange(0, t.len() - 3));
        assert(url.subrange(0, root.len() as int) =~= root);
        assert(tail.subrange(0, 3) =~= seq!['/', 'v', '1']) by {
            assert(tail[0] == url[root.len() as int]);
            assert(url[root.len() as int] == t[t.len() - 3]);
            assert(url[root.len() + 1int] == t[t.len() - 2]);
            assert(url[root.len() + 2int] == t[t.len() - 1]);
        }
        assert forall|i: int| 3 <= i < tail.len() implies #[trigger] tail[i] == '/' by {
            assert(tail[i] == url[root.len() + i]);
        }
    } else {
        assert forall|i: int| 0 <= i < tail.len() implies #[trigger] tail[i] == '/' by {
            assert(tail[i] == url[root.len() + i]);
        }
        if root.len() >= 3 && root.subrange(root.len() - 3, root.len() as int) == seq!['/', 'v', '1'] {
            assert(root[root.len() - 3] == '/');
            assert(root[root.len() - 2] == 'v');
            assert(root[root.len() - 1] == '1');
        }
    }
}

/// Strips trailing `/` characters and then one `/v1` suffix, so that the tool
/// accepts either the proxy root or the OpenAI-style base URL.
pub fn normalize_base_url(url: &str) -> (res: String)
    ensures
        res@ == proxy_root(url@),
{
    let n = url.unicode_len();
    let mut k: usize = n;
    while k > 0 && url.get_char(k - 1) == '/'
        invariant
            n == url@.len(),
            k <= n,
            forall|i: int| k <= i < n ==> url@[i] == '/',
        decreases k,
    {
        k = k - 1;
    }
    proof {
        lemma_trim_prefix(url@, k as int);
        if k > 0 {
            assert(url@.subrange(0, k as int).drop_last() =~= url@.subrange(0, k - 1));
        }
    }
    let trimmed = url.substring_char(0, k);
    assert(trimmed@ == without_trailing_slashes(url@));
    if k >= 3 && trimmed.get_char(k - 3) == '/' && trimmed.get_char(k - 2) == 'v'
        && trimmed.get_char(k - 1) == '1' {
        String::from_str(trimmed.substring_char(0, k - 3))
    } else {
        String::from_str(trimmed)
    }
}

/// The OpenAI-compatible API under the proxy root: `<root>/v1`.
pub fn api_url_of(base_url: &str) -> (url: String)
    ensures
        url@ == base_url@ + "/v1"@,
{
    String::from_str(base_url).concat("/v1")
}

/// The proxy's model list: `<root>/model/info`.
pub fn model_info_url(base_url: &str) -> (url: String)
    ensures
        url@ == base_url@ + "/model/info"@,
{
    String::from_str(base_url).concat("/model/info")
}

/// The chat-completions endpoint of the API: `<api>/chat/completions`.
pub fn chat_completions_url(api_url: &str) -> (url: String)
    ensures
        url@ == api_url@ + "/chat/completions"@,
{
    String::from_str(api_url).concat("/chat/completions")
}

} // verus!
