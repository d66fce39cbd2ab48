//! Matching of remote URLs by their normalized form.

use vstd::prelude::*;
use vstd::string::*;

verus! {

/// The suffix every normalized URL carries: `.git`.
pub open spec fn git_suffix() -> Seq<char> {
    seq!['.', 'g', 'i', 't']
}

/// The scheme `https://`.
pub open spec fn https_scheme() -> Seq<char> {
    seq!['h', 't', 't', 'p', 's', ':', '/', '/']
}

/// The scheme `http://`.
pub open spec fn http_scheme() -> Seq<char> {
    seq!['h', 't', 't', 'p', ':', '/', '/']
}

/// `url`, with `.git` appended unless it already ends in it.
pub open spec fn with_git_suffix(url: Seq<char>) -> Seq<char> {
    if git_suffix().is_suffix_of(url) {
        url
    } else {
        url + git_suffix()
    }
}

/// `url` without a leading `https://` or `http://`.
pub open spec fn without_scheme(url: Seq<char>) -> Seq<char> {
    if https_scheme().is_prefix_of(url) {
        url.skip(8)
    } else if http_scheme().is_prefix_of(url) {
        url.skip(7)
    } else {
        url
    }
}

/// The normalized form of a remote URL: the `.git` suffix is forced first,
/// then a leading web scheme is dropped.
pub open spec fn normalize(url: Seq<char>) -> Seq<char> {
    without_scheme(with_git_suffix(url))
}

/// Two remote URLs match when their normalized forms are the same text.
/// Nothing else is compared: the web spelling and the SSH spelling of one
/// remote do not match, and neither do spellings that differ in case.
pub open spec fn urls_match(a: Seq<char>, b: Seq<char>) -> bool {
    normalize(a) == normalize(b)
}

/// Whether `text` starts with `prefix`.
pub fn starts_with(text: &str, prefix: &str) -> (found: bool)
    ensures
        found == prefix@.is_prefix_of(text@),
{
    let n: usize = text.unicode_len();
    let m: usize = prefix.unicode_len();
    if m > n {
        return false;
    }
    let mut i: usize = 0;
    while i < m
        invariant
            m == prefix@.len(),
            n == text@.len(),
            m <= n,
            i <= m,
            forall|k: int| 0 <= k < i ==> text@[k] == prefix@[k],
        decreases m - i,
    {
        if text.get_char(i) != prefix.get_char(i) {
            assert(text@.subrange(0, m as int)[i as int] != prefix@[i as int]);
            return false;
        }
        i += 1;
    }
    assert(text@.subrange(0, m as int) =~= prefix@);
    true
}

/// Whether `text` ends with `suffix`.
pub fn ends_with(text: &str, suffix: &str) -> (found: bool)
    ensures
        found == suffix@.is_suffix_of(text@),
{
    let n: usize = text.unicode_len();
    let m: usize = suffix.unicode_len();
    if m > n {
        return false;
    }
    let start: usize = n - m;
    let mut i: usize = 0;
    while i < m
        invariant
            m == suffix@.len(),
            n == text@.len(),
            m <= n,
            start == n - m,
            i <= m,
            forall|k: int| 0 <= k < i ==> text@[start + k] == suffix@[k],
        decreases m - i,
    {
        if text.get_char(start + i) != suffix.get_char(i) {
            assert(text@.subrange(start as int, n as int)[i as int] != suffix@[i as int]);
            return false;
        }
        i += 1;
    }
    assert(text@.subrange(start as int, n as int) =~= suffix@);
    true
}

/// The normalized form of `url`.
pub fn normalize_url(url: &str) -> (normal: String)
    ensures
        normal@ == normalize(url@),
{
    proof {
        reveal_strlit(".git");
        reveal_strlit("https://");
        reveal_strlit("http://");
        assert(".git"@ =~= git_suffix());
        assert("https://"@ =~= https_scheme());
        assert("http://"@ =~= http_scheme());
    }
    let suffixed: String = if ends_with(url, ".git") {
        url.to_string()
    } else {
        url.to_string().concat(".git")
    };
    assert(suffixed@ == with_git_suffix(url@));
    let n: usize = suffixed.as_str().unicode_len();
    if starts_with(suffixed.as_str(), "https://") {
        suffixed.as_str().substring_char(8, n).to_string()
    } else if starts_with(suffixed.as_str(), "http://") {
        suffixed.as_str().substring_char(7, n).to_string()
    } else {
        suffixed
    }
}

/// Whether two remote URLs name the same remote: they do exactly when their
/// normalized forms are equal.
pub fn match_remote_url(url_a: &str, url_b: &str) -> (matched: bool)
    ensures
        matched == urls_match(url_a@, url_b@),
{
    let a: String = normalize_url(url_a);
    let b: String = normalize_url(url_b);
    a == b
}

/// Every URL matches itself.
pub proof fn lemma_match_reflexive(url: Seq<char>)
    ensures
        urls_match(url, url),
{
}

/// Matching does not depend on the order of the two URLs.
pub proof fn lemma_match_symmetric(a: Seq<char>, b: Seq<char>)
    ensures
        urls_match(a, b) == urls_match(b, a),
{
}

/// Forcing the `.git` suffix twice is the same as forcing it once.
pub proof fn lemma_git_suffix_idempotent(url: Seq<char>)
    ensures
        git_suffix().is_suffix_of(with_git_suffix(url)),
        with_git_suffix(with_git_suffix(url)) == with_git_suffix(url),
{
    if !git_suffix().is_suffix_of(url) {
        let joined = url + git_suffix();
        assert(joined.subrange(joined.len() - 4, joined.len() as int) =~= git_suffix());
    }
}

/// A URL that does not end in `.git` has the same normalized form with the
/// suffix appended as without it, so the two spellings match.
pub proof fn lemma_git_suffix_absorbed(url: Seq<char>)
    requires
        !git_suffix().is_suffix_of(url),
    ensures
        normalize(url + git_suffix()) == normalize(url),
        urls_match(url + git_suffix(), url),
{
    lemma_git_suffix_idempotent(url);
}

/// Normalizing is idempotent on every URL whose normalized form does not
/// itself begin with a web scheme.
pub proof fn lemma_normalize_idempotent(url: Seq<char>)
    requires
        !https_scheme().is_prefix_of(normalize(url)),
        !http_scheme().is_prefix_of(normalize(url)),
    ensures
        normalize(normalize(url)) == normalize(url),
{
    lemma_git_suffix_idempotent(url);
    let suffixed = with_git_suffix(url);
    let normal = normalize(url);
    assert(git_suffix().is_suffix_of(normal)) by {
        let n = suffixed.len() as int;
        if https_scheme().is_prefix_of(suffixed) {
            lemma_scheme_before_suffix(suffixed, 8);
            assert(normal.subrange(normal.len() - 4, normal.len() as int) =~= suffixed.subrange(
                n - 4,
                n,
            ));
        } else if http_scheme().is_prefix_of(suffixed) {
            lemma_scheme_before_suffix(suffixed, 7);
            assert(normal.subrange(normal.len() - 4, normal.len() as int) =~= suffixed.subrange(
                n - 4,
                n,
            ));
        }
    }
}

/// A text that begins with one of the two schemes and ends in `.git` is long
/// enough to hold both without overlap: no scheme contains a dot.
proof fn lemma_scheme_before_suffix(text: Seq<char>, scheme_len: int)
    requires
        git_suffix().is_suffix_of(text),
        scheme_len == 8 && https_scheme().is_prefix_of(text) || scheme_len == 7
            && http_scheme().is_prefix_of(text),
    ensures
        text.len() >= scheme_len + 4,
{
    let n = text.len() as int;
    let tail = text.subrange(n - 4, n);
    assert(tail[0] == '.');
    assert(text[n - 4] == '.');
    if n < scheme_len + 4 {
        if scheme_len == 8 {
            let head = text.subrange(0, 8);
            assert(head[n - 4] == text[n - 4]);
        } else {
            let head = text.subrange(0, 7);
            assert(head[n - 4] == text[n - 4]);
        }
    }
}

} // verus!
