//! Turning the site's relative links into absolute ones.
use vstd::prelude::*;
use crate::text::{has_prefix, starts_with};

verus! {

broadcast use vstd::string::group_string_axioms;

/// The scheme put in front of protocol-relative links.
pub open spec fn https_scheme() -> Seq<char> {
    "https:"@
}

/// The site's origin, put in front of root-relative paths.
pub open spec fn site_origin() -> Seq<char> {
    "https://brilliant.org"@
}

/// A link made absolute: `//host/..` gets the `https:` scheme, `/path`
/// gets the site's origin, anything else is kept as it is.
pub open spec fn corrected_url(v: Seq<char>) -> Seq<char> {
    if starts_with(v, seq!['/', '/']) {
        https_scheme() + v
    } else if starts_with(v, seq!['/']) {
        site_origin() + v
    } else {
        v
    }
}

/// Makes a scraped link absolute; see `corrected_url`.
pub fn correct_url(value: String) -> (r: String)
    ensures
        r@ == corrected_url(value@),
{
    proof {
        reveal_strlit("//");
        reveal_strlit("/");
        assert("//"@ =~= seq!['/', '/']);
        assert("/"@ =~= seq!['/']);
    }
    if has_prefix(value.as_str(), "//") {
        let mut r = String::from_str("https:");
        r.append(value.as_str());
        r
    } else if has_prefix(value.as_str(), "/") {
        let mut r = String::from_str("https://brilliant.org");
        r.append(value.as_str());
        r
    } else {
        value
    }
}

/// Making a link absolute twice gives the same link as doing it once.
pub proof fn lemma_corrected_url_idempotent(v: Seq<char>)
    ensures
        corrected_url(corrected_url(v)) == corrected_url(v),
{
    reveal_strlit("https:");
    reveal_strlit("https://brilliant.org");
    let c = corrected_url(v);
    assert(https_scheme()[0] == 'h');
    assert(site_origin()[0] == 'h');
    if starts_with(v, seq!['/', '/']) {
        assert(v.take(1) =~= v.take(2).take(1));
        assert(v.take(1) =~= seq!['/']);
    }
    if starts_with(v, seq!['/']) {
        assert(c[0] == 'h');
        assert(c.take(1)[0] == 'h');
        assert(!starts_with(c, seq!['/']));
        if c.len() >= 2 {
            assert(c.take(2)[0] == 'h');
        }
        assert(!starts_with(c, seq!['/', '/']));
    }
}

/// A path on the site made into a full address.
pub open spec fn completed_url(path: Seq<char>) -> Seq<char> {
    site_origin() + path
}

/// What making a link absolute does: a `//` link gets `https:` in front, a
/// `/` path gets the site's origin in front, and anything else is kept.
pub proof fn lemma_corrected_url_cases(v: Seq<char>)
    ensures
        starts_with(v, "//"@) ==> corrected_url(v) == "https:"@ + v,
        starts_with(v, "/"@) && !starts_with(v, "//"@) ==> corrected_url(v) == "https://brilliant.org"@ + v,
        !starts_with(v, "/"@) ==> corrected_url(v) == v,
{
    reveal_strlit("//");
    reveal_strlit("/");
    assert("//"@ =~= seq!['/', '/']);
    assert("/"@ =~= seq!['/']);
    if starts_with(v, seq!['/', '/']) {
        assert(v.take(1) =~= v.take(2).take(1));
        assert(v.take(1) =~= seq!['/']);
    }
}

/// A completed address is already absolute: making it absolute keeps it.
pub proof fn lemma_completed_url_is_corrected(path: Seq<char>)
    ensures
        corrected_url(completed_url(path)) == completed_url(path),
{
    reveal_strlit("https://brilliant.org");
    let c = completed_url(path);
    assert(c[0] == 'h');
    assert(c.take(1)[0] == 'h');
    assert(c.take(2)[0] == 'h');
}

/// The site's origin followed by `path`.
pub fn complete_url(path: &str) -> (r: String)
    ensures
        r@ == completed_url(path@),
{
    let mut r = String::from_str("https://brilliant.org");
    r.append(path);
    r
}

} // verus!
