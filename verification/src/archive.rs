//! Where downloaded pages, style sheets and images are stored, and how a
//! stored page is prepared.
use vstd::prelude::*;
use crate::text::{
    lemma_replaced_first_occurrence, lemma_replaced_absent, lemma_replaced_char_gone, occurs_at,
    chars_of, string_of, has_prefix, has_suffix, has_substring, replace_all, starts_with, ends_with,
    contains, replaced,
};

verus! {

broadcast use vstd::string::group_string_axioms;

// ---------------------------------------------------------------------------
// Addresses
// ---------------------------------------------------------------------------

/// The host and path of an address parsed by `reqwest::Url`, or `None` where
/// it does not parse.
pub uninterp spec fn url_parts(url: Seq<char>) -> Option<(Option<Seq<char>>, Seq<char>)>;

/// The parts of a parsed address that storage depends on.
pub struct ParsedUrl {
    /// The host, where the address has one.
    pub host: Option<String>,
    /// The percent-encoded path.
    pub path: String,
}

/// Parses `url` with `reqwest::Url` (the `url` crate's `Url::parse`) and keeps
/// its `host_str` and `path`. Claims: the outcome is the one named by
/// `url_parts`.
#[verifier::external_body]
pub(crate) fn parse_url(url: &str) -> (r: Option<ParsedUrl>)
    ensures
        r is Some <==> url_parts(url@) is Some,
        r matches Some(p) ==> url_parts(url@) == Some((p.host.deep_view(), p.path@)),
{
    match url.parse::<reqwest::Url>() {
        Ok(u) => {
            let host = match u.host_str() {
                Some(h) => Some(h.to_string()),
                None => None,
            };
            Some(ParsedUrl { host, path: u.path().to_string() })
        },
        Err(_) => None,
    }
}

/// Why an address cannot be stored.
#[derive(Debug, Clone, Copy, PartialEq, Eq, Structural)]
pub enum ArchiveError {
    /// The address does not parse.
    InvalidUrl,
    /// The address has no host.
    NoHost,
    /// The address has an empty path.
    EmptyPath,
}

// ---------------------------------------------------------------------------
// Paths
// ---------------------------------------------------------------------------

/// The directory everything is stored under.
pub open spec fn archive_root() -> Seq<char> {
    "./archive"@
}

/// The host that the site's own pages come from.
pub open spec fn site_host() -> Seq<char> {
    "brilliant.org"@
}

/// `base` extended by `part` as `PathBuf::push` does on Unix: an absolute
/// `part` replaces `base`; otherwise a separator is put between them where
/// `base` is not empty and does not already end with one.
pub open spec fn joined_path(base: Seq<char>, part: Seq<char>) -> Seq<char> {
    if starts_with(part, seq!['/']) {
        part
    } else if base.len() > 0 && base.last() != '/' {
        base + seq!['/'] + part
    } else {
        base + part
    }
}

/// Where the file for an address with path `path` is looked for.
pub open spec fn stored_path(path: Seq<char>) -> Seq<char> {
    joined_path(archive_root(), path.drop_first())
}

/// Where a download from `host`/`path` is saved, and, for another host than
/// the site's, the local address that replaces it in the saved pages.
pub open spec fn save_target(host: Seq<char>, path: Seq<char>) -> (Seq<char>, Option<Seq<char>>) {
    if contains(host, site_host()) {
        (joined_path(archive_root(), path.drop_first()), None)
    } else {
        let host_dir = replaced(host, seq!['.'], seq!['_']);
        (
            joined_path(joined_path(archive_root(), host_dir), path.drop_first()),
            Some(seq!['/'] + host_dir + path),
        )
    }
}

/// Joins two path pieces; see `joined_path`.
pub fn join_path(base: &str, part: &str) -> (r: String)
    ensures
        r@ == joined_path(base@, part@),
{
    proof {
        reveal_strlit("/");
        assert("/"@ =~= seq!['/']);
    }
    if has_prefix(part, "/") {
        return part.to_owned();
    }
    let bv = chars_of(base);
    let mut r = base.to_owned();
    if bv.len() > 0 && bv[bv.len() - 1] != '/' {
        r.append("/");
    }
    r.append(part);
    r
}

/// `s` without its first character.
fn without_first(s: &str) -> (r: String)
    requires
        s@.len() > 0,
    ensures
        r@ == s@.drop_first(),
{
    let v = chars_of(s);
    let mut rest: Vec<char> = Vec::new();
    let mut i: usize = 1;
    while i < v.len()
        invariant
            1 <= i <= v@.len(),
            rest@ == v@.subrange(1, i as int),
        decreases v.len() - i,
    {
        rest.push(v[i]);
        i += 1;
        assert(rest@ =~= v@.subrange(1, i as int));
    }
    assert(v@.subrange(1, v@.len() as int) =~= v@.drop_first());
    string_of(&rest)
}

/// Where the file for a parsed address is looked for.
pub fn stored_path_of(url: &ParsedUrl) -> (r: String)
    requires
        url.path@.len() > 0,
    ensures
        r@ == stored_path(url.path@),
{
    let rest = without_first(url.path.as_str());
    join_path("./archive", rest.as_str())
}

/// Where the file for the address `url` is looked for.
pub fn archive_path_for(url: &str) -> (r: Result<String, ArchiveError>)
    ensures
        url_parts(url@) is None ==> r == Err::<String, ArchiveError>(ArchiveError::InvalidUrl),
        url_parts(url@) matches Some((_, path)) ==> {
            &&& path.len() == 0 ==> r == Err::<String, ArchiveError>(ArchiveError::EmptyPath)
            &&& path.len() > 0 ==> (r matches Ok(p) && p@ == stored_path(path))
        },
{
    match parse_url(url) {
        None => Err(ArchiveError::InvalidUrl),
        Some(u) => {
            if u.path.as_str().is_empty() {
                Err(ArchiveError::EmptyPath)
            } else {
                Ok(stored_path_of(&u))
            }
        },
    }
}

/// Where to save a download, and the local address that replaces it in the
/// saved pages where it comes from another host.
pub struct SavePlan {
    pub file_path: String,
    pub local_url: Option<String>,
}

/// The save plan for a parsed address with a host.
pub fn save_plan_of(host: &str, path: &str) -> (r: SavePlan)
    requires
        path@.len() > 0,
    ensures
        (r.file_path@, r.local_url.deep_view()) == save_target(host@, path@),
{
    let rest = without_first(path);
    if has_substring(host, "brilliant.org") {
        let file_path = join_path("./archive", rest.as_str());
        SavePlan { file_path, local_url: None }
    } else {
        proof {
            reveal_strlit(".");
            reveal_strlit("_");
            reveal_strlit("/");
            assert("."@ =~= seq!['.']);
            assert("_"@ =~= seq!['_']);
            assert("/"@ =~= seq!['/']);
        }
        let host_dir = replace_all(host, ".", "_");
        let dir = join_path("./archive", host_dir.as_str());
        let file_path = join_path(dir.as_str(), rest.as_str());
        let mut local = String::from_str("/");
        local.append(host_dir.as_str());
        local.append(path);
        proof {
            assert(local@ =~= seq!['/'] + host_dir@ + path@);
        }
        SavePlan { file_path, local_url: Some(local) }
    }
}

/// The save plan for the address `url`.
pub fn save_plan_for(url: &str) -> (r: Result<SavePlan, ArchiveError>)
    ensures
        url_parts(url@) is None ==> r == Err::<SavePlan, ArchiveError>(ArchiveError::InvalidUrl),
        url_parts(url@) matches Some((host, path)) ==> match host {
            None => r == Err::<SavePlan, ArchiveError>(ArchiveError::NoHost),
            Some(h) => if path.len() == 0 {
                r == Err::<SavePlan, ArchiveError>(ArchiveError::EmptyPath)
            } else {
                r matches Ok(plan) && (plan.file_path@, plan.local_url.deep_view()) == save_target(
                    h,
                    path,
                )
            },
        },
{
    match parse_url(url) {
        None => Err(ArchiveError::InvalidUrl),
        Some(u) => match &u.host {
            None => Err(ArchiveError::NoHost),
            Some(h) => {
                if u.path.as_str().is_empty() {
                    Err(ArchiveError::EmptyPath)
                } else {
                    Ok(save_plan_of(h.as_str(), u.path.as_str()))
                }
            },
        },
    }
}

// ---------------------------------------------------------------------------
// Pages
// ---------------------------------------------------------------------------

/// The address a problem page is stored under: one ending in `/` gets that
/// slash replaced by `.html`.
pub open spec fn page_file_url(url: Seq<char>) -> Seq<char> {
    if ends_with(url, seq!['/']) {
        url.drop_last() + ".html"@
    } else {
        url
    }
}

/// In a discussion thread every hidden reply is shown: up to the first marker
/// the markup is kept, the marker becomes the shown one, and the rest of the
/// markup is prepared in the same way.
pub proof fn lemma_thread_replies_all_shown(url: Seq<char>, html: Seq<char>, i: int)
    requires
        contains(url, "discussions/thread"@),
        occurs_at(html, "hide\" data-level"@, i),
        forall|j: int| 0 <= j < i ==> !occurs_at(html, "hide\" data-level"@, j),
    ensures
        prepared_page(url, html) == html.take(i) + "\" data-level"@ + prepared_page(
            url,
            html.skip(i + "hide\" data-level"@.len()),
        ),
{
    reveal_strlit("hide\" data-level");
    lemma_replaced_first_occurrence(html, hidden_reply_marker(), shown_reply_marker(), i);
}

/// A discussion thread without hidden replies is stored as it is; so is any
/// page that is no discussion thread.
pub proof fn lemma_prepared_page_unchanged(url: Seq<char>, html: Seq<char>)
    requires
        !contains(url, "discussions/thread"@) || !contains(html, "hide\" data-level"@),
    ensures
        prepared_page(url, html) == html,
{
    reveal_strlit("hide\" data-level");
    if contains(url, discussion_marker()) {
        lemma_replaced_absent(html, hidden_reply_marker(), shown_reply_marker());
    }
}

/// A download is kept at the top of the archive, with no local address,
/// exactly when its host is the site's.
pub proof fn lemma_save_target_site_iff(host: Seq<char>, path: Seq<char>)
    ensures
        save_target(host, path).1 is None <==> contains(host, "brilliant.org"@),
{
}

/// A download from another host is kept in a directory named after the host,
/// with every `.` of it made `_`, and the saved pages point at it by the local
/// address `/<that directory><path>`.
pub proof fn lemma_other_hosts_keep_host_dir(host: Seq<char>, path: Seq<char>)
    requires
        !contains(host, "brilliant.org"@),
    ensures
        ({
            let dir = replaced(host, seq!['.'], seq!['_']);
            &&& save_target(host, path) == (
                joined_path(joined_path("./archive"@, dir), path.drop_first()),
                Some(seq!['/'] + dir + path),
            )
            &&& forall|k: int| 0 <= k < dir.len() ==> dir[k] != '.'
        }),
{
    lemma_replaced_char_gone(host, '.', seq!['_']);
}

/// Joining a relative part to a base that does not end in a separator puts
/// one separator between them; an absolute part replaces the base.
pub proof fn lemma_joined_path_shape(base: Seq<char>, part: Seq<char>)
    ensures
        part.len() > 0 && part[0] == '/' ==> joined_path(base, part) == part,
        !(part.len() > 0 && part[0] == '/') && base.len() > 0 && base.last() != '/' ==> joined_path(
            base,
            part,
        ) == base + seq!['/'] + part,
        !(part.len() > 0 && part[0] == '/') && (base.len() == 0 || base.last() == '/') ==> joined_path(
            base,
            part,
        ) == base + part,
{
    if part.len() > 0 && part[0] == '/' {
        assert(part.take(1) =~= seq!['/']);
    } else if part.len() > 0 {
        assert(part.take(1)[0] == part[0]);
    }
}

/// An address ending in `/` is stored with that slash replaced by `.html`;
/// any other address is stored as it is.
pub proof fn lemma_page_file_url_cases(url: Seq<char>)
    ensures
        ends_with(url, "/"@) ==> page_file_url(url) == url.drop_last() + ".html"@,
        !ends_with(url, "/"@) ==> page_file_url(url) == url,
{
    reveal_strlit("/");
    assert("/"@ =~= seq!['/']);
}

/// A stored page's address never ends with a slash.
pub proof fn lemma_page_file_url_no_trailing_slash(url: Seq<char>)
    ensures
        !ends_with(page_file_url(url), seq!['/']),
{
    reveal_strlit(".html");
    let r = page_file_url(url);
    if ends_with(url, seq!['/']) {
        assert(".html"@.len() == 5);
        assert(r.last() == 'l');
        assert(r.skip(r.len() - 1)[0] == 'l');
    }
}

/// For the site's own pages, the file whose presence is checked before a
/// download is the file the download is saved to.
pub proof fn lemma_site_pages_checked_where_saved(host: Seq<char>, path: Seq<char>)
    requires
        contains(host, site_host()),
    ensures
        save_target(host, path).0 == stored_path(path),
        save_target(host, path).1 is None,
{
}

/// The marker that hides the replies of a discussion thread.
pub open spec fn hidden_reply_marker() -> Seq<char> {
    "hide\" data-level"@
}

/// What the marker becomes so that the replies show.
pub open spec fn shown_reply_marker() -> Seq<char> {
    "\" data-level"@
}

/// The part of a discussion thread's address.
pub open spec fn discussion_marker() -> Seq<char> {
    "discussions/thread"@
}

/// A page's markup prepared for storage: in discussion threads the replies
/// are no longer hidden.
pub open spec fn prepared_page(url: Seq<char>, html: Seq<char>) -> Seq<char> {
    if contains(url, discussion_marker()) {
        replaced(html, hidden_reply_marker(), shown_reply_marker())
    } else {
        html
    }
}

/// The style injected into served pages so that hidden replies show.
pub open spec fn reply_style_head() -> Seq<char> {
    "<head>\n\t\t<style>.cmmnt-container.hide { display: block !important; }</style>"@
}

/// The address a problem page is stored under; see `page_file_url`.
pub fn page_storage_url(url: String) -> (r: String)
    ensures
        r@ == page_file_url(url@),
{
    proof {
        reveal_strlit("/");
        assert("/"@ =~= seq!['/']);
    }
    if has_suffix(url.as_str(), "/") {
        let v = chars_of(url.as_str());
        let mut r = string_of(v.as_slice().split_at(v.len() - 1).0);
        r.append(".html");
        proof {
            assert(v@.subrange(0, v@.len() - 1) =~= url@.drop_last());
        }
        r
    } else {
        url
    }
}

/// A page's markup prepared for storage; see `prepared_page`.
pub fn prepare_page(url: &str, html: String) -> (r: String)
    ensures
        r@ == prepared_page(url@, html@),
{
    if has_substring(url, "discussions/thread") {
        replace_all(html.as_str(), "hide\" data-level", "\" data-level")
    } else {
        html
    }
}

/// Puts the local address of a downloaded image in place of every occurrence
/// of the address it was linked by in the page.
pub fn relink_image(html: &str, image_path: &str, local_url: &str) -> (r: String)
    ensures
        r@ == replaced(html@, image_path@, local_url@),
{
    replace_all(html, image_path, local_url)
}

/// A stored page as served: the style that shows hidden replies is put after
/// every `<head>`.
pub fn inject_reply_style(content: &str) -> (r: String)
    ensures
        r@ == replaced(content@, "<head>"@, reply_style_head()),
{
    replace_all(content, "<head>", "<head>\n\t\t<style>.cmmnt-container.hide { display: block !important; }</style>")
}

/// The file a request path is served from.
pub fn served_file_path(request_path: &str) -> (r: String)
    ensures
        r@ == archive_root() + request_path@,
{
    let mut r = String::from_str("./archive");
    r.append(request_path);
    r
}


// ---------------------------------------------------------------------------
// Download decisions
// ---------------------------------------------------------------------------

/// Where the stored file of a problem page is looked for: that of the address
/// the page is stored under.
pub fn stored_page_path(contribution_url: &str) -> (r: Result<String, ArchiveError>)
    ensures
        url_parts(page_file_url(contribution_url@)) is None ==> r == Err::<String, ArchiveError>(
            ArchiveError::InvalidUrl,
        ),
        url_parts(page_file_url(contribution_url@)) matches Some((_, path)) ==> {
            &&& path.len() == 0 ==> r == Err::<String, ArchiveError>(ArchiveError::EmptyPath)
            &&& path.len() > 0 ==> (r matches Ok(p) && p@ == stored_path(path))
        },
{
    let url = page_storage_url(contribution_url.to_owned());
    archive_path_for(url.as_str())
}

/// Whether a listed contribution is scraped and archived: with the option to
/// skip downloaded pages set, one whose page is already stored is left alone.
pub fn should_archive_contribution(skip_downloaded: bool, page_stored: bool) -> (r: bool)
    ensures
        r == !(skip_downloaded && page_stored),
{
    !(skip_downloaded && page_stored)
}

/// Whether a style sheet or an image is downloaded: only where it is not
/// stored yet.
pub fn should_download(stored: bool) -> (r: bool)
    ensures
        r == !stored,
{
    !stored
}

/// A page after one of its images was downloaded: relinked to the local
/// address where the download got one, unchanged otherwise.
pub fn relink_if_local(html: String, image_path: &str, local_url: Option<String>) -> (r: String)
    ensures
        r@ == match local_url {
            Some(l) => replaced(html@, image_path@, l@),
            None => html@,
        },
{
    match local_url {
        Some(l) => relink_image(html.as_str(), image_path, l.as_str()),
        None => html,
    }
}

/// The address and the markup to store for a problem page, or `None` where
/// its page is already stored.
pub fn page_to_save(contribution_url: String, html: String, page_stored: bool) -> (r: Option<
    (String, String),
>)
    ensures
        page_stored ==> r is None,
        !page_stored ==> (r matches Some((u, h)) && u@ == page_file_url(contribution_url@) && h@
            == prepared_page(page_file_url(contribution_url@), html@)),
{
    if page_stored {
        return None;
    }
    let url = page_storage_url(contribution_url);
    let prepared = prepare_page(url.as_str(), html);
    Some((url, prepared))
}

} // verus!
