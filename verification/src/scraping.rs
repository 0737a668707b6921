//! The records scraped from the community pages, their abstract models,
//! and the clean-ups applied to each scraped field.
use vstd::prelude::*;
use crate::text::{trim, trimmed, lemma_trimmed_idempotent};
use crate::urls::{correct_url, corrected_url, complete_url, completed_url, site_origin};
use crate::page::{
    HtmlPage, NodeSelection, html_parses, xpath_node_count, xpath_first_text, xpath_required_text,
    xpath_texts, parse_page, select_nodes, first_text, required_text, all_texts,
};

verus! {

broadcast use vstd::string::group_string_axioms;

// ---------------------------------------------------------------------------
// Records and their models
// ---------------------------------------------------------------------------

/// One page of the community listing.
#[derive(Debug)]
pub struct CommunityList {
    pub contributions: Vec<CommunityListContribution>,
    pub next_page_path: Option<String>,
}

/// One entry of the community listing.
#[derive(Debug)]
pub struct CommunityListContribution {
    pub title: String,
    /// Title pieces found where the title link holds bare text.
    pub _title_alt: Vec<String>,
    pub topic: String,
    pub popularity: Option<String>,
    /// Popularity found one level deeper in the markup.
    pub _pop_alt: Option<String>,
    pub difficulty: Option<String>,
    pub url: String,
}

/// A problem page: its markup and the style sheets and images it uses.
#[derive(Debug)]
pub struct ContributionProblem {
    pub html: String,
    pub styles: Vec<String>,
    pub images: Vec<String>,
}

/// Abstract value of a `CommunityListContribution`.
#[verifier::ext_equal]
pub struct ContributionModel {
    pub title: Seq<char>,
    pub title_alt: Seq<Seq<char>>,
    pub topic: Seq<char>,
    pub popularity: Option<Seq<char>>,
    pub pop_alt: Option<Seq<char>>,
    pub difficulty: Option<Seq<char>>,
    pub url: Seq<char>,
}

/// Abstract value of a `CommunityList`.
#[verifier::ext_equal]
pub struct CommunityListModel {
    pub contributions: Seq<ContributionModel>,
    pub next_page_path: Option<Seq<char>>,
}

/// Abstract value of a `ContributionProblem`.
#[verifier::ext_equal]
pub struct ProblemModel {
    pub html: Seq<char>,
    pub styles: Seq<Seq<char>>,
    pub images: Seq<Seq<char>>,
}

impl View for CommunityListContribution {
    type V = ContributionModel;

    open spec fn view(&self) -> ContributionModel {
        ContributionModel {
            title: self.title@,
            title_alt: self._title_alt.deep_view(),
            topic: self.topic@,
            popularity: self.popularity.deep_view(),
            pop_alt: self._pop_alt.deep_view(),
            difficulty: self.difficulty.deep_view(),
            url: self.url@,
        }
    }
}

impl View for CommunityList {
    type V = CommunityListModel;

    open spec fn view(&self) -> CommunityListModel {
        CommunityListModel {
            contributions: self.contributions@.map_values(|c: CommunityListContribution| c@),
            next_page_path: self.next_page_path.deep_view(),
        }
    }
}

impl View for ContributionProblem {
    type V = ProblemModel;

    open spec fn view(&self) -> ProblemModel {
        ProblemModel {
            html: self.html@,
            styles: self.styles.deep_view(),
            images: self.images.deep_view(),
        }
    }
}

// ---------------------------------------------------------------------------
// Field clean-ups, specified
// ---------------------------------------------------------------------------

/// A trimmed optional text.
pub open spec fn trimmed_opt(v: Option<Seq<char>>) -> Option<Seq<char>> {
    match v {
        Some(t) => Some(trimmed(t)),
        None => None,
    }
}

/// A title: the trimmed text, or empty where there is none.
pub open spec fn title_text(v: Option<Seq<char>>) -> Seq<char> {
    match v {
        Some(t) => trimmed(t),
        None => Seq::empty(),
    }
}

/// Each piece trimmed, with the pieces that trim to nothing left out.
pub open spec fn nonempty_trims(pieces: Seq<Seq<char>>) -> Seq<Seq<char>>
    decreases pieces.len(),
{
    if pieces.len() == 0 {
        Seq::empty()
    } else {
        let t = trimmed(pieces.last());
        if t.len() > 0 {
            nonempty_trims(pieces.drop_last()).push(t)
        } else {
            nonempty_trims(pieces.drop_last())
        }
    }
}

/// Each link made absolute.
pub open spec fn corrected_urls(urls: Seq<Seq<char>>) -> Seq<Seq<char>> {
    urls.map_values(|u: Seq<char>| corrected_url(u))
}

/// The query that the listing's "next page" requests carry.
pub open spec fn next_page_query() -> Seq<char> {
    "&page_key=community_portal_problems&filter_content_type=&reviewed_state=&version=1&deferred=false"@
}

/// The address of the next listing page, from the path the page links to.
pub open spec fn next_page_url(v: Option<Seq<char>>) -> Option<Seq<char>> {
    match v {
        Some(p) => Some(completed_url(p) + next_page_query()),
        None => None,
    }
}

/// Cleaning up title pieces works piece by piece: the pieces of a
/// concatenation are those of each part, and a single piece is kept, trimmed,
/// exactly where it holds more than white space.
pub proof fn lemma_nonempty_trims_pieces(a: Seq<Seq<char>>, b: Seq<Seq<char>>, x: Seq<char>)
    ensures
        nonempty_trims(a + b) == nonempty_trims(a) + nonempty_trims(b),
        trimmed(x).len() > 0 ==> nonempty_trims(seq![x]) == seq![trimmed(x)],
        trimmed(x).len() == 0 ==> nonempty_trims(seq![x]) == Seq::<Seq<char>>::empty(),
    decreases b.len(),
{
    assert(seq![x].drop_last() =~= Seq::<Seq<char>>::empty());
    assert(seq![x].last() == x);
    assert(nonempty_trims(Seq::<Seq<char>>::empty()) == Seq::<Seq<char>>::empty());
    assert(Seq::<Seq<char>>::empty().push(trimmed(x)) =~= seq![trimmed(x)]);
    if b.len() == 0 {
        assert(a + b =~= a);
        assert(nonempty_trims(a) + nonempty_trims(b) =~= nonempty_trims(a));
    } else {
        lemma_nonempty_trims_pieces(a, b.drop_last(), x);
        assert((a + b).drop_last() =~= a + b.drop_last());
        assert((a + b).last() == b.last());
        let t = trimmed(b.last());
        if t.len() > 0 {
            assert(nonempty_trims(a) + nonempty_trims(b.drop_last()).push(t) =~= (nonempty_trims(a)
                + nonempty_trims(b.drop_last())).push(t));
        }
    }
}

proof fn lemma_nonempty_trims_clean(pieces: Seq<Seq<char>>)
    ensures
        forall|i: int|
            0 <= i < nonempty_trims(pieces).len() ==> {
                &&& (#[trigger] nonempty_trims(pieces)[i]).len() > 0
                &&& trimmed(nonempty_trims(pieces)[i]) == nonempty_trims(pieces)[i]
            },
    decreases pieces.len(),
{
    if pieces.len() > 0 {
        let prev = nonempty_trims(pieces.drop_last());
        lemma_nonempty_trims_clean(pieces.drop_last());
        lemma_trimmed_idempotent(pieces.last());
        let all = nonempty_trims(pieces);
        assert forall|i: int| 0 <= i < all.len() implies {
            &&& (#[trigger] all[i]).len() > 0
            &&& trimmed(all[i]) == all[i]
        } by {
            if i < prev.len() {
                assert(all[i] == prev[i]);
            }
        }
    }
}

// ---------------------------------------------------------------------------
// Field clean-ups, executable
// ---------------------------------------------------------------------------

/// Style sheet links made absolute.
pub fn transform_styles(value: Vec<String>) -> (r: Vec<String>)
    ensures
        r.deep_view() == corrected_urls(value.deep_view()),
{
    let mut r: Vec<String> = Vec::new();
    let mut i: usize = 0;
    while i < value.len()
        invariant
            i <= value@.len(),
            r.deep_view() =~= corrected_urls(value.deep_view().take(i as int)),
        decreases value.len() - i,
    {
        let ghost before = r.deep_view();
        let u = correct_url(value[i].clone());
        r.push(u);
        proof {
            assert(r.deep_view() =~= before.push(u@));
            assert(corrected_urls(value.deep_view().take(i + 1)) =~= corrected_urls(
                value.deep_view().take(i as int),
            ).push(corrected_url(value@[i as int]@)));
        }
        i += 1;
    }
    proof {
        assert(value.deep_view().take(i as int) =~= value.deep_view());
    }
    r
}

/// The title: trimmed, or empty where none was found.
pub fn transform_title(value: Option<String>) -> (r: String)
    ensures
        r@ == title_text(value.deep_view()),
{
    match value {
        Some(v) => trim(v.as_str()),
        None => String::new(),
    }
}

/// Title pieces: each trimmed, the empty ones left out.
pub fn transform_title2(value: Vec<String>) -> (r: Vec<String>)
    ensures
        r.deep_view() == nonempty_trims(value.deep_view()),
        forall|i: int|
            0 <= i < r@.len() ==> {
                &&& (#[trigger] r@[i])@.len() > 0
                &&& trimmed(r@[i]@) == r@[i]@
            },
{
    let mut r: Vec<String> = Vec::new();
    let mut i: usize = 0;
    while i < value.len()
        invariant
            i <= value@.len(),
            r.deep_view() =~= nonempty_trims(value.deep_view().take(i as int)),
        decreases value.len() - i,
    {
        let t = trim(value[i].as_str());
        proof {
            assert(value.deep_view().take(i + 1).drop_last() =~= value.deep_view().take(i as int));
            assert(value.deep_view().take(i + 1).last() == value@[i as int]@);
        }
        if !t.as_str().is_empty() {
            r.push(t);
        }
        i += 1;
    }
    proof {
        assert(value.deep_view().take(i as int) =~= value.deep_view());
        lemma_nonempty_trims_clean(value.deep_view());
        assert forall|k: int| 0 <= k < r@.len() implies {
            &&& (#[trigger] r@[k])@.len() > 0
            &&& trimmed(r@[k]@) == r@[k]@
        } by {
            assert(r.deep_view()[k] == r@[k]@);
        }
    }
    r
}

/// An optional text, trimmed.
pub fn transform_trim_opt(value: Option<String>) -> (r: Option<String>)
    ensures
        r.deep_view() == trimmed_opt(value.deep_view()),
{
    match value {
        Some(v) => Some(trim(v.as_str())),
        None => None,
    }
}

/// A text, trimmed.
pub fn transform_trim(value: String) -> (r: String)
    ensures
        r@ == trimmed(value@),
{
    trim(value.as_str())
}

/// A contribution's path made into its full address.
pub fn transform_url(value: String) -> (r: String)
    ensures
        r@ == completed_url(value@),
{
    complete_url(value.as_str())
}

/// The next listing page's address, with the listing's query appended.
pub fn transform_next_page_url(paths: Option<String>) -> (r: Option<String>)
    ensures
        r.deep_view() == next_page_url(paths.deep_view()),
{
    match paths {
        Some(v) => {
            let mut u = complete_url(v.as_str());
            u.append("&page_key=community_portal_problems&filter_content_type=&reviewed_state=&version=1&deferred=false");
            Some(u)
        },
        None => None,
    }
}


// ---------------------------------------------------------------------------
// Scraping pages into records
// ---------------------------------------------------------------------------

/// The scraped field that a failure belongs to.
#[derive(Debug, Clone, Copy, PartialEq, Eq, Structural)]
pub enum Field {
    Contributions,
    NextPagePath,
    Title,
    TitleAlt,
    Topic,
    Popularity,
    PopAlt,
    Difficulty,
    Url,
    Styles,
    Images,
}

/// Why a page could not be scraped.
#[derive(Debug, Clone, Copy, PartialEq, Eq, Structural)]
pub enum ScrapeError {
    /// The markup could not be read.
    Markup,
    /// A field's query failed, or a required field found no value.
    FieldValue(Field),
    /// The listing response carried no page fragment.
    NoActions,
}

/// Where the listing's entries are.
pub open spec fn contributions_xpath() -> Seq<char> {
    "//div[contains(@class, \"nf-feed-item-wrapper\")]"@
}

pub open spec fn next_page_xpath() -> Seq<char> {
    "//a/@data-next_url"@
}

pub open spec fn title_xpath() -> Seq<char> {
    "./div/a/span/text()"@
}

pub open spec fn title_alt_xpath() -> Seq<char> {
    "./div/a/text()"@
}

pub open spec fn topic_xpath() -> Seq<char> {
    "./div/span[1]/text()"@
}

pub open spec fn popularity_xpath() -> Seq<char> {
    "./div/span[2]/text()"@
}

pub open spec fn pop_alt_xpath() -> Seq<char> {
    "./div/span[2]/span/text()"@
}

pub open spec fn difficulty_xpath() -> Seq<char> {
    "./div/span[3]/text()"@
}

pub open spec fn url_xpath() -> Seq<char> {
    "./div/a/@href"@
}

pub open spec fn styles_xpath() -> Seq<char> {
    "//link[@rel=\"stylesheet\"]/@href"@
}

pub open spec fn images_xpath() -> Seq<char> {
    "//img/@src"@
}

/// One of the XPath selectors the scrapers use. Only these are handed to the
/// XPath engine: its tokenizer panics on some other strings (one ending in a
/// space, one starting with a non-ASCII character).
pub open spec fn scraper_selector(x: Seq<char>) -> bool {
    ||| x == contributions_xpath()
    ||| x == next_page_xpath()
    ||| x == title_xpath()
    ||| x == title_alt_xpath()
    ||| x == topic_xpath()
    ||| x == popularity_xpath()
    ||| x == pop_alt_xpath()
    ||| x == difficulty_xpath()
    ||| x == url_xpath()
    ||| x == styles_xpath()
    ||| x == images_xpath()
}

/// The entry scraped from the `index`-th listing node of the page `html`:
/// each field's query in declaration order, the first failure reported.
pub open spec fn scraped_contribution(html: Seq<char>, index: nat) -> Result<ContributionModel, ScrapeError> {
    let scope = Some((contributions_xpath(), index));
    let title = xpath_first_text(html, scope, title_xpath());
    let title_alt = xpath_texts(html, scope, title_alt_xpath());
    let topic = xpath_required_text(html, scope, topic_xpath());
    let popularity = xpath_first_text(html, scope, popularity_xpath());
    let pop_alt = xpath_first_text(html, scope, pop_alt_xpath());
    let difficulty = xpath_first_text(html, scope, difficulty_xpath());
    let url = xpath_required_text(html, scope, url_xpath());
    if title is None {
        Err(ScrapeError::FieldValue(Field::Title))
    } else if title_alt is None {
        Err(ScrapeError::FieldValue(Field::TitleAlt))
    } else if topic is None {
        Err(ScrapeError::FieldValue(Field::Topic))
    } else if popularity is None {
        Err(ScrapeError::FieldValue(Field::Popularity))
    } else if pop_alt is None {
        Err(ScrapeError::FieldValue(Field::PopAlt))
    } else if difficulty is None {
        Err(ScrapeError::FieldValue(Field::Difficulty))
    } else if url is None {
        Err(ScrapeError::FieldValue(Field::Url))
    } else {
        Ok(
            ContributionModel {
                title: title_text(title->0),
                title_alt: nonempty_trims(title_alt->0),
                topic: trimmed(topic->0),
                popularity: trimmed_opt(popularity->0),
                pop_alt: trimmed_opt(pop_alt->0),
                difficulty: trimmed_opt(difficulty->0),
                url: completed_url(url->0),
            },
        )
    }
}

/// The listing page scraped from the markup `html`.
pub open spec fn scraped_list(html: Seq<char>) -> Result<CommunityListModel, ScrapeError> {
    if !html_parses(html) {
        Err(ScrapeError::Markup)
    } else {
        match xpath_node_count(html, contributions_xpath()) {
            None => Err(ScrapeError::FieldValue(Field::Contributions)),
            Some(n) => {
                if exists|k: nat| k < n && #[trigger] scraped_contribution(html, k) is Err {
                    Err(ScrapeError::FieldValue(Field::Contributions))
                } else {
                    match xpath_first_text(html, None, next_page_xpath()) {
                        None => Err(ScrapeError::FieldValue(Field::NextPagePath)),
                        Some(next) => Ok(
                            CommunityListModel {
                                contributions: Seq::new(
                                    n,
                                    |k: int|
                                        match scraped_contribution(html, k as nat) {
                                            Ok(c) => c,
                                            Err(_) => arbitrary(),
                                        },
                                ),
                                next_page_path: next_page_url(next),
                            },
                        ),
                    }
                }
            },
        }
    }
}

/// The problem page scraped from the markup `html`; the record keeps the
/// markup itself.
pub open spec fn scraped_problem(html: Seq<char>) -> Result<ProblemModel, ScrapeError> {
    if !html_parses(html) {
        Err(ScrapeError::Markup)
    } else {
        let styles = xpath_texts(html, None, styles_xpath());
        let images = xpath_texts(html, None, images_xpath());
        if styles is None {
            Err(ScrapeError::FieldValue(Field::Styles))
        } else if images is None {
            Err(ScrapeError::FieldValue(Field::Images))
        } else {
            Ok(ProblemModel { html, styles: corrected_urls(styles->0), images: images->0 })
        }
    }
}

/// A scraped problem page lists every style sheet link of the page, in order,
/// each made absolute, and every image source as it is; it keeps the markup.
pub proof fn lemma_problem_keeps_every_link(html: Seq<char>)
    ensures
        scraped_problem(html) matches Ok(m) ==> {
            &&& m.html == html
            &&& xpath_texts(html, None, "//link[@rel=\"stylesheet\"]/@href"@) is Some
            &&& m.styles.len() == xpath_texts(html, None, "//link[@rel=\"stylesheet\"]/@href"@)->0.len()
            &&& forall|i: int|
                0 <= i < m.styles.len() ==> #[trigger] m.styles[i] == corrected_url(
                    xpath_texts(html, None, "//link[@rel=\"stylesheet\"]/@href"@)->0[i],
                )
            &&& xpath_texts(html, None, "//img/@src"@) == Some(m.images)
        },
{
}

/// A scraped listing page holds one entry per listing node, in order, and the
/// address of each entry is the site's origin followed by the entry's link.
pub proof fn lemma_list_entry_per_node(html: Seq<char>)
    ensures
        scraped_list(html) matches Ok(m) ==> {
            &&& xpath_node_count(html, "//div[contains(@class, \"nf-feed-item-wrapper\")]"@) == Some(
                m.contributions.len(),
            )
            &&& forall|k: int|
                0 <= k < m.contributions.len() ==> {
                    &&& xpath_required_text(
                        html,
                        Some(("//div[contains(@class, \"nf-feed-item-wrapper\")]"@, k as nat)),
                        "./div/a/@href"@,
                    ) is Some
                    &&& (#[trigger] m.contributions[k]).url == "https://brilliant.org"@
                        + xpath_required_text(
                        html,
                        Some(("//div[contains(@class, \"nf-feed-item-wrapper\")]"@, k as nat)),
                        "./div/a/@href"@,
                    )->0
                    &&& xpath_required_text(
                        html,
                        Some(("//div[contains(@class, \"nf-feed-item-wrapper\")]"@, k as nat)),
                        "./div/span[1]/text()"@,
                    ) is Some
                    &&& m.contributions[k].topic == trimmed(
                        xpath_required_text(
                            html,
                            Some(("//div[contains(@class, \"nf-feed-item-wrapper\")]"@, k as nat)),
                            "./div/span[1]/text()"@,
                        )->0,
                    )
                }
        },
{
    if scraped_list(html) is Ok {
        let m = scraped_list(html)->Ok_0;
        let n = xpath_node_count(html, contributions_xpath())->0;
        assert forall|k: int| 0 <= k < m.contributions.len() implies {
            &&& xpath_required_text(html, Some((contributions_xpath(), k as nat)), url_xpath()) is Some
            &&& (#[trigger] m.contributions[k]).url == site_origin() + xpath_required_text(
                html,
                Some((contributions_xpath(), k as nat)),
                url_xpath(),
            )->0
            &&& xpath_required_text(html, Some((contributions_xpath(), k as nat)), topic_xpath()) is Some
            &&& m.contributions[k].topic == trimmed(
                xpath_required_text(html, Some((contributions_xpath(), k as nat)), topic_xpath())->0,
            )
        } by {
            let kn: nat = k as nat;
            assert(!(scraped_contribution(html, kn) is Err));
        }
    }
}

/// `r` is the outcome `spec` describes, the record taken by its view.
pub open spec fn outcome_matches<T: View>(r: Result<T, ScrapeError>, spec: Result<T::V, ScrapeError>) -> bool {
    match r {
        Ok(v) => spec == Ok::<T::V, ScrapeError>(v@),
        Err(e) => spec == Err::<T::V, ScrapeError>(e),
    }
}

/// Scrapes the `index`-th listing entry of `page`.
fn scrape_contribution(page: &HtmlPage, sel: &NodeSelection, index: usize) -> (r: Result<
    CommunityListContribution,
    ScrapeError,
>)
    requires
        sel.source() == page@,
        sel.selector() == contributions_xpath(),
        index < sel.count(),
    ensures
        outcome_matches(r, scraped_contribution(page@, index as nat)),
{
    let scope = Some((sel, index));
    let title = match first_text(page, scope, "./div/a/span/text()") {
        Ok(v) => v,
        Err(_) => return Err(ScrapeError::FieldValue(Field::Title)),
    };
    let title_alt = match all_texts(page, scope, "./div/a/text()") {
        Ok(v) => v,
        Err(_) => return Err(ScrapeError::FieldValue(Field::TitleAlt)),
    };
    let topic = match required_text(page, scope, "./div/span[1]/text()") {
        Ok(v) => v,
        Err(_) => return Err(ScrapeError::FieldValue(Field::Topic)),
    };
    let popularity = match first_text(page, scope, "./div/span[2]/text()") {
        Ok(v) => v,
        Err(_) => return Err(ScrapeError::FieldValue(Field::Popularity)),
    };
    let pop_alt = match first_text(page, scope, "./div/span[2]/span/text()") {
        Ok(v) => v,
        Err(_) => return Err(ScrapeError::FieldValue(Field::PopAlt)),
    };
    let difficulty = match first_text(page, scope, "./div/span[3]/text()") {
        Ok(v) => v,
        Err(_) => return Err(ScrapeError::FieldValue(Field::Difficulty)),
    };
    let url = match required_text(page, scope, "./div/a/@href") {
        Ok(v) => v,
        Err(_) => return Err(ScrapeError::FieldValue(Field::Url)),
    };
    let c = CommunityListContribution {
        title: transform_title(title),
        _title_alt: transform_title2(title_alt),
        topic: transform_trim(topic),
        popularity: transform_trim_opt(popularity),
        _pop_alt: transform_trim_opt(pop_alt),
        difficulty: transform_trim_opt(difficulty),
        url: transform_url(url),
    };
    proof {
        assert(c@ =~= scraped_contribution(page@, index as nat)->Ok_0);
    }
    Ok(c)
}

impl CommunityList {
    /// Scrapes a parsed listing page.
    pub(crate) fn scrape_page(page: &HtmlPage) -> (r: Result<CommunityList, ScrapeError>)
        requires
            html_parses(page@),
        ensures
            outcome_matches(r, scraped_list(page@)),
    {
        let sel = match select_nodes(page, "//div[contains(@class, \"nf-feed-item-wrapper\")]") {
            Ok(s) => s,
            Err(_) => return Err(ScrapeError::FieldValue(Field::Contributions)),
        };
        let n = sel.len();
        let mut contributions: Vec<CommunityListContribution> = Vec::new();
        let mut i: usize = 0;
        while i < n
            invariant
                n == sel.count(),
                sel.source() == page@,
                sel.selector() == contributions_xpath(),
                xpath_node_count(page@, contributions_xpath()) == Some(n as nat),
                html_parses(page@),
                i <= n,
                contributions@.len() == i,
                forall|k: int|
                    0 <= k < i ==> scraped_contribution(page@, k as nat) == Ok::<
                        ContributionModel,
                        ScrapeError,
                    >(#[trigger] contributions@[k]@),
            decreases n - i,
        {
            match scrape_contribution(page, &sel, i) {
                Ok(c) => contributions.push(c),
                Err(_) => {
                    let ghost k: nat = i as nat;
                    assert(k < n && scraped_contribution(page@, k) is Err);
                    assert(exists|k: nat| k < n && #[trigger] scraped_contribution(page@, k) is Err);
                    return Err(ScrapeError::FieldValue(Field::Contributions));
                },
            }
            i += 1;
        }
        assert(!exists|k: nat| k < n && #[trigger] scraped_contribution(page@, k) is Err) by {
            assert forall|k: nat| k < n implies !(#[trigger] scraped_contribution(page@, k) is Err) by {
                assert(scraped_contribution(page@, k as int as nat) == Ok::<ContributionModel, ScrapeError>(contributions@[k as int]@));
            }
        }
        let next = match first_text(page, None, "//a/@data-next_url") {
            Ok(v) => v,
            Err(_) => return Err(ScrapeError::FieldValue(Field::NextPagePath)),
        };
        let list = CommunityList {
            contributions,
            next_page_path: transform_next_page_url(next),
        };
        proof {
            let spec = scraped_list(page@)->Ok_0;
            assert(list@.contributions =~= spec.contributions);
            assert(list@ =~= spec);
        }
        Ok(list)
    }

    /// Parses the markup of a listing page and scrapes it.
    pub fn scrape_html(html: &str) -> (r: Result<CommunityList, ScrapeError>)
        ensures
            outcome_matches(r, scraped_list(html@)),
    {
        match parse_page(html) {
            Ok(page) => CommunityList::scrape_page(&page),
            Err(_) => Err(ScrapeError::Markup),
        }
    }
}

impl ContributionProblem {
    /// Parses the markup of a problem page and scrapes it; the record keeps
    /// the markup.
    pub fn scrape_html(html: String) -> (r: Result<ContributionProblem, ScrapeError>)
        ensures
            outcome_matches(r, scraped_problem(html@)),
    {
        let page = match parse_page(html.as_str()) {
            Ok(p) => p,
            Err(_) => return Err(ScrapeError::Markup),
        };
        let styles = match all_texts(&page, None, "//link[@rel=\"stylesheet\"]/@href") {
            Ok(v) => v,
            Err(_) => return Err(ScrapeError::FieldValue(Field::Styles)),
        };
        let images = match all_texts(&page, None, "//img/@src") {
            Ok(v) => v,
            Err(_) => return Err(ScrapeError::FieldValue(Field::Images)),
        };
        let problem = ContributionProblem { html, styles: transform_styles(styles), images };
        proof {
            assert(problem@ =~= scraped_problem(html@)->Ok_0);
        }
        Ok(problem)
    }
}

} // verus!
