//! The decisions of the listing crawl: how a fetched listing page is cleaned
//! up and merged into what has been found so far, and what to fetch next.
use vstd::prelude::*;
use crate::scraping::{CommunityList, CommunityListContribution, ContributionModel};
use crate::text::{concat_all, concat_strings};

verus! {

/// The listing source ("Needs Solution") whose pages also hold entries of the
/// other sources: it is not checked against the cache, its entries are added
/// only where their address is new, and its popularity column holds the
/// difficulty.
pub const NEED_SOLUTION_SOURCE: usize = 2;

/// An entry after the page-level fix-ups: the title taken from its bare-text
/// pieces where the title is empty, and the popularity taken from the deeper
/// markup where that holds some text.
pub open spec fn fixed_contribution(c: ContributionModel) -> ContributionModel {
    let use_alt_title = c.title.len() == 0 && c.title_alt.len() > 0;
    let use_alt_pop = c.pop_alt matches Some(p) && p.len() > 0;
    ContributionModel {
        title: if use_alt_title { concat_all(c.title_alt) } else { c.title },
        title_alt: if use_alt_title { Seq::empty() } else { c.title_alt },
        topic: c.topic,
        popularity: if use_alt_pop { c.pop_alt } else { c.popularity },
        pop_alt: if use_alt_pop { None } else { c.pop_alt },
        difficulty: c.difficulty,
        url: c.url,
    }
}

/// Fixing up an entry a second time changes nothing.
pub proof fn lemma_fixed_contribution_idempotent(c: ContributionModel)
    ensures
        fixed_contribution(fixed_contribution(c)) == fixed_contribution(c),
{
    let f = fixed_contribution(c);
    assert(fixed_contribution(f) =~= f);
}

/// A "Needs Solution" entry: what was read as popularity is its difficulty.
pub open spec fn need_solution_entry(c: ContributionModel) -> ContributionModel {
    ContributionModel {
        title: c.title,
        title_alt: c.title_alt,
        topic: c.topic,
        popularity: None,
        pop_alt: c.pop_alt,
        difficulty: c.popularity,
        url: c.url,
    }
}

/// A "Needs Solution" entry keeps its address, title and topic, takes what
/// was read as popularity as its difficulty, and has no popularity.
pub proof fn lemma_need_solution_entry_moves_difficulty(c: ContributionModel)
    ensures
        need_solution_entry(c).difficulty == c.popularity,
        need_solution_entry(c).popularity is None,
        need_solution_entry(c).url == c.url,
        need_solution_entry(c).title == c.title,
        need_solution_entry(c).topic == c.topic,
{
}

/// The fix-ups keep an entry's address, topic and difficulty; a non-empty
/// title stays, and an empty one is replaced by its pieces joined where it has
/// pieces, which are then dropped.
pub proof fn lemma_fixed_contribution_fields(c: ContributionModel)
    ensures
        fixed_contribution(c).url == c.url,
        fixed_contribution(c).topic == c.topic,
        fixed_contribution(c).difficulty == c.difficulty,
        c.title.len() > 0 ==> fixed_contribution(c).title == c.title,
        c.title.len() == 0 && c.title_alt.len() > 0 ==> fixed_contribution(c).title == concat_all(c.title_alt)
            && fixed_contribution(c).title_alt.len() == 0,
        (c.pop_alt matches Some(p) && p.len() > 0) ==> fixed_contribution(c).popularity == c.pop_alt
            && fixed_contribution(c).pop_alt is None,
        !(c.pop_alt matches Some(p) && p.len() > 0) ==> fixed_contribution(c).popularity == c.popularity,
{
}

/// The models of a sequence of entries.
pub open spec fn models(v: Seq<CommunityListContribution>) -> Seq<ContributionModel> {
    v.map_values(|c: CommunityListContribution| c@)
}

/// Some entry of `found` has the address `url`.
pub open spec fn has_url(found: Seq<ContributionModel>, url: Seq<char>) -> bool {
    exists|i: int| 0 <= i < found.len() && (#[trigger] found[i]).url == url
}

/// `found` followed by those `items` whose address is not yet there, each
/// item checked against everything before it.
pub open spec fn merge_new(found: Seq<ContributionModel>, items: Seq<ContributionModel>) -> Seq<
    ContributionModel,
>
    decreases items.len(),
{
    if items.len() == 0 {
        found
    } else {
        let acc = merge_new(found, items.drop_last());
        if has_url(acc, items.last().url) {
            acc
        } else {
            acc.push(items.last())
        }
    }
}

/// No two entries share an address.
pub open spec fn distinct_urls(found: Seq<ContributionModel>) -> bool {
    forall|i: int, j: int|
        0 <= i < found.len() && 0 <= j < found.len() && i != j ==> (#[trigger] found[i]).url
            != (#[trigger] found[j]).url
}

/// The page's first entry is already known: the rest of this source was
/// crawled before.
pub open spec fn cached_page(
    source: usize,
    cache_checked: bool,
    found: Seq<ContributionModel>,
    page: Seq<ContributionModel>,
) -> bool {
    &&& !cache_checked
    &&& source != NEED_SOLUTION_SOURCE
    &&& page.len() > 0
    &&& has_url(found, page[0].url)
}

/// What was found, after a (fixed-up, not cached) page of `source` is taken in.
pub open spec fn found_after(
    source: usize,
    found: Seq<ContributionModel>,
    page: Seq<ContributionModel>,
) -> Seq<ContributionModel> {
    if source == NEED_SOLUTION_SOURCE {
        merge_new(found, page.map_values(|c: ContributionModel| need_solution_entry(c)))
    } else {
        found + page
    }
}

/// The fixed-up entries of a listing page.
pub open spec fn fixed_page(list: CommunityList) -> Seq<ContributionModel> {
    list@.contributions.map_values(|c: ContributionModel| fixed_contribution(c))
}

/// Only the page's first entry decides whether a source was crawled before:
/// where its address is new (the cache not yet checked, the source not
/// "Needs Solution"), the page is no cached page and is appended as it is,
/// whatever its later entries are.
pub proof fn lemma_first_entry_decides_cache(
    source: usize,
    found: Seq<ContributionModel>,
    page: Seq<ContributionModel>,
)
    requires
        source != 2,
        page.len() > 0,
        !has_url(found, page[0].url),
    ensures
        !cached_page(source, false, found, page),
        found_after(source, found, page) == found + page,
{
}

/// A page whose first entry is already known, met before the cache was
/// checked in a source other than "Needs Solution", is a cached page.
pub proof fn lemma_known_first_entry_is_cached(
    source: usize,
    found: Seq<ContributionModel>,
    page: Seq<ContributionModel>,
)
    requires
        source != 2,
        page.len() > 0,
        has_url(found, page[0].url),
    ensures
        cached_page(source, false, found, page),
{
}

/// What the crawl does after a listing page.
pub enum PageStep {
    /// The page was crawled before: go on with the next source, saving nothing.
    SkipSource,
    /// Fetch this address next, within the same source.
    FetchNext(String),
    /// The source has no further page: save what was found.
    SourceDone,
}

/// The state of the listing crawl.
pub struct CrawlState {
    /// Index of the listing source being crawled.
    pub source: usize,
    /// Whether this source's pages were already checked against the cache.
    pub cache_checked: bool,
    /// Every entry found so far, in the order found.
    pub found: Vec<CommunityListContribution>,
}

/// Applies the page-level fix-ups to one entry.
pub fn fix_contribution(c: CommunityListContribution) -> (r: CommunityListContribution)
    ensures
        r@ == fixed_contribution(c@),
{
    let CommunityListContribution { title, _title_alt, topic, popularity, _pop_alt, difficulty, url } =
        c;
    let use_alt_title = title.as_str().is_empty() && _title_alt.len() > 0;
    let (title, _title_alt) = if use_alt_title {
        (concat_strings(&_title_alt), Vec::new())
    } else {
        (title, _title_alt)
    };
    let use_alt_pop = match &_pop_alt {
        Some(p) => !p.as_str().is_empty(),
        None => false,
    };
    let (popularity, _pop_alt) = if use_alt_pop {
        (_pop_alt, None)
    } else {
        (popularity, _pop_alt)
    };
    let r = CommunityListContribution { title, _title_alt, topic, popularity, _pop_alt, difficulty, url };
    proof {
        assert(r@ =~= fixed_contribution(c@));
    }
    r
}

/// Whether some entry of `found` has the address `url`.
pub fn contains_url(found: &Vec<CommunityListContribution>, url: &String) -> (b: bool)
    ensures
        b == has_url(models(found@), url@),
{
    let mut i: usize = 0;
    while i < found.len()
        invariant
            i <= found@.len(),
            forall|k: int| 0 <= k < i ==> (#[trigger] found@[k])@.url != url@,
        decreases found.len() - i,
    {
        if found[i].url == *url {
            assert(models(found@)[i as int].url == url@);
            return true;
        }
        i += 1;
    }
    assert forall|k: int| 0 <= k < models(found@).len() implies (#[trigger] models(found@)[k]).url
        != url@ by {
        assert(models(found@)[k] == found@[k]@);
    }
    false
}

/// The index of the first entry of `found` with the address `url`.
pub fn url_position(found: &Vec<CommunityListContribution>, url: &String) -> (r: Option<usize>)
    ensures
        r is None <==> !has_url(models(found@), url@),
        r matches Some(i) ==> {
            &&& i < found@.len()
            &&& found@[i as int]@.url == url@
            &&& forall|k: int| 0 <= k < i ==> (#[trigger] found@[k])@.url != url@
        },
{
    let mut i: usize = 0;
    while i < found.len()
        invariant
            i <= found@.len(),
            forall|k: int| 0 <= k < i ==> (#[trigger] found@[k])@.url != url@,
        decreases found.len() - i,
    {
        if found[i].url == *url {
            assert(models(found@)[i as int].url == url@);
            return Some(i);
        }
        i += 1;
    }
    assert forall|k: int| 0 <= k < models(found@).len() implies (#[trigger] models(found@)[k]).url
        != url@ by {
        assert(models(found@)[k] == found@[k]@);
    }
    None
}

proof fn lemma_merge_new_prefix(found: Seq<ContributionModel>, items: Seq<ContributionModel>)
    ensures
        found.len() <= merge_new(found, items).len(),
        merge_new(found, items).take(found.len() as int) == found,
    decreases items.len(),
{
    if items.len() > 0 {
        lemma_merge_new_prefix(found, items.drop_last());
        let acc = merge_new(found, items.drop_last());
        assert(acc.push(items.last()).take(found.len() as int) =~= acc.take(found.len() as int));
    } else {
        assert(found.take(found.len() as int) =~= found);
    }
}

/// Merging never drops an entry: what was found stays, in place.
pub proof fn lemma_merge_keeps_found(found: Seq<ContributionModel>, items: Seq<ContributionModel>)
    ensures
        found.len() <= merge_new(found, items).len(),
        forall|i: int| 0 <= i < found.len() ==> #[trigger] merge_new(found, items)[i] == found[i],
{
    lemma_merge_new_prefix(found, items);
    let m = merge_new(found, items);
    assert forall|i: int| 0 <= i < found.len() implies #[trigger] m[i] == found[i] by {
        assert(m.take(found.len() as int)[i] == m[i]);
    }
}

/// Merging adds no address twice: entries with distinct addresses stay
/// distinct, and every merged item's address is then present.
pub proof fn lemma_merge_distinct(found: Seq<ContributionModel>, items: Seq<ContributionModel>)
    requires
        distinct_urls(found),
    ensures
        distinct_urls(merge_new(found, items)),
        forall|k: int| 0 <= k < items.len() ==> has_url(merge_new(found, items), #[trigger] items[k].url),
    decreases items.len(),
{
    if items.len() > 0 {
        let rest = items.drop_last();
        lemma_merge_distinct(found, rest);
        let acc = merge_new(found, rest);
        let m = merge_new(found, items);
        let last = items.last();
        if !has_url(acc, last.url) {
            assert forall|i: int, j: int|
                0 <= i < m.len() && 0 <= j < m.len() && i != j implies (#[trigger] m[i]).url
                != (#[trigger] m[j]).url by {
                if i < acc.len() && j < acc.len() {
                    assert(m[i] == acc[i] && m[j] == acc[j]);
                } else if i == acc.len() {
                    assert(m[j] == acc[j]);
                } else {
                    assert(m[i] == acc[i]);
                }
            }
            assert(m[acc.len() as int] == last);
        }
        assert forall|k: int| 0 <= k < items.len() implies has_url(m, #[trigger] items[k].url) by {
            if k < rest.len() {
                assert(rest[k] == items[k]);
                let w = choose|i: int| 0 <= i < acc.len() && (#[trigger] acc[i]).url == rest[k].url;
                assert(m[w] == acc[w]);
            } else {
                if has_url(acc, last.url) {
                    let w = choose|i: int| 0 <= i < acc.len() && (#[trigger] acc[i]).url == last.url;
                    assert(m[w] == acc[w]);
                } else {
                    assert(m[acc.len() as int] == last);
                }
            }
        }
    }
}

impl CrawlState {
    /// A crawl starting at the first source with the entries already known.
    pub fn new(found: Vec<CommunityListContribution>) -> (s: CrawlState)
        ensures
            s.source == 0,
            !s.cache_checked,
            s.found@ == found@,
    {
        CrawlState { source: 0, cache_checked: false, found }
    }

    /// Moves on to listing source `source`, not yet checked against the cache.
    pub fn start_source(&mut self, source: usize)
        ensures
            final(self).source == source,
            !final(self).cache_checked,
            final(self).found@ == old(self).found@,
    {
        self.source = source;
        self.cache_checked = false;
    }

    /// Takes in a fetched listing page and says what to do next.
    pub fn absorb_page(&mut self, list: CommunityList) -> (step: PageStep)
        ensures
            final(self).source == old(self).source,
            cached_page(old(self).source, old(self).cache_checked, models(old(self).found@), fixed_page(list))
                ==> {
                &&& step is SkipSource
                &&& final(self).cache_checked == old(self).cache_checked
                &&& final(self).found@ == old(self).found@
            },
            !cached_page(old(self).source, old(self).cache_checked, models(old(self).found@), fixed_page(list))
                ==> {
                &&& final(self).cache_checked == (old(self).cache_checked || (old(self).source
                    != NEED_SOLUTION_SOURCE && fixed_page(list).len() > 0))
                &&& models(final(self).found@) == found_after(
                    old(self).source,
                    models(old(self).found@),
                    fixed_page(list),
                )
                &&& match list.next_page_path {
                    Some(p) => step matches PageStep::FetchNext(u) && u@ == p@,
                    None => step is SourceDone,
                }
            },
            // Only the first entry is looked up in what was found.
            step is SkipSource ==> {
                &&& !old(self).cache_checked
                &&& old(self).source != 2
                &&& list@.contributions.len() > 0
                &&& has_url(models(old(self).found@), list@.contributions[0].url)
            },
            !old(self).cache_checked && old(self).source != 2 && list@.contributions.len() > 0
                && !has_url(models(old(self).found@), list@.contributions[0].url) ==> {
                &&& !(step is SkipSource)
                &&& final(self).cache_checked
                &&& final(self).found@.len() == old(self).found@.len() + list@.contributions.len()
                &&& forall|k: int|
                    0 <= k < list@.contributions.len() ==> (#[trigger] final(self).found@[old(
                        self,
                    ).found@.len() + k])@.url == list@.contributions[k].url
            },
            // What was found before stays, in place.
            old(self).found@.len() <= final(self).found@.len(),
            forall|i: int|
                0 <= i < old(self).found@.len() ==> models(final(self).found@)[i] == models(
                    old(self).found@,
                )[i],
    {
        let CommunityList { contributions, next_page_path } = list;
        let ghost raw = contributions@;
        let mut page: Vec<CommunityListContribution> = Vec::new();
        for c in it: contributions.into_iter()
            invariant
                it.seq() == raw,
                page@.len() == it.index(),
                forall|k: int|
                    0 <= k < it.index() ==> (#[trigger] page@[k])@ == fixed_contribution(raw[k]@),
        {
            page.push(fix_contribution(c));
        }
        let ghost fixed = models(page@);
        assert(fixed =~= fixed_page(list));
        if !self.cache_checked && self.source != NEED_SOLUTION_SOURCE && page.len() > 0 {
            if contains_url(&self.found, &page[0].url) {
                assert(fixed[0] == page@[0]@);
                return PageStep::SkipSource;
            }
            self.cache_checked = true;
        }
        proof {
            if page@.len() > 0 {
                assert(fixed[0] == page@[0]@);
            }
        }
        let ghost before = models(self.found@);
        let ghost checked = self.cache_checked;
        if self.source == NEED_SOLUTION_SOURCE {
            let ghost items = fixed.map_values(|c: ContributionModel| need_solution_entry(c));
            let ghost pv = page@;
            for item in it: page.into_iter()
                invariant
                    it.seq() == pv,
                    models(pv) == fixed,
                    items == fixed.map_values(|c: ContributionModel| need_solution_entry(c)),
                    models(self.found@) == merge_new(before, items.take(it.index() as int)),
                    self.source == NEED_SOLUTION_SOURCE,
                    self.cache_checked == checked,
            {
                let ghost k = it.index();
                let CommunityListContribution { title, _title_alt, topic, popularity, _pop_alt, difficulty: _, url } =
                    item;
                let entry = CommunityListContribution {
                    title,
                    _title_alt,
                    topic,
                    popularity: None,
                    _pop_alt,
                    difficulty: popularity,
                    url,
                };
                proof {
                    assert(pv[k] == item);
                    assert(fixed[k] == item@);
                    assert(entry@ =~= items[k]);
                    assert(items.take(k + 1).drop_last() =~= items.take(k));
                    assert(items.take(k + 1).last() == items[k]);
                }
                let ghost acc = models(self.found@);
                if !contains_url(&self.found, &entry.url) {
                    self.found.push(entry);
                    proof {
                        assert(models(self.found@) =~= acc.push(entry@));
                    }
                }
            }
            proof {
                assert(items.take(pv.len() as int) =~= items);
            }
        } else {
            let mut page = page;
            self.found.append(&mut page);
            proof {
                assert(models(self.found@) =~= before + fixed);
            }
        }
        proof {
            lemma_merge_keeps_found(before, fixed.map_values(|c: ContributionModel| need_solution_entry(c)));
        }
        match next_page_path {
            Some(p) => PageStep::FetchNext(p),
            None => PageStep::SourceDone,
        }
    }
}

} // verus!
