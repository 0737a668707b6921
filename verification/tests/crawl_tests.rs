use scrape_brilliant::crawl::{fix_contribution, contains_url, url_position, CrawlState, PageStep, NEED_SOLUTION_SOURCE};
use scrape_brilliant::scraping::{CommunityList, CommunityListContribution};

fn entry(title: &str, url: &str) -> CommunityListContribution {
    CommunityListContribution {
        title: String::from(title),
        _title_alt: Vec::new(),
        topic: String::from("Algebra"),
        popularity: Some(String::from("popular")),
        _pop_alt: None,
        difficulty: None,
        url: String::from(url),
    }
}

fn urls(found: &[CommunityListContribution]) -> Vec<String> {
    found.iter().map(|c| c.url.clone()).collect()
}

#[test]
fn fix_takes_alternative_title_and_popularity() {
    let mut c = entry("", "u");
    c._title_alt = vec![String::from("Part "), String::from("two")];
    c._pop_alt = Some(String::from("40"));
    let f = fix_contribution(c);
    assert_eq!(f.title, "Part two");
    assert!(f._title_alt.is_empty());
    assert_eq!(f.popularity, Some(String::from("40")));
    assert_eq!(f._pop_alt, None);
}

#[test]
fn fix_keeps_present_title_and_empty_alternative_popularity() {
    let mut c = entry("Real", "u");
    c._title_alt = vec![String::from("ignored")];
    c._pop_alt = Some(String::new());
    let f = fix_contribution(c);
    assert_eq!(f.title, "Real");
    assert_eq!(f._title_alt, vec![String::from("ignored")]);
    assert_eq!(f.popularity, Some(String::from("popular")));
    assert_eq!(f._pop_alt, Some(String::new()));
}

#[test]
fn fix_twice_is_fix_once() {
    let mut c = entry("", "u");
    c._title_alt = vec![String::from("a")];
    c._pop_alt = Some(String::from("3"));
    let once = fix_contribution(c);
    let (t, a, p, q) = (once.title.clone(), once._title_alt.clone(), once.popularity.clone(), once._pop_alt.clone());
    let twice = fix_contribution(once);
    assert_eq!((twice.title, twice._title_alt, twice.popularity, twice._pop_alt), (t, a, p, q));
}

#[test]
fn absorb_appends_and_fetches_next() {
    let mut state = CrawlState::new(vec![entry("old", "https://brilliant.org/old/")]);
    let list = CommunityList {
        contributions: vec![entry("a", "https://brilliant.org/a/"), entry("b", "https://brilliant.org/b/")],
        next_page_path: Some(String::from("https://brilliant.org/next")),
    };
    match state.absorb_page(list) {
        PageStep::FetchNext(u) => assert_eq!(u, "https://brilliant.org/next"),
        _ => panic!("expected the next page"),
    }
    assert!(state.cache_checked);
    assert_eq!(urls(&state.found), vec!["https://brilliant.org/old/", "https://brilliant.org/a/", "https://brilliant.org/b/"]);
}

#[test]
fn absorb_skips_cached_source() {
    let mut state = CrawlState::new(vec![entry("a", "https://brilliant.org/a/")]);
    state.start_source(1);
    let list = CommunityList {
        contributions: vec![entry("a", "https://brilliant.org/a/"), entry("c", "https://brilliant.org/c/")],
        next_page_path: Some(String::from("next")),
    };
    assert!(matches!(state.absorb_page(list), PageStep::SkipSource));
    assert!(!state.cache_checked);
    assert_eq!(urls(&state.found), vec!["https://brilliant.org/a/"]);
}

#[test]
fn absorb_checks_cache_only_once_per_source() {
    let mut state = CrawlState::new(Vec::new());
    let first = CommunityList { contributions: vec![entry("a", "A")], next_page_path: Some(String::from("p2")) };
    assert!(matches!(state.absorb_page(first), PageStep::FetchNext(_)));
    let again = CommunityList { contributions: vec![entry("a", "A")], next_page_path: None };
    assert!(matches!(state.absorb_page(again), PageStep::SourceDone));
    assert_eq!(urls(&state.found), vec!["A", "A"]);
}

#[test]
fn need_solution_merges_new_addresses_and_moves_difficulty() {
    let mut state = CrawlState::new(vec![entry("a", "A")]);
    state.start_source(NEED_SOLUTION_SOURCE);
    let list = CommunityList {
        contributions: vec![entry("a", "A"), entry("b", "B"), entry("b again", "B"), entry("c", "C")],
        next_page_path: None,
    };
    assert!(matches!(state.absorb_page(list), PageStep::SourceDone));
    assert!(!state.cache_checked);
    assert_eq!(urls(&state.found), vec!["A", "B", "C"]);
    assert_eq!(state.found[0].popularity, Some(String::from("popular")));
    assert_eq!(state.found[1].title, "b");
    assert_eq!(state.found[1].difficulty, Some(String::from("popular")));
    assert_eq!(state.found[1].popularity, None);
}

#[test]
fn contains_url_finds_address() {
    let found = vec![entry("a", "A"), entry("b", "B")];
    assert!(contains_url(&found, &String::from("B")));
    assert!(!contains_url(&found, &String::from("C")));
}

#[test]
fn url_position_finds_first_index() {
    let found = vec![entry("a", "A"), entry("b", "B"), entry("b2", "B")];
    assert_eq!(url_position(&found, &String::from("B")), Some(1));
    assert_eq!(url_position(&found, &String::from("Z")), None);
}
