use scrape_brilliant::scraping::{
    transform_next_page_url, transform_styles, transform_title, transform_title2, transform_trim,
    transform_trim_opt, transform_url, CommunityList, ContributionProblem, Field, ScrapeError,
};
use scrape_brilliant::requesting::{scrape_community_response, Response, ResponseCommunityPortalProblems};

const LISTING: &str = r#"<html><head></head><body>
<div class="nf-feed-item-wrapper first">
  <div>
    <a href="/problems/first-problem/"><span>  First Problem </span></a>
    <span> Algebra </span>
    <span> 12 solvers </span>
    <span> Level 3 </span>
  </div>
</div>
<div class="nf-feed-item-wrapper">
  <div>
    <a href="/discussions/thread/talk/"> Part one </a>
    <span>Geometry</span>
    <span><span> 40 </span></span>
  </div>
</div>
<a data-next_url="/community/home/problems/new/all/all/?page=2">more</a>
</body></html>"#;

#[test]
fn transform_title_trims_or_defaults() {
    assert_eq!(transform_title(Some(String::from("  A title\n"))), "A title");
    assert_eq!(transform_title(None), "");
}

#[test]
fn transform_title2_drops_empty_pieces() {
    let r = transform_title2(vec![String::from("  "), String::from(" What "), String::new(), String::from("is\t")]);
    assert_eq!(r, vec![String::from("What"), String::from("is")]);
    for piece in &r {
        assert!(!piece.is_empty());
        assert_eq!(piece.trim(), piece);
    }
}

#[test]
fn transform_trims() {
    assert_eq!(transform_trim(String::from(" Calculus ")), "Calculus");
    assert_eq!(transform_trim_opt(Some(String::from(" 5 "))), Some(String::from("5")));
    assert_eq!(transform_trim_opt(None), None);
}

#[test]
fn transform_url_and_styles() {
    assert_eq!(transform_url(String::from("/problems/x/")), "https://brilliant.org/problems/x/");
    assert_eq!(
        transform_styles(vec![String::from("/a.css"), String::from("//cdn.x/b.css"), String::from("https://c/d.css")]),
        vec![String::from("https://brilliant.org/a.css"), String::from("https://cdn.x/b.css"), String::from("https://c/d.css")]
    );
}

#[test]
fn transform_next_page_url_appends_query() {
    assert_eq!(
        transform_next_page_url(Some(String::from("/community/home/?page=2"))),
        Some(String::from("https://brilliant.org/community/home/?page=2&page_key=community_portal_problems&filter_content_type=&reviewed_state=&version=1&deferred=false"))
    );
    assert_eq!(transform_next_page_url(None), None);
}

#[test]
fn scrape_listing_page() {
    let list = CommunityList::scrape_html(LISTING).ok().expect("listing scrapes");
    assert_eq!(list.contributions.len(), 2);
    let first = &list.contributions[0];
    assert_eq!(first.title, "First Problem");
    assert!(first._title_alt.is_empty());
    assert_eq!(first.topic, "Algebra");
    assert_eq!(first.popularity, Some(String::from("12 solvers")));
    assert_eq!(first.difficulty, Some(String::from("Level 3")));
    assert_eq!(first.url, "https://brilliant.org/problems/first-problem/");
    let second = &list.contributions[1];
    assert_eq!(second.title, "");
    assert_eq!(second._title_alt, vec![String::from("Part one")]);
    assert_eq!(second.topic, "Geometry");
    assert_eq!(second._pop_alt, Some(String::from("40")));
    assert_eq!(second.difficulty, None);
    assert_eq!(second.url, "https://brilliant.org/discussions/thread/talk/");
    assert_eq!(
        list.next_page_path,
        Some(String::from("https://brilliant.org/community/home/problems/new/all/all/?page=2&page_key=community_portal_problems&filter_content_type=&reviewed_state=&version=1&deferred=false"))
    );
}

#[test]
fn scrape_listing_without_entries() {
    let list = CommunityList::scrape_html("<html><body><p>nothing</p></body></html>").ok().expect("scrapes");
    assert!(list.contributions.is_empty());
    assert_eq!(list.next_page_path, None);
}

#[test]
fn scrape_listing_entry_without_topic_fails() {
    let html = r#"<html><body><div class="nf-feed-item-wrapper"><div><a href="/p/">x</a></div></div></body></html>"#;
    match CommunityList::scrape_html(html) {
        Err(e) => assert_eq!(e, ScrapeError::FieldValue(Field::Contributions)),
        Ok(_) => panic!("an entry without a topic must fail"),
    }
}

#[test]
fn scrape_problem_page() {
    let html = String::from(r#"<html><head><link rel="stylesheet" href="/static/site.css"><link rel="icon" href="/i.ico"></head><body><img src="//cdn.example.com/a.png"><img src="/b.png"></body></html>"#);
    let problem = ContributionProblem::scrape_html(html.clone()).ok().expect("problem scrapes");
    assert_eq!(problem.html, html);
    assert_eq!(problem.styles, vec![String::from("https://brilliant.org/static/site.css")]);
    assert_eq!(problem.images, vec![String::from("//cdn.example.com/a.png"), String::from("/b.png")]);
}

#[test]
fn response_without_actions() {
    let resp = Response { actions: Vec::new() };
    match scrape_community_response(&resp) {
        Err(e) => assert_eq!(e, ScrapeError::NoActions),
        Ok(_) => panic!("no actions must fail"),
    }
}

#[test]
fn response_with_listing() {
    let resp = Response {
        actions: vec![(
            String::from("community_portal_problems"),
            ResponseCommunityPortalProblems {
                component_key: String::from("k"),
                js_failure_mode: String::from("m"),
                new_html: String::from(LISTING),
                version: 1,
            },
        )],
    };
    let list = scrape_community_response(&resp).ok().expect("scrapes");
    assert_eq!(list.contributions.len(), 2);
}
