use scrape_brilliant::correct_url;
use scrape_brilliant::urls::complete_url;

#[test]
fn correct_url_protocol_relative() {
    assert_eq!(correct_url(String::from("//ds055uzetaobb.cloudfront.net/a.png")), "https://ds055uzetaobb.cloudfront.net/a.png");
}

#[test]
fn correct_url_root_relative() {
    assert_eq!(correct_url(String::from("/site_media/style.css")), "https://brilliant.org/site_media/style.css");
}

#[test]
fn correct_url_absolute_kept() {
    assert_eq!(correct_url(String::from("https://example.com/x")), "https://example.com/x");
    assert_eq!(correct_url(String::new()), "");
}

#[test]
fn correct_url_idempotent() {
    for s in ["//a/b", "/a", "b", "", "///x"] {
        let once = correct_url(String::from(s));
        assert_eq!(correct_url(once.clone()), once);
    }
}

#[test]
fn complete_url_prefixes_origin() {
    assert_eq!(complete_url("/problems/a-b/"), "https://brilliant.org/problems/a-b/");
    let full = complete_url("/x");
    assert_eq!(correct_url(full.clone()), full);
}
