use scrape_brilliant::archive::{
    archive_path_for, inject_reply_style, join_path, page_storage_url, prepare_page, relink_image,
    save_plan_for, served_file_path, ArchiveError, stored_page_path, should_archive_contribution,
    should_download, relink_if_local, page_to_save,
};

#[test]
fn join_path_like_pathbuf_push() {
    assert_eq!(join_path("./archive", "problems/x"), "./archive/problems/x");
    assert_eq!(join_path("./archive/", "x"), "./archive/x");
    assert_eq!(join_path("./archive", "/etc/x"), "/etc/x");
    assert_eq!(join_path("./archive", ""), "./archive/");
    assert_eq!(join_path("", "x"), "x");
    for (base, part) in [("./archive", "problems/x"), ("./archive/", "x"), ("./archive", "/etc/x"), ("./archive", ""), ("", "x"), ("a/b", "c_d/e.png")] {
        let mut p = std::path::PathBuf::from(base);
        p.push(part);
        assert_eq!(join_path(base, part), p.to_str().unwrap(), "{:?}", (base, part));
    }
}

#[test]
fn archive_path_of_site_page() {
    assert_eq!(archive_path_for("https://brilliant.org/problems/a-b/"), Ok(String::from("./archive/problems/a-b/")));
    assert_eq!(archive_path_for("https://cdn.example.com/img/a.png"), Ok(String::from("./archive/img/a.png")));
}

#[test]
fn archive_path_of_invalid_url() {
    assert_eq!(archive_path_for("not a url"), Err(ArchiveError::InvalidUrl));
}

#[test]
fn save_plan_for_site_page() {
    let plan = save_plan_for("https://brilliant.org/problems/a-b.html").ok().expect("plan");
    assert_eq!(plan.file_path, "./archive/problems/a-b.html");
    assert_eq!(plan.local_url, None);
    assert_eq!(Ok(plan.file_path), archive_path_for("https://brilliant.org/problems/a-b.html"));
}

#[test]
fn save_plan_for_other_host() {
    let plan = save_plan_for("https://ds055uzetaobb.cloudfront.net/brioche/uploads/x.png").ok().expect("plan");
    assert_eq!(plan.file_path, "./archive/ds055uzetaobb_cloudfront_net/brioche/uploads/x.png");
    assert_eq!(plan.local_url, Some(String::from("/ds055uzetaobb_cloudfront_net/brioche/uploads/x.png")));
}

#[test]
fn save_plan_errors() {
    assert!(matches!(save_plan_for("::"), Err(ArchiveError::InvalidUrl)));
    assert!(matches!(save_plan_for("data:text/plain,Stuff"), Err(ArchiveError::NoHost)));
}

#[test]
fn page_storage_url_adds_html() {
    assert_eq!(page_storage_url(String::from("https://brilliant.org/problems/a/")), "https://brilliant.org/problems/a.html");
    assert_eq!(page_storage_url(String::from("https://brilliant.org/problems/a")), "https://brilliant.org/problems/a");
    assert_eq!(page_storage_url(String::from("/")), ".html");
}

#[test]
fn prepare_page_shows_thread_replies() {
    let html = String::from(r#"<div class="cmmnt hide" data-level="1">"#);
    assert_eq!(prepare_page("https://brilliant.org/discussions/thread/x/", html.clone()), r#"<div class="cmmnt " data-level="1">"#);
    assert_eq!(prepare_page("https://brilliant.org/problems/x/", html.clone()), html);
}

#[test]
fn relink_image_replaces_every_occurrence() {
    assert_eq!(
        relink_image(r#"<img src="//cdn.x/a.png"><img src="//cdn.x/a.png">"#, "//cdn.x/a.png", "/cdn_x/a.png"),
        r#"<img src="/cdn_x/a.png"><img src="/cdn_x/a.png">"#
    );
}

#[test]
fn inject_reply_style_after_head() {
    assert_eq!(
        inject_reply_style("<html><head><title>t</title></head></html>"),
        "<html><head>\n\t\t<style>.cmmnt-container.hide { display: block !important; }</style><title>t</title></head></html>"
    );
    assert_eq!(inject_reply_style("<p>no head</p>"), "<p>no head</p>");
}

#[test]
fn served_file_path_under_archive() {
    assert_eq!(served_file_path("/problems/x.html"), "./archive/problems/x.html");
}

#[test]
fn skip_option_skips_only_stored_pages() {
    assert!(should_archive_contribution(false, false));
    assert!(should_archive_contribution(false, true));
    assert!(should_archive_contribution(true, false));
    assert!(!should_archive_contribution(true, true));
}

#[test]
fn download_only_what_is_not_stored() {
    assert!(should_download(false));
    assert!(!should_download(true));
}

#[test]
fn stored_page_path_of_listed_page() {
    assert_eq!(stored_page_path("https://brilliant.org/problems/a-b/"), Ok(String::from("./archive/problems/a-b.html")));
    assert_eq!(stored_page_path("nonsense"), Err(ArchiveError::InvalidUrl));
}

#[test]
fn relink_only_with_local_address() {
    let html = String::from(r#"<img src="//cdn.x/a.png">"#);
    assert_eq!(relink_if_local(html.clone(), "//cdn.x/a.png", None), html);
    assert_eq!(relink_if_local(html, "//cdn.x/a.png", Some(String::from("/cdn_x/a.png"))), r#"<img src="/cdn_x/a.png">"#);
}

#[test]
fn page_saved_only_when_absent() {
    let html = String::from(r#"<div class="c hide" data-level="2">"#);
    assert_eq!(page_to_save(String::from("https://brilliant.org/discussions/thread/t/"), html.clone(), true), None);
    assert_eq!(
        page_to_save(String::from("https://brilliant.org/discussions/thread/t/"), html, false),
        Some((String::from("https://brilliant.org/discussions/thread/t.html"), String::from(r#"<div class="c " data-level="2">"#)))
    );
}
