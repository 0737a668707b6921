//! The listing endpoint's response, and the listing page inside it.
use vstd::prelude::*;
use crate::scraping::{CommunityList, ScrapeError, outcome_matches, scraped_list};

verus! {

/// One action of the listing endpoint's response.
#[derive(Debug)]
pub struct ResponseCommunityPortalProblems {
    pub component_key: String,
    pub js_failure_mode: String,
    /// The markup of the listing page.
    pub new_html: String,
    pub version: isize,
}

/// The listing endpoint's response: its actions by name. Which action comes
/// first is not fixed by the endpoint.
#[derive(Debug)]
pub struct Response {
    pub actions: Vec<(String, ResponseCommunityPortalProblems)>,
}

/// The listing page markup that a response carries: that of its first action.
pub open spec fn response_markup(resp: Response) -> Option<Seq<char>> {
    if resp.actions@.len() > 0 {
        Some(resp.actions@[0].1.new_html@)
    } else {
        None
    }
}

/// Scrapes the listing page that the response carries.
pub fn scrape_community_response(resp: &Response) -> (r: Result<CommunityList, ScrapeError>)
    ensures
        response_markup(*resp) matches Some(html) ==> outcome_matches(r, scraped_list(html)),
        response_markup(*resp) is None ==> r == Err::<CommunityList, ScrapeError>(ScrapeError::NoActions),
{
    if resp.actions.len() == 0 {
        return Err(ScrapeError::NoActions);
    }
    CommunityList::scrape_html(resp.actions[0].1.new_html.as_str())
}

} // verus!
