pub mod archive;
pub mod crawl;
pub mod page;
pub mod requesting;
pub mod scraping;
pub mod text;
pub mod urls;

pub use urls::correct_url;
pub use requesting::{Response, ResponseCommunityPortalProblems};
pub use scraping::{CommunityList, CommunityListContribution, ContributionProblem};
