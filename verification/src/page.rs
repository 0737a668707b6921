//! Parsed HTML pages and XPath queries on them, through the `scraper_main`
//! crate (and the `xpather` engine it re-exports).
//!
//! The results of parsing and querying are named by the spec functions below:
//! each is a function of the markup and of the query alone, and nothing more
//! is claimed of them here.
//!
//! The query functions accept only the scrapers' own selectors
//! (`scraper_selector`): xpather's tokenizer panics on some other strings,
//! such as one that ends in a space or starts with a non-ASCII character.
use vstd::prelude::*;
use scraper_main::ConvertToValue;
use crate::scraping::scraper_selector;

verus! {

#[verifier::external_type_specification]
#[verifier::external_body]
pub struct ExDocument(scraper_main::Document);

#[verifier::external_type_specification]
#[verifier::external_body]
pub struct ExNode(scraper_main::Node);

#[verifier::external_type_specification]
#[verifier::external_body]
pub struct ExScraperError(scraper_main::Error);

#[verifier::external_type_specification]
#[verifier::external_body]
pub struct ExXpathError(scraper_main::xpather::Error);

/// Whether `xpather::parse_document` reads the markup `html` without error.
pub uninterp spec fn html_parses(html: Seq<char>) -> bool;

/// The number of nodes that `xpath` selects in the document parsed from
/// `html`; `None` where the evaluation fails or selects a value that is no node.
pub uninterp spec fn xpath_node_count(html: Seq<char>, xpath: Seq<char>) -> Option<nat>;

/// The first value that `xpath` yields as text, evaluated in the document
/// parsed from `html`, from its root (`scope` is `None`) or from the node at
/// index `i` among those selected by `x` (`scope` is `Some((x, i))`); `None`
/// where the evaluation fails.
pub uninterp spec fn xpath_first_text(
    html: Seq<char>,
    scope: Option<(Seq<char>, nat)>,
    xpath: Seq<char>,
) -> Option<Option<Seq<char>>>;

/// The first value that `xpath` yields as text, evaluated as for
/// `xpath_first_text`; `None` where the evaluation fails or yields no value.
pub uninterp spec fn xpath_required_text(
    html: Seq<char>,
    scope: Option<(Seq<char>, nat)>,
    xpath: Seq<char>,
) -> Option<Seq<char>>;

/// All the values that `xpath` yields as text, in document order, evaluated
/// as for `xpath_first_text`; `None` where the evaluation fails.
pub uninterp spec fn xpath_texts(
    html: Seq<char>,
    scope: Option<(Seq<char>, nat)>,
    xpath: Seq<char>,
) -> Option<Seq<Seq<char>>>;

/// A parsed HTML page together with the markup it was parsed from.
pub struct HtmlPage {
    html: String,
    doc: scraper_main::Document,
}

impl View for HtmlPage {
    type V = Seq<char>;

    /// The markup the page was parsed from.
    closed spec fn view(&self) -> Seq<char> {
        self.html@
    }
}

/// The nodes that one XPath selects in a page, in document order.
pub struct NodeSelection {
    page: HtmlPage,
    selector: String,
    nodes: Vec<scraper_main::Node>,
}

impl NodeSelection {
    /// The markup of the page the nodes belong to.
    pub closed spec fn source(&self) -> Seq<char> {
        self.page@
    }

    /// The XPath that selected the nodes.
    pub closed spec fn selector(&self) -> Seq<char> {
        self.selector@
    }

    /// How many nodes were selected.
    pub closed spec fn count(&self) -> nat {
        self.nodes@.len()
    }

    /// The number of selected nodes.
    pub fn len(&self) -> (n: usize)
        ensures
            n == self.count(),
    {
        self.nodes.len()
    }
}

/// The place an evaluation starts from: the page's root, or one selected node.
pub open spec fn scope_of(scope: Option<(&NodeSelection, usize)>) -> Option<(Seq<char>, nat)> {
    match scope {
        Some((sel, i)) => Some((sel.selector(), i as nat)),
        None => None,
    }
}

/// Parses `html` with `xpather::parse_document`. Claims: success exactly
/// where `html_parses` holds, and the page remembers its markup.
#[verifier::external_body]
pub(crate) fn parse_page(html: &str) -> (r: Result<HtmlPage, scraper_main::xpather::Error>)
    ensures
        r is Ok <==> html_parses(html@),
        r matches Ok(p) ==> p@ == html@,
{
    match scraper_main::xpather::parse_document(&mut std::io::Cursor::new(html)) {
        Ok(doc) => Ok(HtmlPage { html: html.to_string(), doc }),
        Err(e) => Err(e),
    }
}

/// Evaluates `xpath` from the page's root with `scraper_main::evaluate` and
/// collects the nodes with `ProduceIter::collect_nodes`. Claims: success and
/// the number of nodes are those named by `xpath_node_count`.
#[verifier::external_body]
pub(crate) fn select_nodes(page: &HtmlPage, xpath: &str) -> (r: Result<NodeSelection, scraper_main::Error>)
    requires
        scraper_selector(xpath@),
    ensures
        r is Ok <==> xpath_node_count(page@, xpath@) is Some,
        r matches Ok(sel) ==> {
            &&& sel.source() == page@
            &&& sel.selector() == xpath@
            &&& sel.count() == xpath_node_count(page@, xpath@)->0
        },
{
    let nodes = scraper_main::evaluate(xpath, &page.doc, None)?.collect_nodes()?.nodes;
    let copy = HtmlPage { html: page.html.clone(), doc: page.doc.clone() };
    Ok(NodeSelection { page: copy, selector: xpath.to_string(), nodes })
}

/// Evaluates `xpath` with `scraper_main::evaluate` and converts the result
/// to its first text (`ConvertToValue<Option<String>>`). Claims: the outcome
/// is the one named by `xpath_first_text`.
#[verifier::external_body]
pub(crate) fn first_text(page: &HtmlPage, scope: Option<(&NodeSelection, usize)>, xpath: &str) -> (r:
    Result<Option<String>, scraper_main::Error>)
    requires
        scraper_selector(xpath@),
        scope matches Some((sel, i)) ==> sel.source() == page@ && i < sel.count(),
    ensures
        r is Ok <==> xpath_first_text(page@, scope_of(scope), xpath@) is Some,
        r matches Ok(v) ==> v.deep_view() == xpath_first_text(page@, scope_of(scope), xpath@)->0,
{
    let (doc, container) = match scope {
        Some((sel, i)) => (&sel.page.doc, Some(&sel.nodes[i])),
        None => (&page.doc, None),
    };
    scraper_main::evaluate(xpath, doc, container).convert_from(doc)
}

/// Evaluates `xpath` with `scraper_main::evaluate` and converts the result
/// to a text that must be there (`ConvertToValue<String>`). Claims: the
/// outcome is the one named by `xpath_required_text`.
#[verifier::external_body]
pub(crate) fn required_text(page: &HtmlPage, scope: Option<(&NodeSelection, usize)>, xpath: &str) -> (r:
    Result<String, scraper_main::Error>)
    requires
        scraper_selector(xpath@),
        scope matches Some((sel, i)) ==> sel.source() == page@ && i < sel.count(),
    ensures
        r is Ok <==> xpath_required_text(page@, scope_of(scope), xpath@) is Some,
        r matches Ok(v) ==> v@ == xpath_required_text(page@, scope_of(scope), xpath@)->0,
{
    let (doc, container) = match scope {
        Some((sel, i)) => (&sel.page.doc, Some(&sel.nodes[i])),
        None => (&page.doc, None),
    };
    scraper_main::evaluate(xpath, doc, container).convert_from(doc)
}

/// Evaluates `xpath` with `scraper_main::evaluate` and converts the result
/// to all its texts (`ConvertToValue<Vec<String>>`). Claims: the outcome is
/// the one named by `xpath_texts`.
#[verifier::external_body]
pub(crate) fn all_texts(page: &HtmlPage, scope: Option<(&NodeSelection, usize)>, xpath: &str) -> (r:
    Result<Vec<String>, scraper_main::Error>)
    requires
        scraper_selector(xpath@),
        scope matches Some((sel, i)) ==> sel.source() == page@ && i < sel.count(),
    ensures
        r is Ok <==> xpath_texts(page@, scope_of(scope), xpath@) is Some,
        r matches Ok(v) ==> v.deep_view() == xpath_texts(page@, scope_of(scope), xpath@)->0,
{
    let (doc, container) = match scope {
        Some((sel, i)) => (&sel.page.doc, Some(&sel.nodes[i])),
        None => (&page.doc, None),
    };
    scraper_main::evaluate(xpath, doc, container).convert_from(doc)
}

} // verus!
