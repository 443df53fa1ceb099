//! The LCSC product search: the request URL, the response, and the product
//! page link read from it.

use vstd::prelude::*;
use crate::text::concat_text;

verus! {

/// Response of the LCSC search endpoint.
pub struct SearchResponse {
    pub success: bool,
    pub message: String,
    pub result: SearchResult,
}

/// The product link of a search that found an exact match.
pub struct SearchResultLink {
    pub lcsc_part_number: bool,
    pub links: String,
}

/// The result of a search: a link, or (when there is no exact match) a list.
pub enum SearchResult {
    Link(SearchResultLink),
    Array(Vec<String>),
}

impl SearchResult {
    pub fn is_link(&self) -> (r: bool)
        ensures
            r == (self is Link),
    {
        match self {
            SearchResult::Link(_) => true,
            _ => false,
        }
    }

    pub fn get_link(self) -> (r: SearchResultLink)
        requires
            self is Link,
        ensures
            r == self->Link_0,
    {
        match self {
            SearchResult::Link(l) => l,
            SearchResult::Array(_) => {
                proof {
                    assert(false);
                }
                SearchResultLink { lcsc_part_number: false, links: String::new() }
            },
        }
    }
}

/// The URL that searches LCSC for `part_number`.
pub open spec fn search_url(part_number: Seq<char>) -> Seq<char> {
    "https://lcsc.com/api/global/additional/search?q="@ + part_number
}

pub fn lcsc_search_url(part_number: &str) -> (r: String)
    ensures
        r@ == search_url(part_number@),
{
    concat_text("https://lcsc.com/api/global/additional/search?q=", part_number)
}

/// Why a search response gives no product page.
pub struct NoProductLink {
    pub success: bool,
    pub is_link: bool,
}

/// The product page of a successful search that found a link: the site
/// address followed by the link's path.
pub fn product_link(response: SearchResponse) -> (r: Result<String, NoProductLink>)
    ensures
        r is Ok <==> (response.success && response.result is Link),
        r matches Ok(url) ==> url@ == "https://lcsc.com"@ + response.result->Link_0.links@,
        r matches Err(e) ==> e.success == response.success && e.is_link == (
        response.result is Link),
{
    let is_link = response.result.is_link();
    if !response.success || !is_link {
        return Err(NoProductLink { success: response.success, is_link });
    }
    let link = response.result.get_link();
    Ok(concat_text("https://lcsc.com", link.links.as_str()))
}

} // verus!
