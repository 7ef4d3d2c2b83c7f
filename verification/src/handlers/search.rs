use vstd::prelude::*;

use crate::models::property::{str_or_empty, text_or_empty};
use crate::text::{spec_trim, trim};

verus! {

/// The query string of the search page.
pub struct SearchQuery {
    pub q: Option<String>,
}

/// How many listings a search shows at most.
pub const SEARCH_LIMIT: i64 = 20;

/// A search to run: the query text and the number of results to show.
pub struct SearchRequest {
    pub query: String,
    pub limit: i64,
}

/// Handles the search page's query: a query that is absent or blank once
/// trimmed shows an empty result list without searching; any other query is
/// searched as given, for at most `SEARCH_LIMIT` results.
pub fn search(params: &SearchQuery) -> (r: Option<SearchRequest>)
    ensures
        r is None <==> spec_trim(text_or_empty(params.q)).len() == 0,
        r matches Some(req) ==> req.query@ == text_or_empty(params.q) && req.limit == SEARCH_LIMIT,
{
    let query = str_or_empty(&params.q);
    if trim(query).is_empty() {
        None
    } else {
        Some(SearchRequest { query: query.to_owned(), limit: SEARCH_LIMIT })
    }
}

} // verus!
