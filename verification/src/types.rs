//! Data shapes of the search pipeline: raw upstream records, canonical
//! results, and the per-query and per-batch reports, together with their
//! mathematical views.

use vstd::prelude::*;

verus! {

/// One canonical search result; both fields are non-empty after trimming,
/// or the record is never constructed.
pub struct SearchResult {
    pub url: String,
    pub description: String,
}

/// The view of a `SearchResult`: its two fields as character sequences.
pub struct SearchResultV {
    pub url: Seq<char>,
    pub description: Seq<char>,
}

impl DeepView for SearchResult {
    type V = SearchResultV;

    open spec fn deep_view(&self) -> SearchResultV {
        SearchResultV { url: self.url@, description: self.description@ }
    }
}

impl Clone for SearchResult {
    fn clone(&self) -> (r: Self)
        ensures
            r == *self,
    {
        SearchResult { url: self.url.clone(), description: self.description.clone() }
    }
}

/// One raw record as the upstream engine reports it; every field may be
/// missing.
pub struct SearxngResultItem {
    pub url: Option<String>,
    pub content: Option<String>,
    pub title: Option<String>,
    pub img_src: Option<String>,
}

/// The view of a raw upstream record.
pub struct SearxngResultItemV {
    pub url: Option<Seq<char>>,
    pub content: Option<Seq<char>>,
    pub title: Option<Seq<char>>,
    pub img_src: Option<Seq<char>>,
}

impl DeepView for SearxngResultItem {
    type V = SearxngResultItemV;

    open spec fn deep_view(&self) -> SearxngResultItemV {
        SearxngResultItemV {
            url: self.url.deep_view(),
            content: self.content.deep_view(),
            title: self.title.deep_view(),
            img_src: self.img_src.deep_view(),
        }
    }
}

impl Clone for SearxngResultItem {
    fn clone(&self) -> (r: Self)
        ensures
            r == *self,
    {
        SearxngResultItem {
            url: clone_opt_string(&self.url),
            content: clone_opt_string(&self.content),
            title: clone_opt_string(&self.title),
            img_src: clone_opt_string(&self.img_src),
        }
    }
}

/// The decoded body of one upstream search response.
pub struct SearxngResponse {
    pub results: Vec<SearxngResultItem>,
}

/// The report of one category-scoped search call.
pub struct SearchToolResponse {
    pub query: String,
    pub category: String,
    pub success: bool,
    pub results: Vec<SearchResult>,
    pub error: Option<String>,
}

/// The view of a `SearchToolResponse`.
pub struct SearchToolResponseV {
    pub query: Seq<char>,
    pub category: Seq<char>,
    pub success: bool,
    pub results: Seq<SearchResultV>,
    pub error: Option<Seq<char>>,
}

impl DeepView for SearchToolResponse {
    type V = SearchToolResponseV;

    open spec fn deep_view(&self) -> SearchToolResponseV {
        SearchToolResponseV {
            query: self.query@,
            category: self.category@,
            success: self.success,
            results: self.results.deep_view(),
            error: self.error.deep_view(),
        }
    }
}

/// The outcome of dispatching one query of a batch.
pub struct QuerySearchResult {
    pub query: String,
    pub success: bool,
    pub results: Vec<SearchResult>,
    pub error: Option<String>,
}

/// The view of a `QuerySearchResult`.
pub struct QuerySearchResultV {
    pub query: Seq<char>,
    pub success: bool,
    pub results: Seq<SearchResultV>,
    pub error: Option<Seq<char>>,
}

impl DeepView for QuerySearchResult {
    type V = QuerySearchResultV;

    open spec fn deep_view(&self) -> QuerySearchResultV {
        QuerySearchResultV {
            query: self.query@,
            success: self.success,
            results: self.results.deep_view(),
            error: self.error.deep_view(),
        }
    }
}

/// The aggregated report for a whole batch of queries.
pub struct OpenSearchResponse {
    pub success: bool,
    pub search_type: String,
    pub results: Vec<QuerySearchResult>,
    pub error: Option<String>,
}

/// The view of an `OpenSearchResponse`.
pub struct OpenSearchResponseV {
    pub success: bool,
    pub search_type: Seq<char>,
    pub results: Seq<QuerySearchResultV>,
    pub error: Option<Seq<char>>,
}

impl DeepView for OpenSearchResponse {
    type V = OpenSearchResponseV;

    open spec fn deep_view(&self) -> OpenSearchResponseV {
        OpenSearchResponseV {
            success: self.success,
            search_type: self.search_type@,
            results: self.results.deep_view(),
            error: self.error.deep_view(),
        }
    }
}

/// An exact copy of an optional string.
pub(crate) fn clone_opt_string(o: &Option<String>) -> (r: Option<String>)
    ensures
        r == *o,
{
    match o {
        Some(s) => Some(s.clone()),
        None => None,
    }
}

} // verus!
