//! The batch operation: validates the parameters, produces one outcome per
//! query in input order from the per-query events, and aggregates the
//! batch-level success flag.

use vstd::prelude::*;
use vstd::string::*;
use crate::pipeline::{final_results_spec, search_query_response};
use crate::text::{trim_string, trimmed};
use crate::types::{OpenSearchResponse, OpenSearchResponseV, QuerySearchResult,
    QuerySearchResultV, SearxngResponse};

verus! {

/// The search vertical a batch is scoped to.
#[derive(Clone, Copy, Debug, PartialEq, Eq, Structural)]
pub enum SearchType {
    General,
    News,
    Images,
    Videos,
    Science,
}

/// The category filter sent upstream: none for a general search.
pub open spec fn category_of(t: SearchType) -> Option<Seq<char>> {
    match t {
        SearchType::General => None,
        SearchType::News => Some("news"@),
        SearchType::Images => Some("images"@),
        SearchType::Videos => Some("videos"@),
        SearchType::Science => Some("science"@),
    }
}

/// The label reported back for the search type.
pub open spec fn label_of(t: SearchType) -> Seq<char> {
    match t {
        SearchType::General => "general"@,
        SearchType::News => "news"@,
        SearchType::Images => "images"@,
        SearchType::Videos => "videos"@,
        SearchType::Science => "science"@,
    }
}

/// The type a batch runs under when none was supplied.
pub open spec fn chosen_type(t: Option<SearchType>) -> SearchType {
    match t {
        Some(t) => t,
        None => SearchType::General,
    }
}

impl SearchType {
    /// The category filter sent upstream, none for a general search.
    pub fn as_category(&self) -> (r: Option<&'static str>)
        ensures
            r.deep_view() == category_of(*self),
    {
        match self {
            SearchType::General => None,
            SearchType::News => Some("news"),
            SearchType::Images => Some("images"),
            SearchType::Videos => Some("videos"),
            SearchType::Science => Some("science"),
        }
    }

    /// The label reported back.
    pub fn as_str(&self) -> (r: &'static str)
        ensures
            r@ == label_of(*self),
    {
        match self {
            SearchType::General => "general",
            SearchType::News => "news",
            SearchType::Images => "images",
            SearchType::Videos => "videos",
            SearchType::Science => "science",
        }
    }
}

/// The parameters of one batch call.
pub struct OpenSearchParams {
    pub queries: Vec<String>,
    pub search_type: Option<SearchType>,
    pub limit: Option<usize>,
}

/// What the transport delivered for one query of a batch: nothing, because
/// the query trimmed to empty and was never sent; a transport or decode
/// failure with its message; or a decoded payload, together with the
/// rerank outcome when a rerank call was made and succeeded.
pub enum QueryEvent {
    NotDispatched,
    Failed(String),
    Fetched(SearxngResponse, Option<Vec<usize>>),
}

/// The per-query cap: the supplied limit, 20 when none was supplied,
/// and never more than 50.
pub open spec fn clamp_limit_spec(limit: Option<usize>) -> int {
    let l: int = match limit {
        Some(v) => v as int,
        None => 20,
    };
    if l > 50 {
        50
    } else {
        l
    }
}

/// Clamps the supplied limit to the effective per-query cap.
pub fn effective_limit(limit: Option<usize>) -> (r: usize)
    ensures
        r as int == clamp_limit_spec(limit),
{
    let l: usize = match limit {
        Some(v) => v,
        None => 20,
    };
    if l > 50 {
        50
    } else {
        l
    }
}

/// The outcome of one query of a batch: an empty-after-trimming query is
/// answered locally; otherwise the event decides between a failure report
/// and a successful result list.
pub open spec fn query_outcome_spec(
    query: Seq<char>,
    event: QueryEvent,
    category: Option<Seq<char>>,
    limit: int,
) -> QuerySearchResultV {
    let t = trimmed(query);
    if t.len() == 0 {
        QuerySearchResultV {
            query: t,
            success: false,
            results: Seq::<crate::types::SearchResultV>::empty(),
            error: Some("query is empty"@),
        }
    } else {
        match event {
            QueryEvent::NotDispatched => QuerySearchResultV {
                query: t,
                success: false,
                results: Seq::<crate::types::SearchResultV>::empty(),
                error: Some("query is empty"@),
            },
            QueryEvent::Failed(m) => QuerySearchResultV {
                query: t,
                success: false,
                results: Seq::<crate::types::SearchResultV>::empty(),
                error: Some(m@),
            },
            QueryEvent::Fetched(p, rr) => QuerySearchResultV {
                query: t,
                success: true,
                results: final_results_spec(category, p.results.deep_view(), rr.deep_view(), limit),
                error: None,
            },
        }
    }
}

/// Builds the outcome of one query from its event.
pub fn query_outcome(query: &String, event: &QueryEvent, category: Option<&str>, limit: usize) -> (r:
    QuerySearchResult)
    ensures
        r.deep_view() == query_outcome_spec(query@, *event, category.deep_view(), limit as int),
{
    let t = trim_string(query.as_str());
    if t.as_str().is_empty() {
        let r = QuerySearchResult {
            query: t,
            success: false,
            results: Vec::new(),
            error: Some("query is empty".to_owned()),
        };
        proof {
            assert(r.results.deep_view() =~= Seq::<crate::types::SearchResultV>::empty());
        }
        r
    } else {
        match event {
            QueryEvent::NotDispatched => {
                let r = QuerySearchResult {
                    query: t,
                    success: false,
                    results: Vec::new(),
                    error: Some("query is empty".to_owned()),
                };
                proof {
                    assert(r.results.deep_view() =~= Seq::<crate::types::SearchResultV>::empty());
                }
                r
            },
            QueryEvent::Failed(m) => {
                let r = QuerySearchResult {
                    query: t,
                    success: false,
                    results: Vec::new(),
                    error: Some(m.clone()),
                };
                proof {
                    assert(r.results.deep_view() =~= Seq::<crate::types::SearchResultV>::empty());
                }
                r
            },
            QueryEvent::Fetched(p, rr) => {
                let rerank = rr.as_ref();
                proof {
                    assert(rerank.deep_view() == rr.deep_view());
                }
                let resp = search_query_response(t.as_str(), category, p, rerank, limit);
                QuerySearchResult {
                    query: resp.query,
                    success: resp.success,
                    results: resp.results,
                    error: resp.error,
                }
            },
        }
    }
}

/// The full batch report: the validation failures, or one outcome per
/// query in input order with the OR-aggregated success flag.
pub open spec fn open_search_spec(
    search_type: Option<SearchType>,
    queries: Seq<Seq<char>>,
    limit: Option<usize>,
    events: Seq<QueryEvent>,
) -> OpenSearchResponseV {
    let label = label_of(chosen_type(search_type));
    if queries.len() == 0 {
        OpenSearchResponseV {
            success: false,
            search_type: label,
            results: Seq::<QuerySearchResultV>::empty(),
            error: Some("queries must not be empty"@),
        }
    } else if limit == Some(0usize) {
        OpenSearchResponseV {
            success: false,
            search_type: label,
            results: Seq::<QuerySearchResultV>::empty(),
            error: Some("limit must be greater than 0"@),
        }
    } else {
        let cat = category_of(chosen_type(search_type));
        let lim = clamp_limit_spec(limit);
        let outcomes = Seq::new(
            queries.len(),
            |i: int| query_outcome_spec(queries[i], events[i], cat, lim),
        );
        OpenSearchResponseV {
            success: exists|i: int| 0 <= i < outcomes.len() && outcomes[i].success,
            search_type: label,
            results: outcomes,
            error: None,
        }
    }
}

/// Runs one batch: validates, then folds the per-query events into the
/// ordered outcome list and the aggregate success flag.
pub fn run_open_search(params: &OpenSearchParams, events: &Vec<QueryEvent>) -> (r:
    OpenSearchResponse)
    requires
        params.queries@.len() == 0 || params.limit == Some(0usize) || events@.len()
            == params.queries@.len(),
    ensures
        r.deep_view() == open_search_spec(
            params.search_type,
            params.queries.deep_view(),
            params.limit,
            events@,
        ),
{
    let search_type = match params.search_type {
        Some(t) => t,
        None => SearchType::General,
    };
    let label = search_type.as_str().to_owned();
    if params.queries.len() == 0 {
        let r = OpenSearchResponse {
            success: false,
            search_type: label,
            results: Vec::new(),
            error: Some("queries must not be empty".to_owned()),
        };
        proof {
            assert(r.results.deep_view() =~= Seq::<QuerySearchResultV>::empty());
        }
        return r;
    }
    let zero_limit = match params.limit {
        Some(l) => l == 0,
        None => false,
    };
    if zero_limit {
        let r = OpenSearchResponse {
            success: false,
            search_type: label,
            results: Vec::new(),
            error: Some("limit must be greater than 0".to_owned()),
        };
        proof {
            assert(r.results.deep_view() =~= Seq::<QuerySearchResultV>::empty());
        }
        return r;
    }
    let category = search_type.as_category();
    let limit = effective_limit(params.limit);
    let ghost spec_outs = Seq::new(
        params.queries.deep_view().len(),
        |i: int| query_outcome_spec(
            params.queries.deep_view()[i],
            events@[i],
            category_of(chosen_type(params.search_type)),
            clamp_limit_spec(params.limit),
        ),
    );
    let mut outcomes: Vec<QuerySearchResult> = Vec::new();
    let mut any_success = false;
    let mut i: usize = 0;
    while i < params.queries.len()
        invariant
            i <= params.queries.len(),
            events@.len() == params.queries@.len(),
            spec_outs.len() == params.queries@.len(),
            forall|k: int|
                0 <= k < spec_outs.len() ==> #[trigger] spec_outs[k] == query_outcome_spec(
                    params.queries.deep_view()[k],
                    events@[k],
                    category_of(chosen_type(params.search_type)),
                    clamp_limit_spec(params.limit),
                ),
            category.deep_view() == category_of(chosen_type(params.search_type)),
            limit as int == clamp_limit_spec(params.limit),
            outcomes.deep_view() == spec_outs.take(i as int),
            any_success == exists|k: int| 0 <= k < i && spec_outs[k].success,
        decreases params.queries.len() - i,
    {
        let oc = query_outcome(&params.queries[i], &events[i], category, limit);
        proof {
            assert(params.queries[i as int]@ == params.queries.deep_view()[i as int]);
            assert(oc.deep_view() == spec_outs[i as int]);
        }
        let ghost prev_any = any_success;
        let ghost prev_outs = outcomes.deep_view();
        if oc.success {
            any_success = true;
        }
        outcomes.push(oc);
        proof {
            assert(outcomes.deep_view() =~= prev_outs.push(oc.deep_view()));
            assert(spec_outs.take(i as int + 1).drop_last() =~= spec_outs.take(i as int));
            assert(spec_outs.take(i as int + 1).last() == spec_outs[i as int]);
            assert(outcomes.deep_view() =~= spec_outs.take(i as int + 1));
            if prev_any {
                let w = choose|k: int| 0 <= k < i && spec_outs[k].success;
                assert(0 <= w < i + 1 && spec_outs[w].success);
            }
            if oc.success {
                assert(spec_outs[i as int].success);
            }
        }
        i = i + 1;
    }
    proof {
        assert(spec_outs.take(params.queries@.len() as int) =~= spec_outs);
    }
    OpenSearchResponse { success: any_success, search_type: label, results: outcomes, error: None }
}

/// One outcome per query, in input order: a dispatched batch reports
/// exactly as many outcomes as it got queries, and the outcome at each
/// position belongs to the query at that position, whatever order the
/// events were gathered in.
pub proof fn lemma_outcomes_in_input_order(
    search_type: Option<SearchType>,
    queries: Seq<Seq<char>>,
    limit: Option<usize>,
    events: Seq<QueryEvent>,
)
    requires
        queries.len() > 0,
        limit != Some(0usize),
    ensures
        open_search_spec(search_type, queries, limit, events).results.len() == queries.len(),
        forall|i: int|
            0 <= i < queries.len() ==> open_search_spec(
                search_type,
                queries,
                limit,
                events,
            ).results[i] == query_outcome_spec(
                queries[i],
                events[i],
                category_of(chosen_type(search_type)),
                clamp_limit_spec(limit),
            ),
{
}

/// The OR rule of the batch: the aggregate success flag is true exactly
/// when at least one outcome succeeded.
pub proof fn lemma_success_iff_any(
    search_type: Option<SearchType>,
    queries: Seq<Seq<char>>,
    limit: Option<usize>,
    events: Seq<QueryEvent>,
)
    requires
        queries.len() > 0,
        limit != Some(0usize),
    ensures
        open_search_spec(search_type, queries, limit, events).success <==> exists|i: int|
            0 <= i < open_search_spec(search_type, queries, limit, events).results.len()
                && open_search_spec(search_type, queries, limit, events).results[i].success,
{
}

/// The cap rule of the batch: no outcome carries more results than the
/// effective cap, which never exceeds 50.
pub proof fn lemma_outcome_results_within_cap(
    search_type: Option<SearchType>,
    queries: Seq<Seq<char>>,
    limit: Option<usize>,
    events: Seq<QueryEvent>,
)
    requires
        queries.len() > 0,
        limit != Some(0usize),
    ensures
        forall|i: int|
            0 <= i < open_search_spec(search_type, queries, limit, events).results.len()
                ==> #[trigger] open_search_spec(
                search_type,
                queries,
                limit,
                events,
            ).results[i].results.len() <= clamp_limit_spec(limit),
        clamp_limit_spec(limit) <= 50,
{
    let resp = open_search_spec(search_type, queries, limit, events);
    let cat = category_of(chosen_type(search_type));
    let lim = clamp_limit_spec(limit);
    assert forall|i: int| 0 <= i < resp.results.len() implies #[trigger] resp.results[i].results.len()
        <= lim by {
        assert(resp.results[i] == query_outcome_spec(queries[i], events[i], cat, lim));
        match events[i] {
            QueryEvent::Fetched(p, rr) => {
                if trimmed(queries[i]).len() > 0 {
                    crate::pipeline::lemma_results_within_cap(
                        cat,
                        p.results.deep_view(),
                        rr.deep_view(),
                        lim,
                    );
                }
            },
            QueryEvent::NotDispatched => {
            },
            QueryEvent::Failed(m) => {
            },
        }
    }
}

} // verus!
