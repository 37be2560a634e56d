//! The per-query search pipeline after the transport has delivered a
//! decoded payload: mapping, the optional reorder, and the final cap.

use vstd::prelude::*;
use vstd::string::*;
use crate::mapper::{mapped, map_search_payload};
use crate::rerank::{
    RerankRequest, apply_rerank, build_rerank_request, documents_spec, reordered,
    rerank_query_spec,
};
use crate::types::{SearchResult, SearchResultV, SearchToolResponse, SearchToolResponseV,
    SearxngResultItemV, SearxngResponse};

verus! {

/// The category key used for mapping and reporting: the requested
/// category, or "general" when none was given.
pub open spec fn category_key_spec(category: Option<Seq<char>>) -> Seq<char> {
    match category {
        Some(c) => c,
        None => "general"@,
    }
}

/// The category key as a slice.
pub fn category_key<'a>(category: Option<&'a str>) -> (r: &'a str)
    ensures
        r@ == category_key_spec(category.deep_view()),
{
    match category {
        Some(c) => c,
        None => "general",
    }
}

/// The first `limit` entries; the whole list when it is short enough.
pub open spec fn capped(results: Seq<SearchResultV>, limit: int) -> Seq<SearchResultV> {
    if results.len() <= limit {
        results
    } else {
        results.take(limit)
    }
}

/// The result list of one query: the mapped candidates, reordered by the
/// rerank outcome only when more candidates exist than the cap and an
/// outcome arrived, and always truncated to the cap.
pub open spec fn final_results_spec(
    category: Option<Seq<char>>,
    items: Seq<SearxngResultItemV>,
    rerank: Option<Seq<usize>>,
    limit: int,
) -> Seq<SearchResultV> {
    let base = mapped(category_key_spec(category), items);
    let ord = if base.len() <= limit {
        base
    } else {
        match rerank {
            Some(idx) => reordered(base, idx),
            None => base,
        }
    };
    capped(ord, limit)
}

/// The full report of one successful search call.
pub open spec fn search_response_spec(
    query: Seq<char>,
    category: Option<Seq<char>>,
    items: Seq<SearxngResultItemV>,
    rerank: Option<Seq<usize>>,
    limit: int,
) -> SearchToolResponseV {
    SearchToolResponseV {
        query: query,
        category: category_key_spec(category),
        success: true,
        results: final_results_spec(category, items, rerank, limit),
        error: None,
    }
}

/// Decides whether the reorder step runs: only when more candidates exist
/// than the cap, since nothing would be truncated otherwise; returns the
/// request to send in that case.
pub fn rerank_request_for(
    category: Option<&str>,
    query: &str,
    results: &Vec<SearchResult>,
    limit: usize,
) -> (r: Option<RerankRequest>)
    ensures
        match r {
            Some(req) => results@.len() > limit && req.model@ == "Qwen/Qwen3-Reranker-8B"@
                && req.query@ == rerank_query_spec(
                category_key_spec(category.deep_view()),
                query@,
            ) && req.documents.deep_view() == documents_spec(results.deep_view()),
            None => results@.len() <= limit,
        },
{
    if results.len() > limit {
        Some(build_rerank_request(category_key(category), query, results))
    } else {
        None
    }
}

/// Truncates a result list to the cap.
pub fn truncate_results(results: Vec<SearchResult>, limit: usize) -> (r: Vec<SearchResult>)
    ensures
        r.deep_view() == capped(results.deep_view(), limit as int),
{
    let mut r = results;
    let ghost before = r.deep_view();
    if r.len() > limit {
        r.truncate(limit);
        proof {
            assert(r.deep_view() =~= before.take(limit as int));
        }
    }
    r
}

/// Builds the report of one search call from the decoded payload, the
/// optional rerank outcome, and the cap.
pub fn search_query_response(
    query: &str,
    category: Option<&str>,
    payload: &SearxngResponse,
    rerank: Option<&Vec<usize>>,
    limit: usize,
) -> (r: SearchToolResponse)
    ensures
        r.deep_view() == search_response_spec(
            query@,
            category.deep_view(),
            payload.results.deep_view(),
            rerank.deep_view(),
            limit as int,
        ),
{
    let base = map_search_payload(category_key(category), &payload.results);
    let ordered = if base.len() > limit {
        match rerank {
            Some(idx) => {
                proof {
                    assert(idx.deep_view() =~= idx@);
                }
                apply_rerank(&base, idx)
            },
            None => base,
        }
    } else {
        base
    };
    let capped_results = truncate_results(ordered, limit);
    SearchToolResponse {
        query: query.to_owned(),
        category: category_key(category).to_owned(),
        success: true,
        results: capped_results,
        error: None,
    }
}

/// When no more candidates exist than the cap, the reorder step is skipped
/// entirely: the final list is the mapped list itself, in its original
/// order.
pub proof fn lemma_rerank_skipped(
    category: Option<Seq<char>>,
    items: Seq<SearxngResultItemV>,
    rerank: Option<Seq<usize>>,
    limit: int,
)
    requires
        mapped(category_key_spec(category), items).len() <= limit,
    ensures
        final_results_spec(category, items, rerank, limit) == mapped(
            category_key_spec(category),
            items,
        ),
{
}

/// The final list never exceeds the cap.
pub proof fn lemma_results_within_cap(
    category: Option<Seq<char>>,
    items: Seq<SearxngResultItemV>,
    rerank: Option<Seq<usize>>,
    limit: int,
)
    requires
        limit >= 0,
    ensures
        final_results_spec(category, items, rerank, limit).len() <= limit,
{
}

/// Every entry of the final list is one of the mapped candidates: the
/// pipeline only reorders and truncates, it never fabricates or duplicates
/// a field pair that the mapping did not produce.
pub proof fn lemma_final_results_from_mapped(
    category: Option<Seq<char>>,
    items: Seq<SearxngResultItemV>,
    rerank: Option<Seq<usize>>,
    limit: int,
)
    requires
        limit >= 0,
    ensures
        forall|k: int|
            0 <= k < final_results_spec(category, items, rerank, limit).len() ==> mapped(
                category_key_spec(category),
                items,
            ).contains(#[trigger] final_results_spec(category, items, rerank, limit)[k]),
{
    let base = mapped(category_key_spec(category), items);
    let fin = final_results_spec(category, items, rerank, limit);
    let ord = if base.len() <= limit {
        base
    } else {
        match rerank {
            Some(idx) => reordered(base, idx),
            None => base,
        }
    };
    if base.len() > limit && rerank is Some {
        crate::rerank::lemma_reordered_from_results(base, rerank->0);
    }
    assert(fin == capped(ord, limit));
    assert forall|k: int| 0 <= k < fin.len() implies base.contains(#[trigger] fin[k]) by {
        if ord.len() <= limit {
            assert(fin[k] == ord[k]);
        } else {
            assert(fin[k] == ord.take(limit)[k]);
            assert(ord.take(limit)[k] == ord[k]);
        }
        if base.len() > limit && rerank is Some {
            assert(base.contains(reordered(base, rerank->0)[k]));
        } else {
            assert(ord == base);
            assert(0 <= k < base.len() && base[k] == fin[k]);
        }
    }
}

/// No entry of the final list has an empty url or description: the
/// silent-drop rule of the mapping carries through reordering and capping.
pub proof fn lemma_final_results_fields_nonempty(
    category: Option<Seq<char>>,
    items: Seq<SearxngResultItemV>,
    rerank: Option<Seq<usize>>,
    limit: int,
)
    requires
        limit >= 0,
    ensures
        forall|k: int|
            0 <= k < final_results_spec(category, items, rerank, limit).len()
                ==> #[trigger] final_results_spec(category, items, rerank, limit)[k].url.len() > 0
                && final_results_spec(category, items, rerank, limit)[k].description.len() > 0,
{
    let base = mapped(category_key_spec(category), items);
    let fin = final_results_spec(category, items, rerank, limit);
    crate::mapper::lemma_mapped_fields_nonempty(category_key_spec(category), items);
    lemma_final_results_from_mapped(category, items, rerank, limit);
    assert forall|k: int|
        0 <= k < fin.len() implies #[trigger] fin[k].url.len() > 0 && fin[k].description.len()
        > 0 by {
        assert(base.contains(fin[k]));
        let j = choose|j: int| 0 <= j < base.len() && base[j] == fin[k];
        assert(base[j].url.len() > 0 && base[j].description.len() > 0);
    }
}

} // verus!
