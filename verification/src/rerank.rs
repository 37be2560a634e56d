//! The reordering step: building the rerank request and applying the
//! relevance-ordered index list that the reranking service returns.

use vstd::prelude::*;
use vstd::string::*;
use crate::types::{SearchResult, SearchResultV};

verus! {

/// The payload of one rerank call.
pub struct RerankRequest {
    pub model: String,
    pub query: String,
    pub documents: Vec<String>,
}

/// The document string offered to the reranker for one result.
pub open spec fn document_spec(r: SearchResultV) -> Seq<char> {
    r.url + " - "@ + r.description
}

/// The candidate list: one document per result, in result order.
pub open spec fn documents_spec(results: Seq<SearchResultV>) -> Seq<Seq<char>> {
    results.map_values(|r: SearchResultV| document_spec(r))
}

/// The exact query template sent to the reranking model, the category
/// label and the query text interpolated verbatim.
pub open spec fn rerank_query_spec(category: Seq<char>, query: Seq<char>) -> Seq<char> {
    "用户使用搜索引擎搜索，正在进行"@ + category + "的类型的搜索，搜索目标是\""@ + query + "\""@
}

/// Builds the candidate documents, `"<url> - <description>"` each.
pub fn build_rerank_documents(results: &Vec<SearchResult>) -> (docs: Vec<String>)
    ensures
        docs.deep_view() == documents_spec(results.deep_view()),
{
    let mut docs: Vec<String> = Vec::new();
    let mut i: usize = 0;
    while i < results.len()
        invariant
            i <= results.len(),
            docs.deep_view() == documents_spec(results.deep_view().take(i as int)),
        decreases results.len() - i,
    {
        let doc = crate::text::concat3(results[i].url.as_str(), " - ", results[i].description.as_str());
        let ghost prev = docs.deep_view();
        docs.push(doc);
        proof {
            let dv = results.deep_view();
            assert(docs.deep_view() =~= prev.push(doc@));
            assert(doc@ == document_spec(dv[i as int]));
            assert forall|j: int| 0 <= j < i + 1 implies #[trigger] documents_spec(dv.take(i + 1))[j]
                == document_spec(dv[j]) by {
                assert(dv.take(i + 1)[j] == dv[j]);
            }
            assert(docs.deep_view() =~= documents_spec(dv.take(i + 1)));
        }
        i = i + 1;
    }
    proof {
        assert(results.deep_view().take(results.len() as int) =~= results.deep_view());
    }
    docs
}

/// Builds the rerank query from the category label and the original query.
pub fn build_rerank_query(category: &str, query: &str) -> (r: String)
    ensures
        r@ == rerank_query_spec(category@, query@),
{
    let mut r = "用户使用搜索引擎搜索，正在进行".to_owned();
    r.append(category);
    r.append("的类型的搜索，搜索目标是\"");
    r.append(query);
    r.append("\"");
    r
}

/// Builds the whole rerank request for a candidate set.
pub fn build_rerank_request(category: &str, query: &str, results: &Vec<SearchResult>) -> (r:
    RerankRequest)
    ensures
        r.model@ == "Qwen/Qwen3-Reranker-8B"@,
        r.query@ == rerank_query_spec(category@, query@),
        r.documents.deep_view() == documents_spec(results.deep_view()),
{
    RerankRequest {
        model: "Qwen/Qwen3-Reranker-8B".to_owned(),
        query: build_rerank_query(category, query),
        documents: build_rerank_documents(results),
    }
}

/// The reorder step: walks the outcome's indices in their returned order
/// and keeps each one that refers to a position of the original list;
/// candidates never referenced are dropped, not appended.
pub open spec fn reordered(results: Seq<SearchResultV>, indices: Seq<usize>) -> Seq<SearchResultV>
    decreases indices.len(),
{
    if indices.len() == 0 {
        Seq::<SearchResultV>::empty()
    } else {
        reordered(results, indices.drop_last()) + (if (indices.last() as int) < results.len() {
            seq![results[indices.last() as int]]
        } else {
            Seq::<SearchResultV>::empty()
        })
    }
}

/// Applies a rerank outcome to the original results.
pub fn apply_rerank(results: &Vec<SearchResult>, indices: &Vec<usize>) -> (r: Vec<SearchResult>)
    ensures
        r.deep_view() == reordered(results.deep_view(), indices@),
{
    let mut r: Vec<SearchResult> = Vec::new();
    let mut k: usize = 0;
    while k < indices.len()
        invariant
            k <= indices.len(),
            r.deep_view() == reordered(results.deep_view(), indices@.take(k as int)),
        decreases indices.len() - k,
    {
        proof {
            assert(indices@.take(k + 1).drop_last() =~= indices@.take(k as int));
            assert(indices@.take(k + 1).last() == indices@[k as int]);
        }
        let idx = indices[k];
        if idx < results.len() {
            r.push(results[idx].clone());
        }
        proof {
            assert(r.deep_view() =~= reordered(results.deep_view(), indices@.take(k + 1)));
        }
        k = k + 1;
    }
    proof {
        assert(indices@.take(indices@.len() as int) =~= indices@);
    }
    r
}

/// Reordering only permutes the existing results: every reordered entry is
/// one of the original entries, none is fabricated.
pub proof fn lemma_reordered_from_results(results: Seq<SearchResultV>, indices: Seq<usize>)
    ensures
        forall|k: int|
            0 <= k < reordered(results, indices).len() ==> results.contains(
                #[trigger] reordered(results, indices)[k],
            ),
    decreases indices.len(),
{
    if indices.len() > 0 {
        lemma_reordered_from_results(results, indices.drop_last());
        let m = reordered(results, indices);
        let m0 = reordered(results, indices.drop_last());
        if (indices.last() as int) < results.len() {
            let r = results[indices.last() as int];
            assert(m == m0 + seq![r]);
            assert forall|k: int| 0 <= k < m.len() implies results.contains(#[trigger] m[k]) by {
                if k < m0.len() {
                    assert(m[k] == m0[k]);
                } else {
                    assert(m[k] == r);
                    assert(results.contains(r));
                }
            }
        } else {
            assert(m =~= m0);
        }
    }
}

} // verus!
