use openperplexity::pipeline::{rerank_request_for, search_query_response, truncate_results};
use openperplexity::rerank::{apply_rerank, build_rerank_documents, build_rerank_query,
    build_rerank_request};
use openperplexity::types::{SearchResult, SearxngResponse, SearxngResultItem};

fn sr(url: &str, description: &str) -> SearchResult {
    SearchResult { url: url.to_string(), description: description.to_string() }
}

fn raw(url: &str, content: &str) -> SearxngResultItem {
    SearxngResultItem {
        url: Some(url.to_string()),
        content: Some(content.to_string()),
        title: None,
        img_src: None,
    }
}

#[test]
fn test_build_rerank_query_exact() {
    let q = build_rerank_query("news", "weather");
    assert_eq!(q, "用户使用搜索引擎搜索，正在进行news的类型的搜索，搜索目标是\"weather\"");
}

#[test]
fn test_build_rerank_documents_format() {
    let docs = build_rerank_documents(&vec![sr("https://a", "alpha"), sr("https://b", "beta")]);
    assert_eq!(docs, vec!["https://a - alpha".to_string(), "https://b - beta".to_string()]);
}

#[test]
fn test_build_rerank_request_fields() {
    let req = build_rerank_request("science", "quarks", &vec![sr("https://a", "alpha")]);
    assert_eq!(req.model, "Qwen/Qwen3-Reranker-8B");
    assert_eq!(req.query, "用户使用搜索引擎搜索，正在进行science的类型的搜索，搜索目标是\"quarks\"");
    assert_eq!(req.documents, vec!["https://a - alpha".to_string()]);
}

#[test]
fn test_apply_rerank_index_drop() {
    let results = vec![sr("u0", "d0"), sr("u1", "d1"), sr("u2", "d2"), sr("u3", "d3"), sr("u4", "d4")];
    let reordered = apply_rerank(&results, &vec![3, 0]);
    assert_eq!(reordered.len(), 2);
    assert_eq!(reordered[0].url, "u3");
    assert_eq!(reordered[1].url, "u0");
}

#[test]
fn test_apply_rerank_skips_out_of_range() {
    let results = vec![sr("u0", "d0"), sr("u1", "d1")];
    let reordered = apply_rerank(&results, &vec![7, 1]);
    assert_eq!(reordered.len(), 1);
    assert_eq!(reordered[0].url, "u1");
}

#[test]
fn test_rerank_request_skipped_when_within_cap() {
    let results = vec![sr("u0", "d0"), sr("u1", "d1"), sr("u2", "d2")];
    assert!(rerank_request_for(Some("news"), "q", &results, 20).is_none());
    assert!(rerank_request_for(None, "q", &results, 3).is_none());
}

#[test]
fn test_rerank_request_built_when_over_cap() {
    let results = vec![sr("u0", "d0"), sr("u1", "d1"), sr("u2", "d2")];
    let req = rerank_request_for(None, "q", &results, 2).unwrap();
    assert_eq!(req.query, "用户使用搜索引擎搜索，正在进行general的类型的搜索，搜索目标是\"q\"");
    assert_eq!(req.documents.len(), 3);
}

#[test]
fn test_truncate_results_caps() {
    let results = vec![sr("u0", "d0"), sr("u1", "d1"), sr("u2", "d2")];
    let t = truncate_results(results, 2);
    assert_eq!(t.len(), 2);
    assert_eq!(t[1].url, "u1");
    let u = truncate_results(vec![sr("u0", "d0")], 5);
    assert_eq!(u.len(), 1);
}

#[test]
fn test_search_query_response_skip_reorder_order_kept() {
    let payload = SearxngResponse {
        results: vec![raw("https://1", "one"), raw("https://2", "two"), raw("https://3", "three")],
    };
    let r = search_query_response("q", Some("news"), &payload, None, 20);
    assert!(r.success);
    assert_eq!(r.category, "news");
    assert_eq!(r.error, None);
    let urls: Vec<&str> = r.results.iter().map(|x| x.url.as_str()).collect();
    assert_eq!(urls, vec!["https://1", "https://2", "https://3"]);
}

#[test]
fn test_search_query_response_reorders_and_caps() {
    let payload = SearxngResponse {
        results: vec![
            raw("https://1", "one"),
            raw("https://2", "two"),
            raw("https://3", "three"),
            raw("https://4", "four"),
        ],
    };
    let indices = vec![2usize, 0, 3, 1];
    let r = search_query_response("q", None, &payload, Some(&indices), 2);
    assert_eq!(r.category, "general");
    let urls: Vec<&str> = r.results.iter().map(|x| x.url.as_str()).collect();
    assert_eq!(urls, vec!["https://3", "https://1"]);
}

#[test]
fn test_search_query_response_rerank_failure_keeps_order() {
    let payload = SearxngResponse {
        results: vec![raw("https://1", "one"), raw("https://2", "two"), raw("https://3", "three")],
    };
    let r = search_query_response("q", None, &payload, None, 2);
    let urls: Vec<&str> = r.results.iter().map(|x| x.url.as_str()).collect();
    assert_eq!(urls, vec!["https://1", "https://2"]);
}
