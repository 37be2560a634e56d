use openperplexity::tools::{OpenSearchParams, QueryEvent, SearchType, effective_limit,
    query_outcome, run_open_search};
use openperplexity::types::{SearxngResponse, SearxngResultItem};

fn raw(url: &str, content: &str) -> SearxngResultItem {
    SearxngResultItem {
        url: Some(url.to_string()),
        content: Some(content.to_string()),
        title: None,
        img_src: None,
    }
}

fn payload(n: usize) -> SearxngResponse {
    let results = (0..n).map(|i| raw(&format!("https://{i}"), &format!("d{i}"))).collect();
    SearxngResponse { results }
}

#[test]
fn test_search_type_labels() {
    assert_eq!(SearchType::General.as_str(), "general");
    assert_eq!(SearchType::News.as_str(), "news");
    assert_eq!(SearchType::Images.as_str(), "images");
    assert_eq!(SearchType::Videos.as_str(), "videos");
    assert_eq!(SearchType::Science.as_str(), "science");
    assert_eq!(SearchType::General.as_category(), None);
    assert_eq!(SearchType::Science.as_category(), Some("science"));
}

#[test]
fn test_effective_limit_rules() {
    assert_eq!(effective_limit(None), 20);
    assert_eq!(effective_limit(Some(5)), 5);
    assert_eq!(effective_limit(Some(50)), 50);
    assert_eq!(effective_limit(Some(1000)), 50);
}

#[test]
fn test_run_open_search_empty_queries() {
    let params = OpenSearchParams { queries: vec![], search_type: None, limit: None };
    let r = run_open_search(&params, &vec![]);
    assert!(!r.success);
    assert_eq!(r.search_type, "general");
    assert_eq!(r.results.len(), 0);
    assert_eq!(r.error, Some("queries must not be empty".to_string()));
}

#[test]
fn test_run_open_search_zero_limit() {
    let params = OpenSearchParams {
        queries: vec!["a".to_string()],
        search_type: Some(SearchType::News),
        limit: Some(0),
    };
    let r = run_open_search(&params, &vec![]);
    assert!(!r.success);
    assert_eq!(r.search_type, "news");
    assert_eq!(r.results.len(), 0);
    assert_eq!(r.error, Some("limit must be greater than 0".to_string()));
}

#[test]
fn test_run_open_search_limit_clamped() {
    let params = OpenSearchParams {
        queries: vec!["big".to_string()],
        search_type: None,
        limit: Some(1000),
    };
    let events = vec![QueryEvent::Fetched(payload(60), None)];
    let r = run_open_search(&params, &events);
    assert!(r.success);
    assert_eq!(r.results.len(), 1);
    assert_eq!(r.results[0].results.len(), 50);
}

#[test]
fn test_run_open_search_order_preserved() {
    let params = OpenSearchParams {
        queries: vec![" first ".to_string(), "second".to_string(), "third".to_string()],
        search_type: None,
        limit: Some(10),
    };
    let events = vec![
        QueryEvent::Fetched(payload(2), None),
        QueryEvent::Failed("request searxng failed".to_string()),
        QueryEvent::Fetched(payload(1), None),
    ];
    let r = run_open_search(&params, &events);
    assert_eq!(r.results.len(), 3);
    assert_eq!(r.results[0].query, "first");
    assert_eq!(r.results[1].query, "second");
    assert_eq!(r.results[2].query, "third");
    assert!(r.results[0].success);
    assert!(!r.results[1].success);
    assert_eq!(r.results[1].error, Some("request searxng failed".to_string()));
    assert!(r.results[2].success);
    assert_eq!(r.error, None);
}

#[test]
fn test_run_open_search_or_success() {
    let params = OpenSearchParams {
        queries: vec!["a".to_string(), "b".to_string(), "c".to_string()],
        search_type: None,
        limit: None,
    };
    let events = vec![
        QueryEvent::Failed("x".to_string()),
        QueryEvent::Failed("y".to_string()),
        QueryEvent::Fetched(payload(1), None),
    ];
    let r = run_open_search(&params, &events);
    assert!(r.success);

    let all_failed = vec![
        QueryEvent::Failed("x".to_string()),
        QueryEvent::Failed("y".to_string()),
        QueryEvent::Failed("z".to_string()),
    ];
    let r2 = run_open_search(&params, &all_failed);
    assert!(!r2.success);
    assert_eq!(r2.results.len(), 3);
}

#[test]
fn test_run_open_search_empty_query_outcome() {
    let params = OpenSearchParams {
        queries: vec!["   ".to_string(), "real".to_string()],
        search_type: None,
        limit: None,
    };
    let events = vec![QueryEvent::NotDispatched, QueryEvent::Fetched(payload(1), None)];
    let r = run_open_search(&params, &events);
    assert!(r.success);
    assert_eq!(r.results[0].query, "");
    assert!(!r.results[0].success);
    assert_eq!(r.results[0].error, Some("query is empty".to_string()));
    assert!(r.results[1].success);
}

#[test]
fn test_query_outcome_trims_query() {
    let oc = query_outcome(
        &"  padded  ".to_string(),
        &QueryEvent::Fetched(payload(1), None),
        Some("news"),
        10,
    );
    assert_eq!(oc.query, "padded");
    assert!(oc.success);
    assert_eq!(oc.results.len(), 1);
}

#[test]
fn test_query_outcome_rerank_applied() {
    let oc = query_outcome(
        &"q".to_string(),
        &QueryEvent::Fetched(payload(4), Some(vec![2, 0, 3, 1])),
        None,
        2,
    );
    let urls: Vec<&str> = oc.results.iter().map(|x| x.url.as_str()).collect();
    assert_eq!(urls, vec!["https://2", "https://0"]);
}
