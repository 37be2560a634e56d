use openperplexity::search::{ImageSearchResult, ImageTaskEvent, collect_image_results,
    filter_keywords, image_response_failure, image_search_failure, image_search_success,
    map_image_search_item, prepare_image_search};
use openperplexity::types::SearxngResultItem;

fn img_raw(img_src: Option<&str>, title: Option<&str>) -> SearxngResultItem {
    SearxngResultItem {
        url: None,
        content: None,
        title: title.map(|s| s.to_string()),
        img_src: img_src.map(|s| s.to_string()),
    }
}

fn completed(index: usize, result: ImageSearchResult) -> ImageTaskEvent {
    ImageTaskEvent::Completed(index, result)
}

#[test]
fn test_map_image_search_item_requires_both_fields() {
    let ok = map_image_search_item(img_raw(Some(" https://img "), Some(" cat "))).unwrap();
    assert_eq!(ok.image_url, "https://img");
    assert_eq!(ok.description, "cat");
    assert!(map_image_search_item(img_raw(Some("https://img"), None)).is_none());
    assert!(map_image_search_item(img_raw(None, Some("cat"))).is_none());
    assert!(map_image_search_item(img_raw(Some("https://img"), Some("   "))).is_none());
}

#[test]
fn test_image_search_success_maps_and_truncates() {
    let items = vec![
        img_raw(Some("https://1"), Some("one")),
        img_raw(Some("https://2"), None),
        img_raw(Some("https://3"), Some("three")),
        img_raw(Some("https://4"), Some("four")),
    ];
    let r = image_search_success("cats", &items, 2);
    assert_eq!(r.query, "cats");
    assert!(r.success);
    assert_eq!(r.error, None);
    assert_eq!(r.images.len(), 2);
    assert_eq!(r.images[0].image_url, "https://1");
    assert_eq!(r.images[1].image_url, "https://3");
}

#[test]
fn test_image_search_failure_fields() {
    let r = image_search_failure("dogs", "request failed: boom".to_string());
    assert_eq!(r.query, "dogs");
    assert!(!r.success);
    assert_eq!(r.images.len(), 0);
    assert_eq!(r.error, Some("request failed: boom".to_string()));
}

#[test]
fn test_filter_keywords_trims_and_drops() {
    let ks = vec!["  a ".to_string(), "".to_string(), "  ".to_string(), "b".to_string()];
    let f = filter_keywords(&ks);
    assert_eq!(f, vec!["a".to_string(), "b".to_string()]);
}

#[test]
fn test_prepare_image_search_empty() {
    let err = prepare_image_search(&vec!["   ".to_string()]).err().unwrap();
    assert!(!err.success);
    assert_eq!(err.results.len(), 0);
    assert_eq!(err.error, Some("keywords is empty".to_string()));
    let ok = prepare_image_search(&vec![" x ".to_string()]).ok().unwrap();
    assert_eq!(ok, vec!["x".to_string()]);
}

#[test]
fn test_image_response_failure_fields() {
    let r = image_response_failure("SEARXNG_URL is required".to_string());
    assert!(!r.success);
    assert_eq!(r.error, Some("SEARXNG_URL is required".to_string()));
}

#[test]
fn test_collect_restores_spawn_order() {
    let items = vec![img_raw(Some("https://1"), Some("one"))];
    let r0 = image_search_success("k0", &items, 5);
    let r1 = image_search_success("k1", &items, 5);
    let r2 = image_search_success("k2", &items, 5);
    let events = vec![completed(2, r2), completed(0, r0), completed(1, r1)];
    let resp = collect_image_results(&events);
    assert!(resp.success);
    assert_eq!(resp.error, None);
    let order: Vec<&str> = resp.results.iter().map(|r| r.query.as_str()).collect();
    assert_eq!(order, vec!["k0", "k1", "k2"]);
}

#[test]
fn test_collect_and_rule_single_failure() {
    let items = vec![img_raw(Some("https://1"), Some("one"))];
    let good = image_search_success("good", &items, 5);
    let bad = image_search_failure("bad", "request failed: x".to_string());
    let resp = collect_image_results(&vec![completed(0, good), completed(1, bad)]);
    assert!(!resp.success);
    assert_eq!(resp.results.len(), 2);
    assert_eq!(resp.results[0].query, "good");
    assert!(resp.results[0].success);
    assert_eq!(resp.results[1].query, "bad");
    assert_eq!(resp.error, Some("bad: request failed: x".to_string()));
}

#[test]
fn test_collect_join_failure() {
    let items = vec![img_raw(Some("https://1"), Some("one"))];
    let good = image_search_success("good", &items, 5);
    let resp = collect_image_results(&vec![
        completed(0, good),
        ImageTaskEvent::JoinFailed("boom".to_string()),
    ]);
    assert!(!resp.success);
    assert_eq!(resp.results.len(), 1);
    assert_eq!(resp.error, Some("join task failed: boom".to_string()));
}

#[test]
fn test_collect_joins_errors_in_completion_order() {
    let bad1 = image_search_failure("b1", "e1".to_string());
    let bad2 = image_search_failure("b2", "e2".to_string());
    let resp = collect_image_results(&vec![completed(1, bad2), completed(0, bad1)]);
    assert!(!resp.success);
    assert_eq!(resp.error, Some("b2: e2; b1: e1".to_string()));
    let order: Vec<&str> = resp.results.iter().map(|r| r.query.as_str()).collect();
    assert_eq!(order, vec!["b1", "b2"]);
}

#[test]
fn test_collect_empty_events() {
    let resp = collect_image_results(&vec![]);
    assert!(resp.success);
    assert_eq!(resp.results.len(), 0);
    assert_eq!(resp.error, None);
}
