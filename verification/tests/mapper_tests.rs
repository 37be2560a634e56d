use openperplexity::mapper::{map_image_item, map_result_item, map_search_payload, map_text_item,
    normalize};
use openperplexity::types::SearxngResultItem;

fn item(
    url: Option<&str>,
    content: Option<&str>,
    title: Option<&str>,
    img_src: Option<&str>,
) -> SearxngResultItem {
    SearxngResultItem {
        url: url.map(|s| s.to_string()),
        content: content.map(|s| s.to_string()),
        title: title.map(|s| s.to_string()),
        img_src: img_src.map(|s| s.to_string()),
    }
}

#[test]
fn test_normalize_trims_and_drops_empty() {
    assert_eq!(normalize(Some("  x  ".to_string())), Some("x".to_string()));
    assert_eq!(normalize(Some("   ".to_string())), None);
    assert_eq!(normalize(Some("".to_string())), None);
    assert_eq!(normalize(None), None);
}

#[test]
fn test_map_text_item_basic() {
    let r = map_text_item(item(Some(" https://a "), Some(" body "), Some("t"), None)).unwrap();
    assert_eq!(r.url, "https://a");
    assert_eq!(r.description, "body");
}

#[test]
fn test_map_text_item_title_fallback() {
    let r = map_text_item(item(Some("https://a"), None, Some(" the title "), None)).unwrap();
    assert_eq!(r.description, "the title");
    let r2 = map_text_item(item(Some("https://a"), Some("  "), Some("t2"), None)).unwrap();
    assert_eq!(r2.description, "t2");
}

#[test]
fn test_map_text_item_missing_url_dropped() {
    assert!(map_text_item(item(None, Some("body"), Some("t"), None)).is_none());
    assert!(map_text_item(item(Some("   "), Some("body"), None, None)).is_none());
}

#[test]
fn test_map_text_item_missing_description_dropped() {
    assert!(map_text_item(item(Some("https://a"), None, None, None)).is_none());
    assert!(map_text_item(item(Some("https://a"), Some(" "), Some("  "), None)).is_none());
}

#[test]
fn test_map_image_item_uses_img_src() {
    let r = map_image_item(item(Some("https://page"), Some("c"), Some(" pic "), Some(" https://img "))).unwrap();
    assert_eq!(r.url, "https://img");
    assert_eq!(r.description, "pic");
    assert!(map_image_item(item(Some("https://page"), Some("c"), Some("t"), None)).is_none());
}

#[test]
fn test_map_image_item_content_fallback() {
    let r = map_image_item(item(None, Some(" caption "), None, Some("https://img"))).unwrap();
    assert_eq!(r.description, "caption");
}

#[test]
fn test_map_result_item_category_dispatch() {
    let it = item(Some("https://page"), Some("c"), Some("t"), Some("https://img"));
    let as_image = map_result_item("images", it.clone()).unwrap();
    assert_eq!(as_image.url, "https://img");
    let as_text = map_result_item("news", it).unwrap();
    assert_eq!(as_text.url, "https://page");
    assert_eq!(as_text.description, "c");
}

#[test]
fn test_map_search_payload_drops_incomplete() {
    let items = vec![
        item(Some("https://1"), Some("one"), None, None),
        item(None, Some("no url"), None, None),
        item(Some("https://2"), None, None, None),
        item(Some("https://3"), None, Some("three"), None),
    ];
    let mapped = map_search_payload("general", &items);
    assert_eq!(mapped.len(), 2);
    assert_eq!(mapped[0].url, "https://1");
    assert_eq!(mapped[1].url, "https://3");
    assert_eq!(mapped[1].description, "three");
}
