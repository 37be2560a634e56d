//! Converts raw upstream records into canonical results, dropping any
//! record that lacks a usable url or description after trimming.

use vstd::prelude::*;
use crate::text::{trim_str, trimmed, str_eq};
use crate::types::{SearchResult, SearchResultV, SearxngResultItem, SearxngResultItemV};

verus! {

/// A field normalized: trimmed, and collapsed to absent when nothing is
/// left.
pub open spec fn norm(v: Option<Seq<char>>) -> Option<Seq<char>> {
    match v {
        None => None,
        Some(s) => if trimmed(s).len() == 0 {
            None
        } else {
            Some(trimmed(s))
        },
    }
}

/// The first of two optional values that is present.
pub open spec fn first_present(a: Option<Seq<char>>, b: Option<Seq<char>>) -> Option<Seq<char>> {
    if a is Some {
        a
    } else {
        b
    }
}

/// How a text-category record maps to a canonical result: url from the
/// record's url, description from its content, else its title.
pub open spec fn map_text_spec(item: SearxngResultItemV) -> Option<SearchResultV> {
    match norm(item.url) {
        None => None,
        Some(u) => match first_present(norm(item.content), norm(item.title)) {
            None => None,
            Some(d) => Some(SearchResultV { url: u, description: d }),
        },
    }
}

/// How an image-category record maps to a canonical result: url from the
/// record's image source, description from its title, else its content.
pub open spec fn map_image_spec(item: SearxngResultItemV) -> Option<SearchResultV> {
    match norm(item.img_src) {
        None => None,
        Some(u) => match first_present(norm(item.title), norm(item.content)) {
            None => None,
            Some(d) => Some(SearchResultV { url: u, description: d }),
        },
    }
}

/// The category-aware mapping of one raw record.
pub open spec fn map_item_spec(category: Seq<char>, item: SearxngResultItemV) -> Option<
    SearchResultV,
> {
    if category == "images"@ {
        map_image_spec(item)
    } else {
        map_text_spec(item)
    }
}

/// Trims an optional field and collapses an empty remainder to `None`.
pub fn normalize(value: Option<String>) -> (r: Option<String>)
    ensures
        r.deep_view() == norm(value.deep_view()),
{
    match value {
        None => None,
        Some(v) => {
            let t = trim_str(v.as_str());
            if t.is_empty() {
                None
            } else {
                Some(t.to_owned())
            }
        },
    }
}

/// Maps one record under a text category.
pub fn map_text_item(item: SearxngResultItem) -> (r: Option<SearchResult>)
    ensures
        r.deep_view() == map_text_spec(item.deep_view()),
{
    let url = normalize(item.url);
    match url {
        None => None,
        Some(u) => {
            let description = match normalize(item.content) {
                Some(d) => Some(d),
                None => normalize(item.title),
            };
            match description {
                None => None,
                Some(d) => Some(SearchResult { url: u, description: d }),
            }
        },
    }
}

/// Maps one record under the image category.
pub fn map_image_item(item: SearxngResultItem) -> (r: Option<SearchResult>)
    ensures
        r.deep_view() == map_image_spec(item.deep_view()),
{
    let url = normalize(item.img_src);
    match url {
        None => None,
        Some(u) => {
            let description = match normalize(item.title) {
                Some(d) => Some(d),
                None => normalize(item.content),
            };
            match description {
                None => None,
                Some(d) => Some(SearchResult { url: u, description: d }),
            }
        },
    }
}

/// Maps one record according to the category, image or text.
pub fn map_result_item(category: &str, item: SearxngResultItem) -> (r: Option<SearchResult>)
    ensures
        r.deep_view() == map_item_spec(category@, item.deep_view()),
{
    if str_eq(category, "images") {
        map_image_item(item)
    } else {
        map_text_item(item)
    }
}

/// The canonical results of a whole raw payload, in upstream order, with
/// unmappable records silently dropped.
pub open spec fn mapped(category: Seq<char>, items: Seq<SearxngResultItemV>) -> Seq<SearchResultV>
    decreases items.len(),
{
    if items.len() == 0 {
        Seq::<SearchResultV>::empty()
    } else {
        mapped(category, items.drop_last()) + (match map_item_spec(category, items.last()) {
            Some(r) => seq![r],
            None => Seq::<SearchResultV>::empty(),
        })
    }
}

/// Maps every record of a payload, dropping the unmappable ones.
pub fn map_search_payload(category: &str, items: &Vec<SearxngResultItem>) -> (r: Vec<SearchResult>)
    ensures
        r.deep_view() == mapped(category@, items.deep_view()),
{
    let mut r: Vec<SearchResult> = Vec::new();
    let mut i: usize = 0;
    while i < items.len()
        invariant
            i <= items.len(),
            r.deep_view() == mapped(category@, items.deep_view().take(i as int)),
        decreases items.len() - i,
    {
        proof {
            let dv = items.deep_view();
            assert(dv.take(i + 1).drop_last() =~= dv.take(i as int));
            assert(dv.take(i + 1).last() == dv[i as int]);
        }
        let item = items[i].clone();
        match map_result_item(category, item) {
            Some(sr) => {
                r.push(sr);
                proof {
                    assert(r.deep_view() =~= mapped(category@, items.deep_view().take(i + 1)));
                }
            },
            None => {
                proof {
                    assert(r.deep_view() =~= mapped(category@, items.deep_view().take(i + 1)));
                }
            },
        }
        i = i + 1;
    }
    proof {
        assert(items.deep_view().take(items.len() as int) =~= items.deep_view());
    }
    r
}

/// No mapped result has an empty url or an empty description: a record
/// missing either field after trimming is dropped, never emitted.
pub proof fn lemma_mapped_fields_nonempty(category: Seq<char>, items: Seq<SearxngResultItemV>)
    ensures
        forall|k: int|
            0 <= k < mapped(category, items).len() ==> #[trigger] mapped(category, items)[k].url.len() > 0
                && mapped(category, items)[k].description.len() > 0,
    decreases items.len(),
{
    if items.len() > 0 {
        lemma_mapped_fields_nonempty(category, items.drop_last());
        let m = mapped(category, items);
        let m0 = mapped(category, items.drop_last());
        match map_item_spec(category, items.last()) {
            Some(r) => {
                assert(m == m0 + seq![r]);
                assert(r.url.len() > 0 && r.description.len() > 0);
                assert forall|k: int| 0 <= k < m.len() implies #[trigger] m[k].url.len() > 0
                    && m[k].description.len() > 0 by {
                    if k < m0.len() {
                        assert(m[k] == m0[k]);
                    } else {
                        assert(m[k] == r);
                    }
                }
            },
            None => {
                assert(m =~= m0);
            },
        }
    }
}

} // verus!
