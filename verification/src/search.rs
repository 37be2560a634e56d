//! The image fan-out flow: keyword filtering, per-keyword image mapping,
//! and the order-restoring, AND-aggregating collection of task events.

use vstd::prelude::*;
use vstd::string::*;
use crate::mapper::norm;
use crate::text::{concat2, concat3, join_strings, joined, trim_string, trimmed};
use crate::types::{SearxngResultItem, SearxngResultItemV, clone_opt_string};

verus! {

/// One image hit; both fields are non-empty after trimming, or the record
/// is dropped before construction.
pub struct ImageSearchItem {
    pub image_url: String,
    pub description: String,
}

/// The view of an `ImageSearchItem`.
pub struct ImageSearchItemV {
    pub image_url: Seq<char>,
    pub description: Seq<char>,
}

impl DeepView for ImageSearchItem {
    type V = ImageSearchItemV;

    open spec fn deep_view(&self) -> ImageSearchItemV {
        ImageSearchItemV { image_url: self.image_url@, description: self.description@ }
    }
}

impl Clone for ImageSearchItem {
    fn clone(&self) -> (r: Self)
        ensures
            r == *self,
    {
        ImageSearchItem {
            image_url: self.image_url.clone(),
            description: self.description.clone(),
        }
    }
}

/// The outcome of one keyword's image search.
pub struct ImageSearchResult {
    pub query: String,
    pub success: bool,
    pub images: Vec<ImageSearchItem>,
    pub error: Option<String>,
}

/// The view of an `ImageSearchResult`.
pub struct ImageSearchResultV {
    pub query: Seq<char>,
    pub success: bool,
    pub images: Seq<ImageSearchItemV>,
    pub error: Option<Seq<char>>,
}

impl DeepView for ImageSearchResult {
    type V = ImageSearchResultV;

    open spec fn deep_view(&self) -> ImageSearchResultV {
        ImageSearchResultV {
            query: self.query@,
            success: self.success,
            images: self.images.deep_view(),
            error: self.error.deep_view(),
        }
    }
}

impl Clone for ImageSearchResult {
    fn clone(&self) -> (r: Self)
        ensures
            r.deep_view() == self.deep_view(),
    {
        let mut images: Vec<ImageSearchItem> = Vec::new();
        let mut i: usize = 0;
        while i < self.images.len()
            invariant
                i <= self.images.len(),
                images@ == self.images@.subrange(0, i as int),
            decreases self.images.len() - i,
        {
            images.push(self.images[i].clone());
            proof {
                assert(self.images@.subrange(0, i + 1) =~= self.images@.subrange(
                    0,
                    i as int,
                ).push(self.images@[i as int]));
            }
            i = i + 1;
        }
        proof {
            assert(self.images@.subrange(0, self.images@.len() as int) =~= self.images@);
        }
        let r = ImageSearchResult {
            query: self.query.clone(),
            success: self.success,
            images,
            error: clone_opt_string(&self.error),
        };
        proof {
            assert(r.images.deep_view() =~= self.images.deep_view());
        }
        r
    }
}

/// The aggregated report of a whole image batch.
pub struct ImageSearchResponse {
    pub success: bool,
    pub results: Vec<ImageSearchResult>,
    pub error: Option<String>,
}

/// The view of an `ImageSearchResponse`.
pub struct ImageSearchResponseV {
    pub success: bool,
    pub results: Seq<ImageSearchResultV>,
    pub error: Option<Seq<char>>,
}

impl DeepView for ImageSearchResponse {
    type V = ImageSearchResponseV;

    open spec fn deep_view(&self) -> ImageSearchResponseV {
        ImageSearchResponseV {
            success: self.success,
            results: self.results.deep_view(),
            error: self.error.deep_view(),
        }
    }
}

/// How one raw record maps to an image hit: the url from the image
/// source, the description from the title, both trimmed and required.
pub open spec fn image_item_spec(item: SearxngResultItemV) -> Option<ImageSearchItemV> {
    match norm(item.img_src) {
        None => None,
        Some(u) => match norm(item.title) {
            None => None,
            Some(d) => Some(ImageSearchItemV { image_url: u, description: d }),
        },
    }
}

/// The image hits of a whole payload, in upstream order, unmappable
/// records silently dropped.
pub open spec fn image_items(items: Seq<SearxngResultItemV>) -> Seq<ImageSearchItemV>
    decreases items.len(),
{
    if items.len() == 0 {
        Seq::<ImageSearchItemV>::empty()
    } else {
        image_items(items.drop_last()) + (match image_item_spec(items.last()) {
            Some(r) => seq![r],
            None => Seq::<ImageSearchItemV>::empty(),
        })
    }
}

/// The first `limit` hits.
pub open spec fn capped_images(s: Seq<ImageSearchItemV>, limit: int) -> Seq<ImageSearchItemV> {
    if s.len() <= limit {
        s
    } else {
        s.take(limit)
    }
}

/// Maps one raw record to an image hit, or drops it.
pub fn map_image_search_item(item: SearxngResultItem) -> (r: Option<ImageSearchItem>)
    ensures
        r.deep_view() == image_item_spec(item.deep_view()),
{
    let url = crate::mapper::normalize(item.img_src);
    match url {
        None => None,
        Some(u) => {
            match crate::mapper::normalize(item.title) {
                None => None,
                Some(d) => Some(ImageSearchItem { image_url: u, description: d }),
            }
        },
    }
}

/// The successful outcome of one keyword: the mapped hits, truncated to
/// the limit.
pub fn image_search_success(keyword: &str, items: &Vec<SearxngResultItem>, limit: usize) -> (r:
    ImageSearchResult)
    ensures
        r.deep_view() == (ImageSearchResultV {
            query: keyword@,
            success: true,
            images: capped_images(image_items(items.deep_view()), limit as int),
            error: None,
        }),
{
    let mut images: Vec<ImageSearchItem> = Vec::new();
    let mut i: usize = 0;
    while i < items.len()
        invariant
            i <= items.len(),
            images.deep_view() == image_items(items.deep_view().take(i as int)),
        decreases items.len() - i,
    {
        proof {
            let dv = items.deep_view();
            assert(dv.take(i + 1).drop_last() =~= dv.take(i as int));
            assert(dv.take(i + 1).last() == dv[i as int]);
        }
        let item = items[i].clone();
        match map_image_search_item(item) {
            Some(hit) => {
                images.push(hit);
                proof {
                    assert(images.deep_view() =~= image_items(items.deep_view().take(i + 1)));
                }
            },
            None => {
                proof {
                    assert(images.deep_view() =~= image_items(items.deep_view().take(i + 1)));
                }
            },
        }
        i = i + 1;
    }
    proof {
        assert(items.deep_view().take(items.deep_view().len() as int) =~= items.deep_view());
    }
    let ghost before = images.deep_view();
    if images.len() > limit {
        images.truncate(limit);
        proof {
            assert(images.deep_view() =~= before.take(limit as int));
        }
    }
    ImageSearchResult { query: keyword.to_owned(), success: true, images, error: None }
}

/// The failed outcome of one keyword, with its error message.
pub fn image_search_failure(keyword: &str, message: String) -> (r: ImageSearchResult)
    ensures
        r.deep_view() == (ImageSearchResultV {
            query: keyword@,
            success: false,
            images: Seq::<ImageSearchItemV>::empty(),
            error: Some(message@),
        }),
{
    let r = ImageSearchResult {
        query: keyword.to_owned(),
        success: false,
        images: Vec::new(),
        error: Some(message),
    };
    proof {
        assert(r.images.deep_view() =~= Seq::<ImageSearchItemV>::empty());
    }
    r
}

/// A batch-level failure report, used when no keyword survives filtering
/// or the upstream address is missing.
pub fn image_response_failure(message: String) -> (r: ImageSearchResponse)
    ensures
        r.deep_view() == (ImageSearchResponseV {
            success: false,
            results: Seq::<ImageSearchResultV>::empty(),
            error: Some(message@),
        }),
{
    let r = ImageSearchResponse { success: false, results: Vec::new(), error: Some(message) };
    proof {
        assert(r.results.deep_view() =~= Seq::<ImageSearchResultV>::empty());
    }
    r
}

/// The keywords trimmed, the empty ones removed, order kept.
pub open spec fn filtered_keywords(ks: Seq<Seq<char>>) -> Seq<Seq<char>>
    decreases ks.len(),
{
    if ks.len() == 0 {
        Seq::<Seq<char>>::empty()
    } else {
        filtered_keywords(ks.drop_last()) + (if trimmed(ks.last()).len() > 0 {
            seq![trimmed(ks.last())]
        } else {
            Seq::<Seq<char>>::empty()
        })
    }
}

/// Trims the keywords and drops the ones that trim to empty.
pub fn filter_keywords(keywords: &Vec<String>) -> (r: Vec<String>)
    ensures
        r.deep_view() == filtered_keywords(keywords.deep_view()),
{
    let mut r: Vec<String> = Vec::new();
    let mut i: usize = 0;
    while i < keywords.len()
        invariant
            i <= keywords.len(),
            r.deep_view() == filtered_keywords(keywords.deep_view().take(i as int)),
        decreases keywords.len() - i,
    {
        proof {
            let dv = keywords.deep_view();
            assert(dv.take(i + 1).drop_last() =~= dv.take(i as int));
            assert(dv.take(i + 1).last() == dv[i as int]);
        }
        let t = trim_string(keywords[i].as_str());
        if !t.as_str().is_empty() {
            r.push(t);
        }
        proof {
            assert(r.deep_view() =~= filtered_keywords(keywords.deep_view().take(i + 1)));
        }
        i = i + 1;
    }
    proof {
        assert(keywords.deep_view().take(keywords.deep_view().len() as int)
            =~= keywords.deep_view());
    }
    r
}

/// Validates an image batch: hands back the filtered keywords, or the
/// failure report when none survives.
pub fn prepare_image_search(keywords: &Vec<String>) -> (r: Result<Vec<String>, ImageSearchResponse>)
    ensures
        match r {
            Ok(f) => f.deep_view() == filtered_keywords(keywords.deep_view()) && f@.len() > 0,
            Err(resp) => filtered_keywords(keywords.deep_view()).len() == 0 && resp.deep_view()
                == (ImageSearchResponseV {
                success: false,
                results: Seq::<ImageSearchResultV>::empty(),
                error: Some("keywords is empty"@),
            }),
        },
{
    let filtered = filter_keywords(keywords);
    if filtered.len() == 0 {
        Err(image_response_failure("keywords is empty".to_owned()))
    } else {
        Ok(filtered)
    }
}

/// What happened to one spawned keyword task: it completed carrying the
/// position it was spawned at, or its join failed with a message.
pub enum ImageTaskEvent {
    Completed(usize, ImageSearchResult),
    JoinFailed(String),
}

/// The error messages contributed by the events, in event order: a failed
/// keyword contributes `"<keyword>: <error>"`, a failed join contributes
/// `"join task failed: <message>"`.
pub open spec fn image_error_list(events: Seq<ImageTaskEvent>) -> Seq<Seq<char>>
    decreases events.len(),
{
    if events.len() == 0 {
        Seq::<Seq<char>>::empty()
    } else {
        image_error_list(events.drop_last()) + (match events.last() {
            ImageTaskEvent::Completed(idx, r) => if !r.success && r.error is Some {
                seq![r.query@ + ": "@ + r.error->0@]
            } else {
                Seq::<Seq<char>>::empty()
            },
            ImageTaskEvent::JoinFailed(m) => seq!["join task failed: "@ + m@],
        })
    }
}

/// A pair inserted into a position-sorted sequence, after every entry
/// whose position does not exceed its own: a stable insertion.
pub open spec fn insert_sorted(
    pair: (usize, ImageSearchResultV),
    s: Seq<(usize, ImageSearchResultV)>,
) -> Seq<(usize, ImageSearchResultV)>
    decreases s.len(),
{
    if s.len() > 0 && s.first().0 <= pair.0 {
        seq![s.first()] + insert_sorted(pair, s.drop_first())
    } else {
        seq![pair] + s
    }
}

/// The completed results, sorted by spawn position as the events are
/// folded in: the order-restoring step of the image batch.
pub open spec fn sorted_completed(events: Seq<ImageTaskEvent>) -> Seq<
    (usize, ImageSearchResultV),
>
    decreases events.len(),
{
    if events.len() == 0 {
        Seq::<(usize, ImageSearchResultV)>::empty()
    } else {
        let prev = sorted_completed(events.drop_last());
        match events.last() {
            ImageTaskEvent::Completed(idx, r) => insert_sorted((idx, r.deep_view()), prev),
            ImageTaskEvent::JoinFailed(m) => prev,
        }
    }
}

/// The results alone, positions stripped.
pub open spec fn strip_positions(s: Seq<(usize, ImageSearchResultV)>) -> Seq<ImageSearchResultV> {
    s.map_values(|p: (usize, ImageSearchResultV)| p.1)
}

/// The whole image batch report for a sequence of task events: results in
/// spawn order, success exactly when no event contributed an error, and
/// the error messages joined with "; " otherwise.
pub open spec fn image_response_spec(events: Seq<ImageTaskEvent>) -> ImageSearchResponseV {
    let errors = image_error_list(events);
    ImageSearchResponseV {
        success: errors.len() == 0,
        results: strip_positions(sorted_completed(events)),
        error: if errors.len() == 0 {
            None
        } else {
            Some(joined(errors, "; "@))
        },
    }
}

proof fn lemma_insert_sorted_at(
    pair: (usize, ImageSearchResultV),
    s: Seq<(usize, ImageSearchResultV)>,
    p: int,
)
    requires
        0 <= p <= s.len(),
        forall|k: int| 0 <= k < p ==> (#[trigger] s[k]).0 <= pair.0,
        p == s.len() || s[p].0 > pair.0,
    ensures
        insert_sorted(pair, s) == s.insert(p, pair),
    decreases p,
{
    if p == 0 {
        assert(insert_sorted(pair, s) == seq![pair] + s);
        assert(s.insert(0, pair) =~= seq![pair] + s);
    } else {
        assert(s[0].0 <= pair.0);
        lemma_insert_sorted_at(pair, s.drop_first(), p - 1);
        assert(insert_sorted(pair, s) == seq![s.first()] + s.drop_first().insert(p - 1, pair));
        assert(seq![s.first()] + s.drop_first().insert(p - 1, pair) =~= s.insert(p, pair));
    }
}

/// Inserts one completed task into the position-sorted list.
fn insert_by_position(
    sorted: &mut Vec<(usize, ImageSearchResult)>,
    pair: (usize, ImageSearchResult),
)
    ensures
        final(sorted).deep_view() == insert_sorted(pair.deep_view(), old(sorted).deep_view()),
{
    let mut p: usize = 0;
    loop
        invariant
            p <= sorted.len(),
            *sorted == *old(sorted),
            forall|k: int| 0 <= k < p ==> (#[trigger] sorted.deep_view()[k]).0 <= pair.0,
        ensures
            p <= sorted.len(),
            *sorted == *old(sorted),
            forall|k: int| 0 <= k < p ==> (#[trigger] sorted.deep_view()[k]).0 <= pair.0,
            p == sorted.len() || sorted.deep_view()[p as int].0 > pair.0,
        decreases sorted.len() - p,
    {
        if p < sorted.len() {
            let key = sorted[p].0;
            if key <= pair.0 {
                p = p + 1;
            } else {
                break;
            }
        } else {
            break;
        }
    }
    proof {
        lemma_insert_sorted_at(pair.deep_view(), sorted.deep_view(), p as int);
    }
    let ghost before = sorted.deep_view();
    let ghost pairv = pair.deep_view();
    sorted.insert(p, pair);
    proof {
        before.insert_ensures(p as int, pairv);
        assert(sorted.deep_view() =~= before.insert(p as int, pairv));
    }
}

/// Folds the task events of an image batch into its report: collects the
/// error messages in completion order, restores the spawn order of the
/// completed results by their positions, and applies the AND rule for the
/// aggregate success flag.
pub fn collect_image_results(events: &Vec<ImageTaskEvent>) -> (r: ImageSearchResponse)
    ensures
        r.deep_view() == image_response_spec(events@),
{
    let mut errors: Vec<String> = Vec::new();
    let mut sorted: Vec<(usize, ImageSearchResult)> = Vec::new();
    let mut k: usize = 0;
    while k < events.len()
        invariant
            k <= events.len(),
            errors.deep_view() == image_error_list(events@.take(k as int)),
            sorted.deep_view() == sorted_completed(events@.take(k as int)),
        decreases events.len() - k,
    {
        proof {
            assert(events@.take(k + 1).drop_last() =~= events@.take(k as int));
            assert(events@.take(k + 1).last() == events@[k as int]);
        }
        match &events[k] {
            ImageTaskEvent::Completed(idx, res) => {
                if !res.success {
                    match &res.error {
                        Some(e) => {
                            let msg = concat3(res.query.as_str(), ": ", e.as_str());
                            let ghost prev = errors.deep_view();
                            errors.push(msg);
                            proof {
                                assert(errors.deep_view() =~= prev.push(msg@));
                                assert(errors.deep_view() =~= image_error_list(
                                    events@.take(k + 1),
                                ));
                            }
                        },
                        None => {
                            proof {
                                assert(errors.deep_view() =~= image_error_list(
                                    events@.take(k + 1),
                                ));
                            }
                        },
                    }
                } else {
                    proof {
                        assert(errors.deep_view() =~= image_error_list(events@.take(k + 1)));
                    }
                }
                let copy = res.clone();
                insert_by_position(&mut sorted, (*idx, copy));
                proof {
                    assert(sorted.deep_view() =~= sorted_completed(events@.take(k + 1)));
                }
            },
            ImageTaskEvent::JoinFailed(m) => {
                let msg = concat2("join task failed: ", m.as_str());
                let ghost prev = errors.deep_view();
                errors.push(msg);
                proof {
                    assert(errors.deep_view() =~= prev.push(msg@));
                    assert(errors.deep_view() =~= image_error_list(events@.take(k + 1)));
                    assert(sorted.deep_view() =~= sorted_completed(events@.take(k + 1)));
                }
            },
        }
        k = k + 1;
    }
    proof {
        assert(events@.take(events@.len() as int) =~= events@);
    }
    let ghost sc = sorted_completed(events@);
    let mut ordered: Vec<ImageSearchResult> = Vec::new();
    let mut q: usize = 0;
    while q < sorted.len()
        invariant
            q <= sorted.len(),
            sorted.deep_view() == sc,
            ordered.deep_view() == strip_positions(sc).take(q as int),
        decreases sorted.len() - q,
    {
        let copy = sorted[q].1.clone();
        let ghost prev = ordered.deep_view();
        ordered.push(copy);
        proof {
            assert(ordered.deep_view() =~= prev.push(copy.deep_view()));
            assert(strip_positions(sc).take(q + 1).drop_last() =~= strip_positions(sc).take(
                q as int,
            ));
            assert(copy.deep_view() == sc[q as int].1);
            assert(ordered.deep_view() =~= strip_positions(sc).take(q + 1));
        }
        q = q + 1;
    }
    proof {
        assert(strip_positions(sc).take(strip_positions(sc).len() as int) =~= strip_positions(sc));
    }
    let ok = errors.len() == 0;
    let error = if ok {
        None
    } else {
        Some(join_strings(&errors, "; "))
    };
    ImageSearchResponse { success: ok, results: ordered, error }
}

/// Whether a tagged sequence is ordered by spawn position.
pub open spec fn position_sorted(s: Seq<(usize, ImageSearchResultV)>) -> bool {
    forall|i: int, j: int| 0 <= i < j < s.len() ==> (#[trigger] s[i]).0 <= (#[trigger] s[j]).0
}

proof fn lemma_insert_sorted_props(
    pair: (usize, ImageSearchResultV),
    s: Seq<(usize, ImageSearchResultV)>,
)
    ensures
        insert_sorted(pair, s).len() == s.len() + 1,
        forall|k: int|
            0 <= k < insert_sorted(pair, s).len() ==> (#[trigger] insert_sorted(pair, s)[k] == pair
                || s.contains(insert_sorted(pair, s)[k])),
        position_sorted(s) ==> position_sorted(insert_sorted(pair, s)),
    decreases s.len(),
{
    let ins = insert_sorted(pair, s);
    if s.len() > 0 && s.first().0 <= pair.0 {
        lemma_insert_sorted_props(pair, s.drop_first());
        let inner = insert_sorted(pair, s.drop_first());
        assert(ins == seq![s.first()] + inner);
        assert forall|k: int| 0 <= k < ins.len() implies (#[trigger] ins[k] == pair || s.contains(
            ins[k],
        )) by {
            if k == 0 {
                assert(ins[0] == s[0]);
                assert(s.contains(s[0]));
            } else {
                assert(ins[k] == inner[k - 1]);
                if inner[k - 1] == pair {
                } else {
                    assert(s.drop_first().contains(inner[k - 1]));
                    let w = choose|w: int|
                        0 <= w < s.drop_first().len() && s.drop_first()[w] == inner[k - 1];
                    assert(s[w + 1] == inner[k - 1]);
                    assert(s.contains(s[w + 1]));
                }
            }
        }
        if position_sorted(s) {
            assert(position_sorted(s.drop_first())) by {
                assert forall|i: int, j: int|
                    0 <= i < j < s.drop_first().len() implies (#[trigger] s.drop_first()[i]).0
                    <= (#[trigger] s.drop_first()[j]).0 by {
                    assert(s.drop_first()[i] == s[i + 1] && s.drop_first()[j] == s[j + 1]);
                }
            }
            assert forall|i: int, j: int| 0 <= i < j < ins.len() implies (#[trigger] ins[i]).0
                <= (#[trigger] ins[j]).0 by {
                if i == 0 {
                    assert(ins[j] == inner[j - 1]);
                    if inner[j - 1] == pair {
                        assert(ins[0].0 <= pair.0);
                    } else {
                        assert(s.drop_first().contains(inner[j - 1]));
                        let w = choose|w: int|
                            0 <= w < s.drop_first().len() && s.drop_first()[w] == inner[j - 1];
                        assert(s[w + 1] == inner[j - 1]);
                        assert(s[0].0 <= s[w + 1].0);
                    }
                } else {
                    assert(ins[i] == inner[i - 1] && ins[j] == inner[j - 1]);
                }
            }
        }
    } else {
        assert(ins == seq![pair] + s);
        assert forall|k: int| 0 <= k < ins.len() implies (#[trigger] ins[k] == pair || s.contains(
            ins[k],
        )) by {
            if k > 0 {
                assert(ins[k] == s[k - 1]);
                assert(s.contains(s[k - 1]));
            }
        }
        if position_sorted(s) {
            assert forall|i: int, j: int| 0 <= i < j < ins.len() implies (#[trigger] ins[i]).0
                <= (#[trigger] ins[j]).0 by {
                if i == 0 {
                    assert(ins[j] == s[j - 1]);
                    if s.len() > 0 {
                        assert(s[0].0 > pair.0);
                        assert(j - 1 == 0 || s[0].0 <= s[j - 1].0);
                    }
                } else {
                    assert(ins[i] == s[i - 1] && ins[j] == s[j - 1]);
                }
            }
        }
    }
}

/// The order-restoring rule of the image batch: whatever order the tasks
/// completed in, the collected results stand ordered by the position each
/// task was spawned at.
pub proof fn lemma_image_order_restored(events: Seq<ImageTaskEvent>)
    ensures
        position_sorted(sorted_completed(events)),
    decreases events.len(),
{
    if events.len() > 0 {
        lemma_image_order_restored(events.drop_last());
        match events.last() {
            ImageTaskEvent::Completed(idx, r) => {
                lemma_insert_sorted_props(
                    (idx, r.deep_view()),
                    sorted_completed(events.drop_last()),
                );
            },
            ImageTaskEvent::JoinFailed(m) => {
            },
        }
    }
}

/// Which completed results a sequence of events carries, with their
/// spawn positions and multiplicity.
pub open spec fn completed_multiset(events: Seq<ImageTaskEvent>) -> vstd::multiset::Multiset<
    (usize, ImageSearchResultV),
>
    decreases events.len(),
{
    if events.len() == 0 {
        vstd::multiset::Multiset::<(usize, ImageSearchResultV)>::empty()
    } else {
        let prev = completed_multiset(events.drop_last());
        match events.last() {
            ImageTaskEvent::Completed(idx, r) => prev.insert((idx, r.deep_view())),
            ImageTaskEvent::JoinFailed(m) => prev,
        }
    }
}

proof fn lemma_singleton_to_multiset(x: (usize, ImageSearchResultV))
    ensures
        seq![x].to_multiset() == vstd::multiset::Multiset::<(usize, ImageSearchResultV)>::empty()
            .insert(x),
{
    broadcast use vstd::seq_lib::group_to_multiset_ensures;
    broadcast use vstd::multiset::group_multiset_axioms;

    let e = Seq::<(usize, ImageSearchResultV)>::empty();
    assert(e.push(x).to_multiset() =~= e.to_multiset().insert(x));
    assert(e.to_multiset() =~= vstd::multiset::Multiset::<(usize, ImageSearchResultV)>::empty())
        by {
        assert forall|a: (usize, ImageSearchResultV)| e.to_multiset().count(a) == 0 by {
            assert(!e.contains(a));
        }
    }
    assert(seq![x] =~= e.push(x));
}

proof fn lemma_insert_sorted_multiset(
    pair: (usize, ImageSearchResultV),
    s: Seq<(usize, ImageSearchResultV)>,
)
    ensures
        insert_sorted(pair, s).to_multiset() == s.to_multiset().insert(pair),
    decreases s.len(),
{
    broadcast use vstd::seq_lib::group_to_multiset_ensures;
    broadcast use vstd::multiset::group_multiset_axioms;

    if s.len() > 0 && s.first().0 <= pair.0 {
        lemma_insert_sorted_multiset(pair, s.drop_first());
        let inner = insert_sorted(pair, s.drop_first());
        assert(insert_sorted(pair, s) == seq![s.first()] + inner);
        vstd::seq_lib::lemma_multiset_commutative(seq![s.first()], inner);
        assert(s =~= seq![s.first()] + s.drop_first());
        vstd::seq_lib::lemma_multiset_commutative(seq![s.first()], s.drop_first());
        lemma_singleton_to_multiset(s.first());
        assert(insert_sorted(pair, s).to_multiset() =~= s.to_multiset().insert(pair));
    } else {
        assert(insert_sorted(pair, s) == seq![pair] + s);
        vstd::seq_lib::lemma_multiset_commutative(seq![pair], s);
        lemma_singleton_to_multiset(pair);
        assert(insert_sorted(pair, s).to_multiset() =~= s.to_multiset().insert(pair));
    }
}

/// The order-restoring step neither loses nor fabricates a result: the
/// collected list carries exactly the completed outcomes of the events,
/// every one exactly once.
pub proof fn lemma_image_no_result_lost(events: Seq<ImageTaskEvent>)
    ensures
        sorted_completed(events).to_multiset() == completed_multiset(events),
    decreases events.len(),
{
    broadcast use vstd::seq_lib::group_to_multiset_ensures;

    if events.len() > 0 {
        lemma_image_no_result_lost(events.drop_last());
        match events.last() {
            ImageTaskEvent::Completed(idx, r) => {
                lemma_insert_sorted_multiset(
                    (idx, r.deep_view()),
                    sorted_completed(events.drop_last()),
                );
            },
            ImageTaskEvent::JoinFailed(m) => {
            },
        }
    } else {
        assert(sorted_completed(events).to_multiset() =~= vstd::multiset::Multiset::<
            (usize, ImageSearchResultV),
        >::empty()) by {
            assert forall|a: (usize, ImageSearchResultV)|
                sorted_completed(events).to_multiset().count(a) == 0 by {
                assert(!sorted_completed(events).contains(a));
            }
        }
    }
}

/// Whether one task event counts as a success: a completed task whose
/// outcome succeeded; a failed join never does.
pub open spec fn event_ok(e: ImageTaskEvent) -> bool {
    match e {
        ImageTaskEvent::Completed(idx, r) => r.success,
        ImageTaskEvent::JoinFailed(m) => false,
    }
}

/// A well-formed completed outcome carries an error message exactly when
/// it failed, as every outcome this library builds does.
pub open spec fn event_wf(e: ImageTaskEvent) -> bool {
    match e {
        ImageTaskEvent::Completed(idx, r) => r.error is Some <==> !r.success,
        ImageTaskEvent::JoinFailed(m) => true,
    }
}

/// The AND rule of the image batch: the report succeeds exactly when
/// every spawned task completed successfully — one failed keyword or one
/// failed join flips the flag, while the completed results are all still
/// reported.
pub proof fn lemma_image_success_iff_all(events: Seq<ImageTaskEvent>)
    requires
        forall|k: int| 0 <= k < events.len() ==> event_wf(#[trigger] events[k]),
    ensures
        image_response_spec(events).success <==> (forall|k: int|
            0 <= k < events.len() ==> event_ok(#[trigger] events[k])),
    decreases events.len(),
{
    if events.len() > 0 {
        let prefix = events.drop_last();
        assert(forall|k: int| 0 <= k < prefix.len() ==> #[trigger] prefix[k] == events[k]);
        lemma_image_success_iff_all(prefix);
        let el = image_error_list(events);
        let el0 = image_error_list(prefix);
        assert(el.len() == 0 <==> el0.len() == 0 && event_ok(events.last()));
        if el.len() == 0 {
            assert forall|k: int| 0 <= k < events.len() implies event_ok(#[trigger] events[k]) by {
                if k < events.len() - 1 {
                    assert(events[k] == prefix[k]);
                } else {
                    assert(events[k] == events.last());
                }
            }
        } else {
            assert(!(forall|k: int| 0 <= k < events.len() ==> event_ok(#[trigger] events[k])))
                by {
                if (forall|k: int| 0 <= k < events.len() ==> event_ok(#[trigger] events[k])) {
                    assert forall|k: int| 0 <= k < prefix.len() implies event_ok(
                        #[trigger] prefix[k],
                    ) by {
                        assert(prefix[k] == events[k]);
                    }
                    assert(event_ok(events[events.len() - 1]));
                    assert(false);
                }
            }
        }
    }
}

} // verus!
