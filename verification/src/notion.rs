//! Notion search results: page titles, the category each page is filed
//! under, and paging through the search endpoint.

use vstd::prelude::*;
use crate::http::{HttpMethod, JsonRequest};
use crate::json::{Json, JsonMember, JsonNumber};
use crate::text::{str_eq, str_contains, contains_spec, sort_strings, texts, sorted_texts};
use crate::title_index::TitleIndex;

verus! {

/// The text in an optional string.
pub open spec fn opt_text(o: Option<String>) -> Option<Seq<char>> {
    match o {
        Some(s) => Some(s@),
        None => None,
    }
}

/// The `plain_text` of the first element of a rich-text array.
pub open spec fn first_plain_text(arr: Option<Seq<Json>>) -> Option<Seq<char>> {
    match arr {
        Some(a) => if a.len() > 0 {
            a[0].at("plain_text"@).str_of()
        } else {
            None
        },
        None => None,
    }
}

/// The title text of a property of type `title`.
pub open spec fn property_title(v: Json) -> Option<Seq<char>> {
    if v.at("type"@).is_text("title"@) {
        first_plain_text(v.at("title"@).array_of())
    } else {
        None
    }
}

/// The first title text among the properties from index `i` on.
pub open spec fn title_from(props: Seq<JsonMember>, i: int) -> Option<Seq<char>>
    decreases props.len() - i,
{
    if i < 0 || i >= props.len() {
        None
    } else {
        match property_title(props[i].value) {
            Some(t) => Some(t),
            None => title_from(props, i + 1),
        }
    }
}

/// The id of the page or database that contains an item.
pub open spec fn parent_id_spec(item: Json) -> Option<Seq<char>> {
    let parent = item.at("parent"@);
    match parent.at("type"@).str_of() {
        None => None,
        Some(t) => if t == "page_id"@ {
            parent.at("page_id"@).str_of()
        } else if t == "database_id"@ {
            parent.at("database_id"@).str_of()
        } else {
            None
        },
    }
}

/// Scanning relation properties from index `i` on: the title of the first
/// related object that `titles` knows. The scan gives up at the first
/// relation property without a first related id.
pub open spec fn relation_from(
    props: Seq<JsonMember>,
    titles: Map<Seq<char>, Seq<char>>,
    i: int,
) -> Option<Seq<char>>
    decreases props.len() - i,
{
    if i < 0 || i >= props.len() {
        None
    } else {
        let v = props[i].value;
        if !v.at("type"@).is_text("relation"@) {
            relation_from(props, titles, i + 1)
        } else {
            match v.at("relation"@).array_of() {
                None => None,
                Some(arr) => if arr.len() == 0 {
                    None
                } else {
                    match arr[0].at("id"@).str_of() {
                        None => None,
                        Some(id) => if titles.contains_key(id) {
                            Some(titles[id])
                        } else {
                            relation_from(props, titles, i + 1)
                        },
                    }
                },
            }
        }
    }
}

/// The category a page takes from its relation properties.
pub open spec fn relation_target_spec(page: Json, titles: Map<Seq<char>, Seq<char>>) -> Option<
    Seq<char>,
> {
    match page.at("properties"@).object_of() {
        None => None,
        Some(props) => relation_from(props, titles, 0),
    }
}

/// The value of one tag property: the name of the first item of a non-empty
/// `multi_select`, or the name of a `select`, where that name is a string.
pub open spec fn tag_value(v: Json) -> Option<Seq<char>> {
    if v.at("type"@).is_text("multi_select"@) {
        match v.at("multi_select"@).array_of() {
            Some(arr) => if arr.len() > 0 {
                arr[0].at("name"@).str_of()
            } else {
                None
            },
            None => None,
        }
    } else if v.at("type"@).is_text("select"@) {
        v.at("select"@).at("name"@).str_of()
    } else {
        None
    }
}

/// The first tag value among the properties from index `i` on, in member
/// order; properties that carry none are passed over.
pub open spec fn tag_from(props: Seq<JsonMember>, i: int) -> Option<Seq<char>>
    decreases props.len() - i,
{
    if i < 0 || i >= props.len() {
        None
    } else {
        match tag_value(props[i].value) {
            Some(n) => Some(n),
            None => tag_from(props, i + 1),
        }
    }
}

/// The category a page takes from its tag properties.
pub open spec fn tag_target_spec(page: Json) -> Option<Seq<char>> {
    match page.at("properties"@).object_of() {
        None => None,
        Some(props) => tag_from(props, 0),
    }
}

/// The `plain_text` of the first element of the array member `key`.
fn first_plain_text_at(value: &Json, key: &str) -> (r: Option<String>)
    ensures
        opt_text(r) == first_plain_text(value.at(key@).array_of()),
{
    match value.array_at(key) {
        Some(arr) => {
            if arr.len() > 0 {
                match arr[0].str_at("plain_text") {
                    Some(t) => Some(t.clone()),
                    None => None,
                }
            } else {
                None
            }
        },
        None => None,
    }
}

/// The title of a page: the text of its first `title` property that has one.
pub fn extract_title(properties: &Vec<JsonMember>) -> (r: Option<String>)
    ensures
        opt_text(r) == title_from(properties@, 0),
{
    let mut i: usize = 0;
    while i < properties.len()
        invariant
            i <= properties@.len(),
            title_from(properties@, 0) == title_from(properties@, i as int),
        decreases properties@.len() - i,
    {
        let v = &properties[i].value;
        if v.text_at_is("type", "title") {
            let t = first_plain_text_at(v, "title");
            if t.is_some() {
                return t;
            }
        }
        i = i + 1;
    }
    None
}

/// The id of the page or database that contains `item`.
pub fn parent_id(item: &Json) -> (r: Option<String>)
    ensures
        opt_text(r) == parent_id_spec(*item),
{
    let parent = match item.get("parent") {
        Some(p) => p,
        None => return None,
    };
    let kind = match parent.str_at("type") {
        Some(k) => k,
        None => return None,
    };
    if str_eq(kind.as_str(), "page_id") {
        match parent.str_at("page_id") {
            Some(s) => Some(s.clone()),
            None => None,
        }
    } else if str_eq(kind.as_str(), "database_id") {
        match parent.str_at("database_id") {
            Some(s) => Some(s.clone()),
            None => None,
        }
    } else {
        None
    }
}

/// The title of the first related object that `titles` knows, from the
/// page's relation properties.
pub fn relation_target(page: &Json, titles: &TitleIndex) -> (r: Option<String>)
    ensures
        opt_text(r) == relation_target_spec(*page, titles@),
{
    let props = match page.object_at("properties") {
        Some(p) => p,
        None => return None,
    };
    let mut i: usize = 0;
    while i < props.len()
        invariant
            i <= props@.len(),
            relation_target_spec(*page, titles@) == relation_from(props@, titles@, i as int),
        decreases props@.len() - i,
    {
        let v = &props[i].value;
        if v.text_at_is("type", "relation") {
            let arr = match v.array_at("relation") {
                Some(a) => a,
                None => return None,
            };
            if arr.len() == 0 {
                return None;
            }
            let id = match arr[0].str_at("id") {
                Some(id) => id,
                None => return None,
            };
            match titles.get(id.as_str()) {
                Some(name) => return Some(name.clone()),
                None => {},
            }
        }
        i = i + 1;
    }
    None
}

/// The first value, in member order, of a non-empty `multi_select` property
/// whose first item has a name, or of a `select` property with a name.
pub fn tag_target(page: &Json) -> (r: Option<String>)
    ensures
        opt_text(r) == tag_target_spec(*page),
{
    let props = match page.object_at("properties") {
        Some(p) => p,
        None => return None,
    };
    let mut i: usize = 0;
    while i < props.len()
        invariant
            i <= props@.len(),
            tag_target_spec(*page) == tag_from(props@, i as int),
        decreases props@.len() - i,
    {
        let v = &props[i].value;
        if v.text_at_is("type", "multi_select") {
            match v.array_at("multi_select") {
                Some(arr) => if arr.len() > 0 {
                    match arr[0].str_at("name") {
                        Some(n) => return Some(n.clone()),
                        None => {},
                    }
                },
                None => {},
            }
        } else if v.text_at_is("type", "select") {
            match v.get("select") {
                Some(sel) => match sel.str_at("name") {
                    Some(n) => return Some(n.clone()),
                    None => {},
                },
                None => {},
            }
        }
        i = i + 1;
    }
    None
}

/// The id of a search result, empty when it has none.
pub open spec fn item_id(item: Json) -> Seq<char> {
    match item.at("id"@).str_of() {
        Some(s) => s,
        None => Seq::empty(),
    }
}

/// The display title of a database result.
pub open spec fn database_title(item: Json) -> Seq<char> {
    match first_plain_text(item.at("title"@).array_of()) {
        Some(t) => t,
        None => "Unbenannt"@,
    }
}

/// The display title of a page result.
pub open spec fn page_title(item: Json) -> Seq<char> {
    match item.at("properties"@).object_of() {
        Some(props) => match title_from(props, 0) {
            Some(t) => t,
            None => "Unbenannt"@,
        },
        None => "Unbenannt"@,
    }
}

/// The id-to-title table after the first `n` results.
pub open spec fn title_map(results: Seq<Json>, n: int) -> Map<Seq<char>, Seq<char>>
    decreases n,
{
    if n <= 0 {
        Map::empty()
    } else {
        let m = title_map(results, n - 1);
        let item = results[n - 1];
        if item.at("object"@).is_text("database"@) {
            m.insert(item_id(item), database_title(item))
        } else if item.at("object"@).is_text("page"@) {
            m.insert(item_id(item), page_title(item))
        } else {
            m
        }
    }
}

/// The pages among the first `n` results, each as its index and title.
pub open spec fn page_refs(results: Seq<Json>, n: int) -> Seq<(int, Seq<char>)>
    decreases n,
{
    if n <= 0 {
        Seq::empty()
    } else {
        let p = page_refs(results, n - 1);
        let item = results[n - 1];
        if item.at("object"@).is_text("database"@) {
            p
        } else if item.at("object"@).is_text("page"@) {
            p.push((n - 1, page_title(item)))
        } else {
            p
        }
    }
}

/// A page among the search results: its index there and its title.
pub struct PageRef {
    pub index: usize,
    pub title: String,
}

/// The index and title of each page reference.
pub open spec fn ref_views(v: Seq<PageRef>) -> Seq<(int, Seq<char>)> {
    v.map_values(|r: PageRef| (r.index as int, r.title@))
}

/// The titles of all pages and databases, and the pages, of a search.
pub struct CollectedTitles {
    pub titles: TitleIndex,
    pub pages: Vec<PageRef>,
}

/// The first pass over the search results: every database and page enters
/// the title table, and every page is listed with its title.
pub fn collect_titles(results: &Vec<Json>) -> (r: CollectedTitles)
    ensures
        r.titles@ == title_map(results@, results@.len() as int),
        ref_views(r.pages@) == page_refs(results@, results@.len() as int),
        forall|k: int| 0 <= k < r.pages@.len() ==> (#[trigger] r.pages@[k]).index < results@.len(),
{
    let mut titles = TitleIndex::new();
    let mut pages: Vec<PageRef> = Vec::new();
    let mut i: usize = 0;
    while i < results.len()
        invariant
            i <= results@.len(),
            titles@ == title_map(results@, i as int),
            ref_views(pages@) == page_refs(results@, i as int),
            forall|k: int| 0 <= k < pages@.len() ==> (#[trigger] pages@[k]).index < i,
        decreases results@.len() - i,
    {
        let item = &results[i];
        let id = match item.str_at("id") {
            Some(s) => s.clone(),
            None => String::new(),
        };
        if item.text_at_is("object", "database") {
            let title = match first_plain_text_at(item, "title") {
                Some(t) => t,
                None => "Unbenannt".to_owned(),
            };
            titles.insert(id, title);
        } else if item.text_at_is("object", "page") {
            let title = match item.object_at("properties") {
                Some(props) => match extract_title(props) {
                    Some(t) => t,
                    None => "Unbenannt".to_owned(),
                },
                None => "Unbenannt".to_owned(),
            };
            titles.insert(id, title.clone());
            let ghost before = pages@;
            pages.push(PageRef { index: i, title });
            assert(ref_views(pages@) =~= ref_views(before).push((i as int, page_title(*item))));
        }
        i = i + 1;
    }
    CollectedTitles { titles, pages }
}

/// Where a page's category came from.
#[derive(Clone, Copy, Debug, PartialEq, Eq, Structural)]
pub enum Resolution {
    /// A relation property pointing at a known page or database.
    Relation,
    /// A `multi_select` or `select` property.
    Tag,
    /// The page or database that contains the page.
    Parent,
    /// None of these: the page goes under the fallback category.
    Unresolved,
}

/// The category of a page and where it came from: a relation, else a tag,
/// else the known container, else `Allgemein`.
pub open spec fn category_spec(page: Json, titles: Map<Seq<char>, Seq<char>>) -> (
    Seq<char>,
    Resolution,
) {
    match relation_target_spec(page, titles) {
        Some(n) => (n, Resolution::Relation),
        None => match tag_target_spec(page) {
            Some(n) => (n, Resolution::Tag),
            None => match parent_id_spec(page) {
                Some(pid) => if titles.contains_key(pid) {
                    (titles[pid], Resolution::Parent)
                } else {
                    ("Allgemein"@, Resolution::Unresolved)
                },
                None => ("Allgemein"@, Resolution::Unresolved),
            },
        },
    }
}

/// The category of a page and where it came from.
pub fn page_category(page: &Json, titles: &TitleIndex) -> (r: (String, Resolution))
    ensures
        (r.0@, r.1) == category_spec(*page, titles@),
{
    match relation_target(page, titles) {
        Some(n) => (n, Resolution::Relation),
        None => match tag_target(page) {
            Some(n) => (n, Resolution::Tag),
            None => match parent_id(page) {
                Some(pid) => match titles.get(pid.as_str()) {
                    Some(n) => (n.clone(), Resolution::Parent),
                    None => ("Allgemein".to_owned(), Resolution::Unresolved),
                },
                None => ("Allgemein".to_owned(), Resolution::Unresolved),
            },
        },
    }
}

/// Pages that appear in the listing: all but `To-do` and those whose title
/// mentions `Study Space`.
pub open spec fn listed(title: Seq<char>) -> bool {
    title != "To-do"@ && !contains_spec(title, "Study Space"@)
}

/// The listing line of a page.
pub open spec fn label_spec(category: Seq<char>, title: Seq<char>) -> Seq<char> {
    "["@ + category + "] "@ + title
}

/// The listing lines of the first `k` pages, in page order.
pub open spec fn labels_upto(
    results: Seq<Json>,
    refs: Seq<(int, Seq<char>)>,
    titles: Map<Seq<char>, Seq<char>>,
    k: int,
) -> Seq<Seq<char>>
    decreases k,
{
    if k <= 0 {
        Seq::empty()
    } else {
        let prev = labels_upto(results, refs, titles, k - 1);
        let title = refs[k - 1].1;
        if listed(title) {
            prev.push(label_spec(category_spec(results[refs[k - 1].0], titles).0, title))
        } else {
            prev
        }
    }
}

/// How many of the first `k` pages took their category from `kind`.
pub open spec fn resolution_count(
    results: Seq<Json>,
    refs: Seq<(int, Seq<char>)>,
    titles: Map<Seq<char>, Seq<char>>,
    k: int,
    kind: Resolution,
) -> nat
    decreases k,
{
    if k <= 0 {
        0
    } else {
        resolution_count(results, refs, titles, k - 1, kind) + if category_spec(
            results[refs[k - 1].0],
            titles,
        ).1 == kind {
            1nat
        } else {
            0nat
        }
    }
}

/// The id-to-title table of a whole search.
pub open spec fn all_titles(results: Seq<Json>) -> Map<Seq<char>, Seq<char>> {
    title_map(results, results.len() as int)
}

/// The pages of a whole search.
pub open spec fn all_pages(results: Seq<Json>) -> Seq<(int, Seq<char>)> {
    page_refs(results, results.len() as int)
}

/// The listing lines of a whole search, in page order.
pub open spec fn listing_spec(results: Seq<Json>) -> Seq<Seq<char>> {
    labels_upto(results, all_pages(results), all_titles(results), all_pages(results).len() as int)
}

/// How many pages of a whole search took their category from `kind`.
pub open spec fn count_spec(results: Seq<Json>, kind: Resolution) -> nat {
    resolution_count(
        results,
        all_pages(results),
        all_titles(results),
        all_pages(results).len() as int,
        kind,
    )
}

proof fn lemma_counts_sum(
    results: Seq<Json>,
    refs: Seq<(int, Seq<char>)>,
    titles: Map<Seq<char>, Seq<char>>,
    k: int,
)
    requires
        k >= 0,
    ensures
        resolution_count(results, refs, titles, k, Resolution::Relation) + resolution_count(
            results,
            refs,
            titles,
            k,
            Resolution::Tag,
        ) + resolution_count(results, refs, titles, k, Resolution::Parent) + resolution_count(
            results,
            refs,
            titles,
            k,
            Resolution::Unresolved,
        ) == k,
    decreases k,
{
    if k > 0 {
        lemma_counts_sum(results, refs, titles, k - 1);
    }
}

/// Every page of a search is counted under exactly one way of finding its
/// category.
pub proof fn law_every_page_counted_once(results: Seq<Json>)
    ensures
        count_spec(results, Resolution::Relation) + count_spec(results, Resolution::Tag)
            + count_spec(results, Resolution::Parent) + count_spec(results, Resolution::Unresolved)
            == all_pages(results).len(),
{
    lemma_counts_sum(results, all_pages(results), all_titles(results), all_pages(results).len() as int);
}

/// How many of the first `k` pages are listed.
pub open spec fn listed_count(refs: Seq<(int, Seq<char>)>, k: int) -> nat
    decreases k,
{
    if k <= 0 {
        0
    } else {
        listed_count(refs, k - 1) + if listed(refs[k - 1].1) {
            1nat
        } else {
            0nat
        }
    }
}

proof fn lemma_labels_count(
    results: Seq<Json>,
    refs: Seq<(int, Seq<char>)>,
    titles: Map<Seq<char>, Seq<char>>,
    k: int,
)
    requires
        k >= 0,
    ensures
        labels_upto(results, refs, titles, k).len() == listed_count(refs, k),
        listed_count(refs, k) <= k,
    decreases k,
{
    if k > 0 {
        lemma_labels_count(results, refs, titles, k - 1);
    }
}

/// The listing has one line per listed page, so never more lines than pages.
pub proof fn law_one_line_per_listed_page(results: Seq<Json>)
    ensures
        listing_spec(results).len() == listed_count(all_pages(results), all_pages(results).len() as int),
        listing_spec(results).len() <= all_pages(results).len(),
{
    lemma_labels_count(results, all_pages(results), all_titles(results), all_pages(results).len() as int);
}

/// The listing line of page `k` of `refs`.
pub open spec fn line_of_page(
    results: Seq<Json>,
    refs: Seq<(int, Seq<char>)>,
    titles: Map<Seq<char>, Seq<char>>,
    k: int,
) -> Seq<char> {
    label_spec(category_spec(results[refs[k].0], titles).0, refs[k].1)
}

/// `line` is the listing line of one of the first `k` pages, and that page
/// is listed.
pub open spec fn line_of_listed_page(
    results: Seq<Json>,
    refs: Seq<(int, Seq<char>)>,
    titles: Map<Seq<char>, Seq<char>>,
    k: int,
    line: Seq<char>,
) -> bool {
    exists|j: int|
        0 <= j < k && listed(refs[j].1) && #[trigger] line_of_page(results, refs, titles, j) == line
}

proof fn lemma_lines_from_pages(
    results: Seq<Json>,
    refs: Seq<(int, Seq<char>)>,
    titles: Map<Seq<char>, Seq<char>>,
    k: int,
)
    requires
        k >= 0,
    ensures
        forall|i: int|
            0 <= i < labels_upto(results, refs, titles, k).len() ==> line_of_listed_page(
                results,
                refs,
                titles,
                k,
                #[trigger] labels_upto(results, refs, titles, k)[i],
            ),
    decreases k,
{
    if k > 0 {
        lemma_lines_from_pages(results, refs, titles, k - 1);
        let prev = labels_upto(results, refs, titles, k - 1);
        let cur = labels_upto(results, refs, titles, k);
        assert forall|i: int| 0 <= i < cur.len() implies line_of_listed_page(
            results,
            refs,
            titles,
            k,
            #[trigger] cur[i],
        ) by {
            if i < prev.len() {
                assert(cur[i] == prev[i]);
                assert(line_of_listed_page(results, refs, titles, k - 1, prev[i]));
                let j = choose|j: int|
                    0 <= j < k - 1 && listed(refs[j].1) && #[trigger] line_of_page(
                        results,
                        refs,
                        titles,
                        j,
                    ) == prev[i];
                assert(line_of_page(results, refs, titles, j) == cur[i]);
            } else {
                assert(line_of_page(results, refs, titles, k - 1) == cur[i]);
            }
        }
    }
}

/// Every line of the listing is `[category] title` of some page whose title
/// is listed: no `To-do` page and no page mentioning `Study Space` appears.
pub proof fn law_lines_come_from_listed_pages(results: Seq<Json>)
    ensures
        forall|i: int|
            0 <= i < listing_spec(results).len() ==> line_of_listed_page(
                results,
                all_pages(results),
                all_titles(results),
                all_pages(results).len() as int,
                #[trigger] listing_spec(results)[i],
            ),
{
    lemma_lines_from_pages(
        results,
        all_pages(results),
        all_titles(results),
        all_pages(results).len() as int,
    );
}

/// How the pages of a search were categorised.
pub struct CategoryStats {
    pub via_relation: usize,
    pub via_tag: usize,
    pub via_parent: usize,
    pub unresolved: usize,
    pub pages: usize,
}

/// The sorted listing of a search, with its statistics.
pub struct CategorizedPages {
    pub labels: Vec<String>,
    pub stats: CategoryStats,
}

/// Files every page of a search under a category and lists the pages as
/// `[category] title`, sorted.
pub fn categorize_pages(results: &Vec<Json>) -> (r: CategorizedPages)
    ensures
        texts(r.labels@).to_multiset() == listing_spec(results@).to_multiset(),
        sorted_texts(texts(r.labels@)),
        r.stats.via_relation == count_spec(results@, Resolution::Relation),
        r.stats.via_tag == count_spec(results@, Resolution::Tag),
        r.stats.via_parent == count_spec(results@, Resolution::Parent),
        r.stats.unresolved == count_spec(results@, Resolution::Unresolved),
        r.stats.pages == all_pages(results@).len(),
{
    let collected = collect_titles(results);
    let titles = &collected.titles;
    let pages = &collected.pages;
    let ghost refs = all_pages(results@);
    let ghost tmap = all_titles(results@);
    let mut labels: Vec<String> = Vec::new();
    let mut via_relation: usize = 0;
    let mut via_tag: usize = 0;
    let mut via_parent: usize = 0;
    let mut unresolved: usize = 0;
    let mut k: usize = 0;
    while k < pages.len()
        invariant
            k <= pages@.len(),
            titles@ == tmap,
            ref_views(pages@) == refs,
            forall|j: int| 0 <= j < pages@.len() ==> (#[trigger] pages@[j]).index < results@.len(),
            texts(labels@) == labels_upto(results@, refs, tmap, k as int),
            via_relation == resolution_count(results@, refs, tmap, k as int, Resolution::Relation),
            via_tag == resolution_count(results@, refs, tmap, k as int, Resolution::Tag),
            via_parent == resolution_count(results@, refs, tmap, k as int, Resolution::Parent),
            unresolved == resolution_count(
                results@,
                refs,
                tmap,
                k as int,
                Resolution::Unresolved,
            ),
            via_relation + via_tag + via_parent + unresolved == k,
        decreases pages@.len() - k,
    {
        let entry = &pages[k];
        proof {
            assert(ref_views(pages@)[k as int] == (entry.index as int, entry.title@));
        }
        let (category, how) = page_category(&results[entry.index], titles);
        match how {
            Resolution::Relation => {
                via_relation = via_relation + 1;
            },
            Resolution::Tag => {
                via_tag = via_tag + 1;
            },
            Resolution::Parent => {
                via_parent = via_parent + 1;
            },
            Resolution::Unresolved => {
                unresolved = unresolved + 1;
            },
        }
        let title = entry.title.as_str();
        if !str_eq(title, "To-do") && !str_contains(title, "Study Space") {
            let mut line = "[".to_owned();
            line.append(category.as_str());
            line.append("] ");
            line.append(title);
            let ghost before = labels@;
            labels.push(line);
            assert(texts(labels@) =~= texts(before).push(line@));
        }
        k = k + 1;
    }
    let count = pages.len();
    sort_strings(&mut labels);
    CategorizedPages {
        labels,
        stats: CategoryStats { via_relation, via_tag, via_parent, unresolved, pages: count },
    }
}

/// The elements of the `results` array of a search response; none where it
/// has no such array.
pub open spec fn page_results(page: Json) -> Seq<Json> {
    match page.at("results"@).array_of() {
        Some(a) => a,
        None => Seq::empty(),
    }
}

/// The body of a search request: a page size of one hundred, and the cursor
/// where there is one.
pub open spec fn is_search_body(body: Json, cursor: Option<Seq<char>>) -> bool {
    match body.object_of() {
        Some(members) => {
            &&& members.len() == if cursor is Some {
                2int
            } else {
                1int
            }
            &&& members[0].key@ == "page_size"@
            &&& members[0].value == Json::Number(JsonNumber::Unsigned(100))
            &&& cursor matches Some(c) ==> members[1].key@ == "start_cursor"@
                && members[1].value.str_of() == Some(c)
        },
        None => false,
    }
}

/// Progress through the pages of a Notion search: the results so far, the
/// cursor of the next page, and whether the last page has come.
pub struct SearchPaging {
    pub results: Vec<Json>,
    pub cursor: Option<String>,
    pub finished: bool,
}

impl SearchPaging {
    /// Before the first request.
    pub fn new() -> (r: SearchPaging)
        ensures
            r.results@.len() == 0,
            r.cursor is None,
            !r.finished,
    {
        SearchPaging { results: Vec::new(), cursor: None, finished: false }
    }

    /// The body of the next search request.
    pub fn request_body(&self) -> (r: Json)
        ensures
            is_search_body(r, opt_text(self.cursor)),
    {
        let mut members: Vec<JsonMember> = Vec::new();
        members.push(
            JsonMember {
                key: "page_size".to_owned(),
                value: Json::Number(JsonNumber::Unsigned(100)),
            },
        );
        match &self.cursor {
            Some(c) => {
                members.push(JsonMember { key: "start_cursor".to_owned(), value: Json::Str(c.clone()) });
            },
            None => {},
        }
        Json::Object(members)
    }

    /// The next search request: a `POST` of the request body to Notion's
    /// search endpoint.
    pub fn next_request(&self) -> (r: JsonRequest)
        ensures
            r.method == HttpMethod::Post,
            r.url@ == "https://api.notion.com/v1/search"@,
            is_search_body(r.body, opt_text(self.cursor)),
    {
        JsonRequest {
            method: HttpMethod::Post,
            url: "https://api.notion.com/v1/search".to_owned(),
            body: self.request_body(),
        }
    }

    /// Takes in one search response: its results are added; another page
    /// follows only where `has_more` is `true`, from `next_cursor`.
    pub fn record_page(&mut self, page: Json)
        ensures
            final(self).results@ == old(self).results@ + page_results(page),
            final(self).finished == (page.at("has_more"@).bool_of() != Some(true)),
            !final(self).finished ==> opt_text(final(self).cursor) == page.at(
                "next_cursor"@,
            ).str_of(),
            final(self).finished ==> final(self).cursor == old(self).cursor,
    {
        let more = match page.get("has_more") {
            Some(v) => match v.as_bool() {
                Some(b) => b,
                None => false,
            },
            None => false,
        };
        let next = match page.str_at("next_cursor") {
            Some(c) => Some(c.clone()),
            None => None,
        };
        let ghost whole = page;
        let found = page.take("results");
        match found {
            Json::Array(items) => {
                let mut items = items;
                let ghost before = self.results@;
                self.results.append(&mut items);
                assert(self.results@ =~= before + page_results(whole));
            },
            _ => {
                assert(self.results@ =~= self.results@ + page_results(whole));
            },
        }
        if more {
            self.cursor = next;
        }
        self.finished = !more;
    }
}

/// The properties of a page result (meaningful where it has an object of
/// them).
pub open spec fn props_of(item: Json) -> Seq<JsonMember> {
    item.at("properties"@).object_of()->0
}

proof fn lemma_relation_skip(
    props: Seq<JsonMember>,
    titles: Map<Seq<char>, Seq<char>>,
    j: int,
    i: int,
)
    requires
        0 <= j <= i < props.len(),
        forall|k: int| 0 <= k < i ==> !(#[trigger] props[k].value.at("type"@).is_text("relation"@)),
    ensures
        relation_from(props, titles, j) == relation_from(props, titles, i),
    decreases i - j,
{
    if j < i {
        lemma_relation_skip(props, titles, j + 1, i);
    }
}

/// A page whose first relation property has a known first related id is
/// filed under that id's title, whatever ids follow it in the relation and
/// whatever tags or parent the page has.
pub proof fn law_relation_category_is_first_related(
    page: Json,
    titles: Map<Seq<char>, Seq<char>>,
    i: int,
)
    requires
        page.at("properties"@).object_of() is Some,
        0 <= i < props_of(page).len(),
        props_of(page)[i].value.at("type"@).is_text("relation"@),
        forall|k: int|
            0 <= k < i ==> !(#[trigger] props_of(page)[k].value.at("type"@).is_text(
                "relation"@,
            )),
        props_of(page)[i].value.at("relation"@).array_of() is Some,
        props_of(page)[i].value.at("relation"@).array_of()->0.len() > 0,
        props_of(page)[i].value.at("relation"@).array_of()->0[0].at("id"@).str_of() is Some,
        titles.contains_key(
            props_of(page)[i].value.at("relation"@).array_of()->0[0].at("id"@).str_of()->0,
        ),
    ensures
        category_spec(page, titles) == (
            titles[props_of(page)[i].value.at("relation"@).array_of()->0[0].at(
                "id"@,
            ).str_of()->0],
            Resolution::Relation,
        ),
{
    lemma_relation_skip(props_of(page), titles, 0, i);
}

proof fn lemma_title_skip(props: Seq<JsonMember>, j: int, i: int)
    requires
        0 <= j <= i < props.len(),
        forall|k: int| 0 <= k < i ==> !(#[trigger] props[k].value.at("type"@).is_text("title"@)),
    ensures
        title_from(props, j) == title_from(props, i),
    decreases i - j,
{
    if j < i {
        lemma_title_skip(props, j + 1, i);
    }
}

proof fn lemma_title_none(props: Seq<JsonMember>, j: int)
    requires
        0 <= j,
        forall|k: int|
            0 <= k < props.len() ==> !(#[trigger] props[k].value.at("type"@).is_text("title"@)),
    ensures
        title_from(props, j) is None,
    decreases props.len() - j,
{
    if j < props.len() {
        lemma_title_none(props, j + 1);
    }
}

/// A page is titled by the `plain_text` of the first segment of its first
/// property of type `title`, whatever segments follow.
pub proof fn law_page_title_is_first_segment(item: Json, i: int)
    requires
        item.at("properties"@).object_of() is Some,
        0 <= i < props_of(item).len(),
        props_of(item)[i].value.at("type"@).is_text("title"@),
        forall|k: int|
            0 <= k < i ==> !(#[trigger] props_of(item)[k].value.at("type"@).is_text("title"@)),
        props_of(item)[i].value.at("title"@).array_of() is Some,
        props_of(item)[i].value.at("title"@).array_of()->0.len() > 0,
        props_of(item)[i].value.at("title"@).array_of()->0[0].at("plain_text"@).str_of() is Some,
    ensures
        page_title(item) == props_of(item)[i].value.at("title"@).array_of()->0[0].at(
            "plain_text"@,
        ).str_of()->0,
{
    lemma_title_skip(props_of(item), 0, i);
}

/// A page without any property of type `title`, or without properties, is
/// titled `Unbenannt`.
pub proof fn law_untitled_page(item: Json)
    requires
        item.at("properties"@).object_of() is Some ==> forall|k: int|
            0 <= k < props_of(item).len() ==> !(#[trigger] props_of(item)[k].value.at(
                "type"@,
            ).is_text("title"@)),
    ensures
        page_title(item) == "Unbenannt"@,
{
    if item.at("properties"@).object_of() is Some {
        lemma_title_none(props_of(item), 0);
    }
}

/// A database is titled by the `plain_text` of the first segment of its
/// title, whatever segments follow, and `Unbenannt` without one.
pub proof fn law_database_title_is_first_segment(item: Json)
    ensures
        item.at("title"@).array_of() is Some && item.at("title"@).array_of()->0.len() > 0
            && item.at("title"@).array_of()->0[0].at("plain_text"@).str_of() is Some
            ==> database_title(item) == item.at("title"@).array_of()->0[0].at(
            "plain_text"@,
        ).str_of()->0,
        item.at("title"@).array_of() is None ==> database_title(item) == "Unbenannt"@,
        item.at("title"@).array_of() matches Some(a) && a.len() == 0 ==> database_title(item)
            == "Unbenannt"@,
{
}

/// A page title that the listing keeps: not `To-do`, not mentioning
/// `Study Space`.
pub open spec fn kept_title(title: Seq<char>) -> bool {
    title != "To-do"@ && !contains_spec(title, "Study Space"@)
}

/// How many of the first `k` pages have a kept title.
pub open spec fn kept_count(refs: Seq<(int, Seq<char>)>, k: int) -> nat
    decreases k,
{
    if k <= 0 {
        0
    } else {
        kept_count(refs, k - 1) + if kept_title(refs[k - 1].1) {
            1nat
        } else {
            0nat
        }
    }
}

proof fn lemma_kept_lines(
    results: Seq<Json>,
    refs: Seq<(int, Seq<char>)>,
    titles: Map<Seq<char>, Seq<char>>,
    k: int,
)
    requires
        k >= 0,
    ensures
        labels_upto(results, refs, titles, k).len() == kept_count(refs, k),
        forall|j: int|
            0 <= j < k && kept_title(#[trigger] refs[j].1) ==> labels_upto(
                results,
                refs,
                titles,
                k,
            ).contains("["@ + category_spec(results[refs[j].0], titles).0 + "] "@ + refs[j].1),
    decreases k,
{
    if k > 0 {
        lemma_kept_lines(results, refs, titles, k - 1);
        let prev = labels_upto(results, refs, titles, k - 1);
        let cur = labels_upto(results, refs, titles, k);
        assert(listed(refs[k - 1].1) == kept_title(refs[k - 1].1));
        assert forall|j: int| 0 <= j < k && kept_title(#[trigger] refs[j].1) implies cur.contains(
            "["@ + category_spec(results[refs[j].0], titles).0 + "] "@ + refs[j].1,
        ) by {
            let line = "["@ + category_spec(results[refs[j].0], titles).0 + "] "@ + refs[j].1;
            if j < k - 1 {
                let w = choose|w: int| 0 <= w < prev.len() && prev[w] == line;
                if listed(refs[k - 1].1) {
                    assert(cur[w] == prev[w]);
                }
                assert(cur[w] == line);
            } else {
                assert(cur[cur.len() - 1] == line);
            }
        }
    }
}

/// Every page whose title is not `To-do` and does not mention `Study Space`
/// has its line `[category] title` in the listing, and the listing has
/// exactly as many lines as there are such pages.
pub proof fn law_every_kept_page_is_listed(results: Seq<Json>)
    ensures
        listing_spec(results).len() == kept_count(all_pages(results), all_pages(results).len() as int),
        forall|k: int|
            0 <= k < all_pages(results).len() && kept_title(#[trigger] all_pages(results)[k].1)
                ==> listing_spec(results).contains(
                "["@ + category_spec(results[all_pages(results)[k].0], all_titles(results)).0
                    + "] "@ + all_pages(results)[k].1,
            ),
{
    lemma_kept_lines(
        results,
        all_pages(results),
        all_titles(results),
        all_pages(results).len() as int,
    );
}

/// How many of the first `n` results are pages (and not databases).
pub open spec fn page_result_count(results: Seq<Json>, n: int) -> nat
    decreases n,
{
    if n <= 0 {
        0
    } else {
        page_result_count(results, n - 1) + if !results[n - 1].at("object"@).is_text(
            "database"@,
        ) && results[n - 1].at("object"@).is_text("page"@) {
            1nat
        } else {
            0nat
        }
    }
}

proof fn lemma_page_refs(results: Seq<Json>, n: int)
    requires
        0 <= n <= results.len(),
    ensures
        page_refs(results, n).len() == page_result_count(results, n),
        forall|m: int|
            0 <= m < n && !results[m].at("object"@).is_text("database"@) && (#[trigger] results[m]).at(
                "object"@,
            ).is_text("page"@) ==> page_refs(results, n).contains((m, page_title(results[m]))),
    decreases n,
{
    if n > 0 {
        lemma_page_refs(results, n - 1);
        let prev = page_refs(results, n - 1);
        let cur = page_refs(results, n);
        assert forall|m: int|
            0 <= m < n && !results[m].at("object"@).is_text("database"@) && (#[trigger] results[m]).at(
                "object"@,
            ).is_text("page"@) implies cur.contains((m, page_title(results[m]))) by {
            if m < n - 1 {
                let w = choose|w: int| 0 <= w < prev.len() && prev[w] == (m, page_title(results[m]));
                assert(cur[w] == prev[w]);
            } else {
                assert(cur[cur.len() - 1] == (m, page_title(results[m])));
            }
        }
    }
}

/// Every page result, untitled or not, is among the pages of a search with
/// its title, and there are exactly as many pages as page results.
pub proof fn law_every_page_result_is_a_page(results: Seq<Json>)
    ensures
        all_pages(results).len() == page_result_count(results, results.len() as int),
        forall|m: int|
            0 <= m < results.len() && !results[m].at("object"@).is_text("database"@)
                && (#[trigger] results[m]).at("object"@).is_text("page"@) ==> all_pages(
                results,
            ).contains((m, page_title(results[m]))),
{
    lemma_page_refs(results, results.len() as int);
}

/// A property carries no tag value: it is neither a non-empty
/// `multi_select` whose first item has a name nor a `select` with a name.
pub open spec fn no_tag_value(v: Json) -> bool {
    &&& v.at("type"@).is_text("multi_select"@) ==> !(v.at("multi_select"@).array_of() matches Some(
        a,
    ) && a.len() > 0 && a[0].at("name"@).str_of() is Some)
    &&& v.at("type"@).is_text("select"@) ==> v.at("select"@).at("name"@).str_of() is None
}

proof fn lemma_tag_skip(props: Seq<JsonMember>, j: int, i: int)
    requires
        0 <= j <= i <= props.len(),
        forall|k: int| 0 <= k < i ==> no_tag_value(#[trigger] props[k].value),
    ensures
        tag_from(props, j) == tag_from(props, i),
    decreases i - j,
{
    if j < i {
        lemma_tag_skip(props, j + 1, i);
    }
}

/// The tag of a page is the first item's name of the first non-empty
/// `multi_select`, or the name of the first `select`, whichever property
/// comes first; properties before it that carry no such value are passed
/// over, whatever they hold.
pub proof fn law_tag_is_first_tag_value(page: Json, i: int)
    requires
        page.at("properties"@).object_of() is Some,
        0 <= i < props_of(page).len(),
        forall|k: int| 0 <= k < i ==> no_tag_value(#[trigger] props_of(page)[k].value),
    ensures
        props_of(page)[i].value.at("type"@).is_text("multi_select"@)
            && props_of(page)[i].value.at("multi_select"@).array_of() is Some
            && props_of(page)[i].value.at("multi_select"@).array_of()->0.len() > 0
            && props_of(page)[i].value.at("multi_select"@).array_of()->0[0].at("name"@).str_of() is Some
            ==> tag_target_spec(page) == props_of(page)[i].value.at("multi_select"@).array_of()->0[0].at(
            "name"@,
        ).str_of(),
        props_of(page)[i].value.at("type"@).is_text("select"@)
            && props_of(page)[i].value.at("select"@).at("name"@).str_of() is Some
            ==> tag_target_spec(page) == props_of(page)[i].value.at("select"@).at("name"@).str_of(),
{
    lemma_tag_skip(props_of(page), 0, i);
    reveal_strlit("select");
    reveal_strlit("multi_select");
    assert("select"@.len() != "multi_select"@.len());
}

/// A page none of whose properties carries a tag value has no tag.
pub proof fn law_no_tag_without_tag_value(page: Json)
    requires
        page.at("properties"@).object_of() is Some,
        forall|k: int| 0 <= k < props_of(page).len() ==> no_tag_value(#[trigger] props_of(page)[k].value),
    ensures
        tag_target_spec(page) is None,
{
    lemma_tag_skip(props_of(page), 0, props_of(page).len() as int);
}

/// A page or database inside a page names that page's id as its parent, one
/// inside a database names the database's id; any other parent names none.
pub proof fn law_parent_id(item: Json)
    ensures
        item.at("parent"@).at("type"@).is_text("page_id"@) ==> parent_id_spec(item) == item.at(
            "parent"@,
        ).at("page_id"@).str_of(),
        item.at("parent"@).at("type"@).is_text("database_id"@) ==> parent_id_spec(item)
            == item.at("parent"@).at("database_id"@).str_of(),
        !item.at("parent"@).at("type"@).is_text("page_id"@) && !item.at("parent"@).at(
            "type"@,
        ).is_text("database_id"@) ==> parent_id_spec(item) is None,
{
    reveal_strlit("page_id");
    reveal_strlit("database_id");
    assert("page_id"@.len() != "database_id"@.len());
}

proof fn lemma_no_relation(props: Seq<JsonMember>, titles: Map<Seq<char>, Seq<char>>, j: int)
    requires
        0 <= j,
        forall|k: int|
            0 <= k < props.len() ==> !(#[trigger] props[k].value.at("type"@).is_text("relation"@)),
    ensures
        relation_from(props, titles, j) is None,
    decreases props.len() - j,
{
    if j < props.len() {
        lemma_no_relation(props, titles, j + 1);
    }
}

/// A page without relation properties takes a tag as its category where it
/// has one; with neither, it goes under its parent's title where that is
/// known, and under `Allgemein` otherwise.
pub proof fn law_tag_then_parent_then_fallback(page: Json, titles: Map<Seq<char>, Seq<char>>)
    requires
        page.at("properties"@).object_of() is Some ==> forall|k: int|
            0 <= k < props_of(page).len() ==> !(#[trigger] props_of(page)[k].value.at(
                "type"@,
            ).is_text("relation"@)),
    ensures
        tag_target_spec(page) matches Some(t) ==> category_spec(page, titles) == (
            t,
            Resolution::Tag,
        ),
        tag_target_spec(page) is None && parent_id_spec(page) is Some && titles.contains_key(
            parent_id_spec(page)->0,
        ) ==> category_spec(page, titles) == (
            titles[parent_id_spec(page)->0],
            Resolution::Parent,
        ),
        tag_target_spec(page) is None && !(parent_id_spec(page) is Some && titles.contains_key(
            parent_id_spec(page)->0,
        )) ==> category_spec(page, titles) == (
            "Allgemein"@,
            Resolution::Unresolved,
        ),
{
    if page.at("properties"@).object_of() is Some {
        lemma_no_relation(props_of(page), titles, 0);
    }
}

/// A search result that enters the title table: a page or a database.
pub open spec fn is_titled_result(item: Json) -> bool {
    item.at("object"@).is_text("database"@) || item.at("object"@).is_text("page"@)
}

/// The title a page or database result enters the table with.
pub open spec fn result_title(item: Json) -> Seq<char> {
    if item.at("object"@).is_text("database"@) {
        database_title(item)
    } else {
        page_title(item)
    }
}

proof fn lemma_title_map_last(results: Seq<Json>, m: int, n: int)
    requires
        0 <= m < n <= results.len(),
        is_titled_result(results[m]),
        forall|k: int|
            m < k < n && is_titled_result(#[trigger] results[k]) ==> item_id(results[k]) != item_id(
                results[m],
            ),
    ensures
        title_map(results, n).contains_key(item_id(results[m])),
        title_map(results, n)[item_id(results[m])] == result_title(results[m]),
    decreases n - m,
{
    if n > m + 1 {
        lemma_title_map_last(results, m, n - 1);
    }
}

/// Each page and database enters the title table under its id (empty where
/// it has none) with its title; where several results share an id, the last
/// of them decides.
pub proof fn law_last_result_names_the_id(results: Seq<Json>, m: int)
    requires
        0 <= m < results.len(),
        is_titled_result(results[m]),
        forall|k: int|
            m < k < results.len() && is_titled_result(#[trigger] results[k]) ==> item_id(results[k])
                != item_id(results[m]),
    ensures
        all_titles(results).contains_key(item_id(results[m])),
        all_titles(results)[item_id(results[m])] == result_title(results[m]),
        item_id(results[m]) == (match results[m].at("id"@).str_of() {
            Some(s) => s,
            None => Seq::empty(),
        }),
{
    lemma_title_map_last(results, m, results.len() as int);
}

/// Only pages and databases enter the title table: an id is in it only if
/// some page or database result has that id.
pub proof fn law_title_table_holds_only_results(results: Seq<Json>, id: Seq<char>)
    ensures
        all_titles(results).contains_key(id) ==> exists|m: int|
            0 <= m < results.len() && is_titled_result(#[trigger] results[m]) && item_id(results[m])
                == id,
{
    lemma_title_map_origin(results, id, results.len() as int);
}

proof fn lemma_title_map_origin(results: Seq<Json>, id: Seq<char>, n: int)
    requires
        0 <= n <= results.len(),
    ensures
        title_map(results, n).contains_key(id) ==> exists|m: int|
            0 <= m < n && is_titled_result(#[trigger] results[m]) && item_id(results[m]) == id,
    decreases n,
{
    if n > 0 {
        lemma_title_map_origin(results, id, n - 1);
        if title_map(results, n).contains_key(id) && !title_map(results, n - 1).contains_key(id) {
            assert(is_titled_result(results[n - 1]) && item_id(results[n - 1]) == id);
        }
    }
}

} // verus!
