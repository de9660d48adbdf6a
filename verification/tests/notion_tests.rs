use zerosemester::http::HttpMethod;
use zerosemester::json::{Json, JsonMember, JsonNumber};
use zerosemester::notion::{
    categorize_pages, collect_titles, extract_title, page_category, parent_id, relation_target,
    tag_target, Resolution, SearchPaging,
};
use zerosemester::title_index::TitleIndex;

fn s(text: &str) -> Json {
    Json::Str(text.to_string())
}

fn obj(members: Vec<(&str, Json)>) -> Json {
    Json::Object(
        members
            .into_iter()
            .map(|(k, v)| JsonMember { key: k.to_string(), value: v })
            .collect(),
    )
}

fn members(v: Json) -> Vec<JsonMember> {
    match v {
        Json::Object(m) => m,
        _ => panic!("not an object"),
    }
}

fn rich(text: &str) -> Json {
    Json::Array(vec![obj(vec![("plain_text", s(text))])])
}

fn title_prop(text: &str) -> Json {
    obj(vec![("type", s("title")), ("title", rich(text))])
}

fn relation_prop(ids: &[&str]) -> Json {
    obj(vec![
        ("type", s("relation")),
        ("relation", Json::Array(ids.iter().map(|i| obj(vec![("id", s(i))])).collect())),
    ])
}

fn select_prop(name: &str) -> Json {
    obj(vec![("type", s("select")), ("select", obj(vec![("name", s(name))]))])
}

fn multi_select_prop(names: &[&str]) -> Json {
    obj(vec![
        ("type", s("multi_select")),
        ("multi_select", Json::Array(names.iter().map(|n| obj(vec![("name", s(n))])).collect())),
    ])
}

fn page(id: &str, props: Vec<(&str, Json)>, parent: Json) -> Json {
    obj(vec![("object", s("page")), ("id", s(id)), ("properties", obj(props)), ("parent", parent)])
}

fn database(id: &str, title: &str) -> Json {
    obj(vec![("object", s("database")), ("id", s(id)), ("title", rich(title))])
}

fn parent_page(id: &str) -> Json {
    obj(vec![("type", s("page_id")), ("page_id", s(id))])
}

fn parent_db(id: &str) -> Json {
    obj(vec![("type", s("database_id")), ("database_id", s(id))])
}

fn index(pairs: &[(&str, &str)]) -> TitleIndex {
    let mut t = TitleIndex::new();
    for (id, title) in pairs {
        t.insert(id.to_string(), title.to_string());
    }
    t
}

#[test]
fn extract_title_takes_first_title_property_with_text() {
    let props = members(obj(vec![
        ("Status", select_prop("Done")),
        ("Empty", obj(vec![("type", s("title")), ("title", Json::Array(vec![]))])),
        ("Name", title_prop("Algebra")),
        ("Other", title_prop("Later")),
    ]));
    assert_eq!(extract_title(&props), Some("Algebra".to_string()));
    let none = members(obj(vec![("Status", select_prop("Done"))]));
    assert_eq!(extract_title(&none), None);
}

#[test]
fn parent_id_reads_page_and_database_parents() {
    assert_eq!(parent_id(&obj(vec![("parent", parent_page("p1"))])), Some("p1".to_string()));
    assert_eq!(parent_id(&obj(vec![("parent", parent_db("d1"))])), Some("d1".to_string()));
    let workspace = obj(vec![("parent", obj(vec![("type", s("workspace")), ("workspace", Json::Bool(true))]))]);
    assert_eq!(parent_id(&workspace), None);
    assert_eq!(parent_id(&obj(vec![])), None);
    let no_id = obj(vec![("parent", obj(vec![("type", s("page_id"))]))]);
    assert_eq!(parent_id(&no_id), None);
}

#[test]
fn relation_target_uses_known_related_titles() {
    let titles = index(&[("known", "Mathe")]);
    let p = page("x", vec![("A", relation_prop(&["unknown"])), ("B", relation_prop(&["known"]))], Json::Null);
    assert_eq!(relation_target(&p, &titles), Some("Mathe".to_string()));
    let skip = page("x", vec![("A", select_prop("Tag")), ("B", relation_prop(&["known"]))], Json::Null);
    assert_eq!(relation_target(&skip, &titles), Some("Mathe".to_string()));
}

#[test]
fn relation_target_stops_at_empty_relation() {
    let titles = index(&[("known", "Mathe")]);
    let p = page("x", vec![("A", relation_prop(&[])), ("B", relation_prop(&["known"]))], Json::Null);
    assert_eq!(relation_target(&p, &titles), None);
    assert_eq!(relation_target(&obj(vec![("object", s("page"))]), &titles), None);
}

#[test]
fn tag_target_reads_selects() {
    let p = page("x", vec![("A", multi_select_prop(&[])), ("B", multi_select_prop(&["Physik", "Chemie"]))], Json::Null);
    assert_eq!(tag_target(&p), Some("Physik".to_string()));
    let q = page("x", vec![("A", title_prop("T")), ("B", select_prop("Bio"))], Json::Null);
    assert_eq!(tag_target(&q), Some("Bio".to_string()));
    let unset = page("x", vec![("B", obj(vec![("type", s("select")), ("select", Json::Null)]))], Json::Null);
    assert_eq!(tag_target(&unset), None);
}

#[test]
fn tag_target_passes_over_untyped_property() {
    let p = page("x", vec![("A", obj(vec![("id", s("q"))])), ("B", select_prop("Bio"))], Json::Null);
    assert_eq!(tag_target(&p), Some("Bio".to_string()));
}

#[test]
fn tag_target_passes_over_multi_select_without_array() {
    let broken = obj(vec![("type", s("multi_select")), ("multi_select", s("oops"))]);
    let nameless = multi_select_prop(&[]);
    let p = page("x", vec![("A", broken), ("B", nameless), ("C", select_prop("Bio"))], Json::Null);
    assert_eq!(tag_target(&p), Some("Bio".to_string()));
    let q = page("x", vec![("A", obj(vec![("type", Json::Bool(true))]))], Json::Null);
    assert_eq!(tag_target(&q), None);
}

#[test]
fn collect_titles_indexes_databases_and_pages() {
    let results = vec![
        database("db", "Kurse"),
        page("p1", vec![("Name", title_prop("Analysis"))], parent_db("db")),
        obj(vec![("object", s("block")), ("id", s("b"))]),
        page("p2", vec![], Json::Null),
        obj(vec![("object", s("database")), ("id", s("db2"))]),
    ];
    let c = collect_titles(&results);
    assert_eq!(c.titles.get("db").map(|t| t.as_str()), Some("Kurse"));
    assert_eq!(c.titles.get("p1").map(|t| t.as_str()), Some("Analysis"));
    assert_eq!(c.titles.get("p2").map(|t| t.as_str()), Some("Unbenannt"));
    assert_eq!(c.titles.get("db2").map(|t| t.as_str()), Some("Unbenannt"));
    assert_eq!(c.titles.get("b"), None);
    let pages: Vec<(usize, String)> = c.pages.iter().map(|p| (p.index, p.title.clone())).collect();
    assert_eq!(pages, vec![(1, "Analysis".to_string()), (3, "Unbenannt".to_string())]);
}

#[test]
fn page_category_prefers_relation_then_tag_then_parent() {
    let titles = index(&[("rel", "Relation"), ("par", "Parent")]);
    let all = page("x", vec![("S", select_prop("Tag")), ("R", relation_prop(&["rel"]))], parent_page("par"));
    assert_eq!(page_category(&all, &titles), ("Relation".to_string(), Resolution::Relation));
    let tag = page("x", vec![("S", select_prop("Tag"))], parent_page("par"));
    assert_eq!(page_category(&tag, &titles), ("Tag".to_string(), Resolution::Tag));
    let par = page("x", vec![], parent_page("par"));
    assert_eq!(page_category(&par, &titles), ("Parent".to_string(), Resolution::Parent));
    let lost = page("x", vec![], parent_page("missing"));
    assert_eq!(page_category(&lost, &titles), ("Allgemein".to_string(), Resolution::Unresolved));
    let none = page("x", vec![], Json::Null);
    assert_eq!(page_category(&none, &titles), ("Allgemein".to_string(), Resolution::Unresolved));
}

#[test]
fn categorize_pages_lists_sorted_and_filtered() {
    let results = vec![
        database("db", "Kurse"),
        page("p1", vec![("Name", title_prop("Zahlen"))], parent_db("db")),
        page("p2", vec![("Name", title_prop("To-do"))], parent_db("db")),
        page("p3", vec![("Name", title_prop("My Study Space"))], Json::Null),
        page("p4", vec![("Name", title_prop("Atome")), ("Fach", select_prop("Chemie"))], Json::Null),
        page("p5", vec![("Name", title_prop("Notizen")), ("Kurs", relation_prop(&["p1"]))], Json::Null),
        page("p6", vec![("Name", title_prop("Lose"))], parent_page("nowhere")),
    ];
    let out = categorize_pages(&results);
    assert_eq!(
        out.labels,
        vec![
            "[Allgemein] Lose".to_string(),
            "[Chemie] Atome".to_string(),
            "[Kurse] Zahlen".to_string(),
            "[Zahlen] Notizen".to_string(),
        ]
    );
    assert_eq!(out.stats.pages, 6);
    assert_eq!(out.stats.via_relation, 1);
    assert_eq!(out.stats.via_tag, 1);
    assert_eq!(out.stats.via_parent, 2);
    assert_eq!(out.stats.unresolved, 2);
    assert_eq!(
        out.stats.via_relation + out.stats.via_tag + out.stats.via_parent + out.stats.unresolved,
        out.stats.pages
    );
}

#[test]
fn categorize_pages_of_nothing_is_empty() {
    let out = categorize_pages(&vec![]);
    assert!(out.labels.is_empty());
    assert_eq!(out.stats.pages, 0);
}

#[test]
fn later_result_with_same_id_replaces_title() {
    let results = vec![
        database("same", "Erst"),
        database("same", "Zweit"),
        page("p", vec![("Name", title_prop("Seite"))], parent_db("same")),
    ];
    let out = categorize_pages(&results);
    assert_eq!(out.labels, vec!["[Zweit] Seite".to_string()]);
}

#[test]
fn search_paging_follows_cursors() {
    let mut paging = SearchPaging::new();
    assert!(!paging.finished);
    let first = paging.request_body();
    assert_eq!(first, obj(vec![("page_size", Json::Number(JsonNumber::Unsigned(100)))]));
    paging.record_page(obj(vec![
        ("results", Json::Array(vec![s("a"), s("b")])),
        ("has_more", Json::Bool(true)),
        ("next_cursor", s("c1")),
    ]));
    assert!(!paging.finished);
    assert_eq!(paging.cursor.as_deref(), Some("c1"));
    assert_eq!(
        paging.request_body(),
        obj(vec![("page_size", Json::Number(JsonNumber::Unsigned(100))), ("start_cursor", s("c1"))])
    );
    paging.record_page(obj(vec![("results", Json::Array(vec![s("c")])), ("has_more", Json::Bool(false))]));
    assert!(paging.finished);
    assert_eq!(paging.results, vec![s("a"), s("b"), s("c")]);
}

#[test]
fn search_paging_without_results_or_flag_finishes() {
    let mut paging = SearchPaging::new();
    paging.record_page(obj(vec![("object", s("error"))]));
    assert!(paging.finished);
    assert!(paging.results.is_empty());
}

#[test]
fn search_paging_more_without_cursor_restarts() {
    let mut paging = SearchPaging::new();
    paging.record_page(obj(vec![("has_more", Json::Bool(true)), ("next_cursor", s("c1"))]));
    paging.record_page(obj(vec![("has_more", Json::Bool(true)), ("next_cursor", Json::Null)]));
    assert!(!paging.finished);
    assert_eq!(paging.cursor, None);
}

#[test]
fn search_requests_post_to_the_search_endpoint() {
    let mut paging = SearchPaging::new();
    let first = paging.next_request();
    assert_eq!(first.method, HttpMethod::Post);
    assert_eq!(first.url, "https://api.notion.com/v1/search");
    assert_eq!(first.body, obj(vec![("page_size", Json::Number(JsonNumber::Unsigned(100)))]));
    paging.record_page(obj(vec![("has_more", Json::Bool(true)), ("next_cursor", s("k"))]));
    let second = paging.next_request();
    assert_eq!(second.url, "https://api.notion.com/v1/search");
    assert_eq!(
        second.body,
        obj(vec![("page_size", Json::Number(JsonNumber::Unsigned(100))), ("start_cursor", s("k"))])
    );
}
