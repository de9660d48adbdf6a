use zerosemester::json::{Json, JsonMember};
use zerosemester::notion::categorize_pages;
use zerosemester::paperless::{lookup_tag, plan_upload, PaperlessConfig, PaperlessTag, TagLookup};
use zerosemester::text::{decimal, str_eq};

fn s(text: &str) -> Json {
    Json::Str(text.to_string())
}

fn obj(members: Vec<(&str, Json)>) -> Json {
    Json::Object(
        members
            .into_iter()
            .map(|(k, v)| JsonMember { key: k.to_string(), value: v })
            .collect(),
    )
}

fn titled_page(title: &str, tag: &str) -> Json {
    obj(vec![
        ("object", s("page")),
        ("id", s(title)),
        (
            "properties",
            obj(vec![
                ("Fach", obj(vec![("type", s("select")), ("select", obj(vec![("name", s(tag))]))])),
                (
                    "Name",
                    obj(vec![
                        ("type", s("title")),
                        ("title", Json::Array(vec![obj(vec![("plain_text", s(title))])])),
                    ]),
                ),
            ]),
        ),
    ])
}

fn created_name(raw: &str, tags: &Vec<PaperlessTag>) -> Option<String> {
    match lookup_tag(raw, tags) {
        Ok(TagLookup::Create(name)) => Some(name),
        _ => None,
    }
}

#[test]
fn str_eq_compares_chars() {
    assert!(str_eq("abc", "abc"));
    assert!(!str_eq("abc", "abd"));
    assert!(!str_eq("abc", "ab"));
    assert!(str_eq("", ""));
    assert!(str_eq("Grüße", "Grüße"));
}

#[test]
fn decimal_writes_numbers() {
    assert_eq!(decimal(0), "0");
    assert_eq!(decimal(7), "7");
    assert_eq!(decimal(10), "10");
    assert_eq!(decimal(1234567890), "1234567890");
    assert_eq!(decimal(u64::MAX), u64::MAX.to_string());
}

#[test]
fn tag_names_lose_unicode_white_space() {
    let none = vec![];
    assert_eq!(created_name("  \t Mathe \n", &none).as_deref(), Some("Mathe"));
    assert_eq!(created_name("\u{3000}x y\u{2028}", &none).as_deref(), Some("x y"));
    assert_eq!(created_name("a", &none).as_deref(), Some("a"));
}

#[test]
fn trimming_a_trimmed_name_changes_nothing() {
    let none = vec![];
    for raw in ["  a b  ", "\u{a0}\u{a0}x", " \nplain\t"] {
        let once = created_name(raw, &none).unwrap();
        assert_eq!(created_name(&once, &none).unwrap(), once);
    }
}

#[test]
fn trailing_slashes_leave_the_server_address() {
    let config = PaperlessConfig { url: "http://host:8000///".to_string(), ..PaperlessConfig::default() };
    let plan = plan_upload(&config, None, "t", &[]);
    assert_eq!(plan.url, "http://host:8000/api/documents/post_document/");
}

#[test]
fn tag_case_is_ignored_only_for_ascii() {
    let tags = vec![PaperlessTag { id: 9, name: "Äpfel".to_string() }];
    assert!(matches!(lookup_tag("ÄPFEL", &tags), Ok(TagLookup::Found(9))));
    assert_eq!(created_name("äpfel", &tags).as_deref(), Some("äpfel"));
    assert_eq!(created_name("Äpfe", &tags).as_deref(), Some("Äpfe"));
}

#[test]
fn study_space_filter_is_case_sensitive() {
    let results = vec![titled_page("Study space", "A"), titled_page("My Study Space 2023", "A")];
    let out = categorize_pages(&results);
    assert_eq!(out.labels, vec!["[A] Study space".to_string()]);
}

#[test]
fn listing_sorts_by_bytes() {
    let results = vec![
        titled_page("x", "b"),
        titled_page("y", "Ä"),
        titled_page("z", "a"),
        titled_page("w", "Z"),
        titled_page("v", "ab"),
    ];
    let out = categorize_pages(&results);
    assert_eq!(out.labels, vec!["[Z] w", "[a] z", "[ab] v", "[b] x", "[Ä] y"]);
}
