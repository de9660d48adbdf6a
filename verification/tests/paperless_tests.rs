use zerosemester::http::HttpMethod;
use zerosemester::json::{Json, JsonMember, JsonNumber};
use zerosemester::paperless::{
    lookup_tag, plan_upload, record_created_tag, tag_creation_request, upload_result, HttpReply,
    MetadataFetch, MetadataPhase, PaperlessConfig, PaperlessError, PaperlessTag, TagLookup,
};

fn s(text: &str) -> Json {
    Json::Str(text.to_string())
}

fn n(v: u64) -> Json {
    Json::Number(JsonNumber::Unsigned(v))
}

fn obj(members: Vec<(&str, Json)>) -> Json {
    Json::Object(
        members
            .into_iter()
            .map(|(k, v)| JsonMember { key: k.to_string(), value: v })
            .collect(),
    )
}

fn tag(id: u64, name: &str) -> PaperlessTag {
    PaperlessTag { id, name: name.to_string() }
}

fn config(url: &str) -> PaperlessConfig {
    PaperlessConfig { url: url.to_string(), ..PaperlessConfig::default() }
}

#[test]
fn default_config_values() {
    let c = PaperlessConfig::default();
    assert_eq!(c.url, "http://localhost:8000");
    assert_eq!(c.token, "");
    assert!(c.auto_create_tags);
    assert!(c.add_base_tag);
    assert_eq!(c.base_tag_name, "Notion");
}

#[test]
fn stored_config_wins_over_default() {
    let stored = PaperlessConfig {
        url: "https://docs.example".to_string(),
        token: "t".to_string(),
        auto_create_tags: false,
        add_base_tag: false,
        base_tag_name: "X".to_string(),
    };
    let c = PaperlessConfig::from_stored(Some(stored));
    assert_eq!(c.url, "https://docs.example");
    assert!(!c.auto_create_tags);
    let d = PaperlessConfig::from_stored(None);
    assert_eq!(d.url, "http://localhost:8000");
    assert_eq!(d.base_tag_name, "Notion");
}

#[test]
fn metadata_fetch_pages_through_tags_then_documents() {
    let mut f = MetadataFetch::new(&config("http://paper:8000/"));
    assert_eq!(f.phase, MetadataPhase::Tags);
    assert_eq!(
        f.next_request(),
        Some((HttpMethod::Get, "http://paper:8000/api/tags/?page_size=1000".to_string()))
    );
    assert_eq!(f.next_url.as_deref(), Some("http://paper:8000/api/tags/?page_size=1000"));
    let page1 = obj(vec![
        ("next", s("http://paper:8000/api/tags/?page=2")),
        ("results", Json::Array(vec![
            obj(vec![("id", n(1)), ("name", s("Notion"))]),
            obj(vec![("id", s("bad")), ("name", s("skipped"))]),
        ])),
    ]);
    assert!(f.record(HttpReply::Success(page1)).is_ok());
    assert_eq!(f.phase, MetadataPhase::Tags);
    assert_eq!(f.next_url.as_deref(), Some("http://paper:8000/api/tags/?page=2"));
    let page2 = obj(vec![("next", Json::Null), ("results", Json::Array(vec![obj(vec![("id", n(2)), ("name", s("Mathe"))])]))]);
    assert!(f.record(HttpReply::Success(page2)).is_ok());
    assert_eq!(f.phase, MetadataPhase::Documents);
    assert_eq!(f.next_url.as_deref(), Some("http://paper:8000/api/documents/?page_size=1000"));
    let docs = obj(vec![("results", Json::Array(vec![
        obj(vec![("id", n(7)), ("title", s("Analysis")), ("original_file_name", s("analysis.pdf"))]),
        obj(vec![("id", n(8)), ("title", s("Bio"))]),
        obj(vec![("title", s("no id"))]),
    ]))]);
    assert!(f.record(HttpReply::Success(docs)).is_ok());
    assert_eq!(f.phase, MetadataPhase::Done);
    assert_eq!(f.next_url, None);
    assert_eq!(f.next_request(), None);
    let meta = f.finish();
    assert_eq!(meta.tags, vec![tag(1, "Notion"), tag(2, "Mathe")]);
    assert_eq!(meta.documents.len(), 2);
    assert_eq!(meta.documents[0].id, 7);
    assert_eq!(meta.documents[0].title, "Analysis");
    assert_eq!(meta.documents[0].original_file_name.as_deref(), Some("analysis.pdf"));
    assert_eq!(meta.documents[1].original_file_name, None);
}

#[test]
fn metadata_fetch_failures_name_the_listing() {
    let mut f = MetadataFetch::new(&config("http://paper"));
    match f.record(HttpReply::Failure { status: 401, body: "no".to_string() }) {
        Err(PaperlessError::FetchTags { status, body }) => {
            assert_eq!(status, 401);
            assert_eq!(body, "no");
        }
        other => panic!("unexpected {:?}", other),
    }
    assert_eq!(f.phase, MetadataPhase::Tags);
    f.record(HttpReply::Success(obj(vec![]))).unwrap();
    assert_eq!(f.phase, MetadataPhase::Documents);
    match f.record(HttpReply::Failure { status: 500, body: "boom".to_string() }) {
        Err(PaperlessError::FetchDocuments { status, .. }) => assert_eq!(status, 500),
        other => panic!("unexpected {:?}", other),
    }
}

#[test]
fn lookup_tag_rejects_blank_names() {
    assert!(matches!(lookup_tag("   ", &vec![]), Err(PaperlessError::EmptyTagName)));
    assert!(matches!(lookup_tag("", &vec![tag(1, "")]), Err(PaperlessError::EmptyTagName)));
}

#[test]
fn lookup_tag_matches_ignoring_case() {
    let tags = vec![tag(3, "Physik"), tag(4, "mathe"), tag(5, "MATHE")];
    assert!(matches!(lookup_tag("  Mathe ", &tags), Ok(TagLookup::Found(4))));
    match lookup_tag(" Chemie\t", &tags) {
        Ok(TagLookup::Create(name)) => assert_eq!(name, "Chemie"),
        _ => panic!("expected a tag to create"),
    }
}

#[test]
fn created_tag_is_found_next_time() {
    let mut tags = vec![tag(3, "Physik")];
    let name = match lookup_tag(" Chemie ", &tags) {
        Ok(TagLookup::Create(name)) => name,
        _ => panic!("expected a tag to create"),
    };
    let id = record_created_tag(&mut tags, name, HttpReply::Success(obj(vec![("id", n(42)), ("name", s("Chemie"))]))).unwrap();
    assert_eq!(id, 42);
    assert_eq!(tags, vec![tag(3, "Physik"), tag(42, "Chemie")]);
    assert!(matches!(lookup_tag("CHEMIE", &tags), Ok(TagLookup::Found(42))));
    assert!(matches!(lookup_tag(" chemie", &tags), Ok(TagLookup::Found(42))));
}

#[test]
fn tag_creation_errors_leave_tags_alone() {
    let mut tags = vec![tag(1, "A")];
    match record_created_tag(&mut tags, "B".to_string(), HttpReply::Success(obj(vec![("name", s("B"))]))) {
        Err(PaperlessError::MissingTagId { name }) => assert_eq!(name, "B"),
        other => panic!("unexpected {:?}", other),
    }
    match record_created_tag(&mut tags, "B".to_string(), HttpReply::Failure { status: 400, body: "dup".to_string() }) {
        Err(PaperlessError::CreateTag { name, status, body }) => {
            assert_eq!(name, "B");
            assert_eq!(status, 400);
            assert_eq!(body, "dup");
        }
        other => panic!("unexpected {:?}", other),
    }
    assert_eq!(tags, vec![tag(1, "A")]);
}

#[test]
fn tag_creation_request_shape() {
    let request = tag_creation_request(&config("http://paper:8000//"), "Chemie");
    assert_eq!(request.method, HttpMethod::Post);
    assert_eq!(request.url, "http://paper:8000/api/tags/");
    assert_eq!(request.body, obj(vec![("name", s("Chemie"))]));
}

#[test]
fn upload_plan_lists_title_and_tags() {
    let plan = plan_upload(&config("https://p/"), Some("notes.pdf"), "Notizen", &[12, 0, 345]);
    assert_eq!(plan.method, HttpMethod::Post);
    assert_eq!(plan.url, "https://p/api/documents/post_document/");
    assert_eq!(plan.file_field, "document");
    assert_eq!(plan.file_name, "notes.pdf");
    assert_eq!(plan.mime_type, "application/pdf");
    let fields: Vec<(String, String)> = plan.fields.iter().map(|f| (f.name.clone(), f.value.clone())).collect();
    assert_eq!(
        fields,
        vec![
            ("title".to_string(), "Notizen".to_string()),
            ("tags".to_string(), "12".to_string()),
            ("tags".to_string(), "0".to_string()),
            ("tags".to_string(), "345".to_string()),
        ]
    );
}

#[test]
fn upload_plan_defaults_the_file_name() {
    let plan = plan_upload(&config("https://p"), None, "T", &[]);
    assert_eq!(plan.file_name, "document.pdf");
    assert_eq!(plan.fields.len(), 1);
}

#[test]
fn upload_result_reports_refusals() {
    assert!(upload_result("Doc", HttpReply::Success(())).is_ok());
    match upload_result("Doc", HttpReply::Failure { status: 413, body: "too big".to_string() }) {
        Err(PaperlessError::Upload { title, status, body }) => {
            assert_eq!(title, "Doc");
            assert_eq!(status, 413);
            assert_eq!(body, "too big");
        }
        other => panic!("unexpected {:?}", other),
    }
}

#[test]
fn error_messages_read_as_reported() {
    let cases = vec![
        (PaperlessError::InvalidHeaderValue, "failed to parse header value"),
        (
            PaperlessError::FetchTags { status: 404, body: "nope".to_string() },
            "Failed to fetch Paperless tags (HTTP 404 Not Found): nope",
        ),
        (
            PaperlessError::FetchDocuments { status: 500, body: "".to_string() },
            "Failed to fetch Paperless documents (HTTP 500 Internal Server Error): ",
        ),
        (PaperlessError::EmptyTagName, "Tag name is empty"),
        (
            PaperlessError::CreateTag { name: "Chemie".to_string(), status: 400, body: "dup".to_string() },
            "Failed to create tag 'Chemie' in Paperless (HTTP 400 Bad Request): dup",
        ),
        (
            PaperlessError::MissingTagId { name: "Chemie".to_string() },
            "No tag id returned when creating Chemie",
        ),
        (
            PaperlessError::Upload { title: "Doc".to_string(), status: 599, body: "x".to_string() },
            "Failed to upload document 'Doc' (HTTP 599 <unknown status code>): x",
        ),
    ];
    for (err, text) in cases {
        assert_eq!(err.message(), text);
    }
}
