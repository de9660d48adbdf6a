//! Paperless-ngx: the connection settings, reading tags and documents page by
//! page, resolving tag names to ids, and the upload request.

use vstd::prelude::*;
use crate::json::{Json, JsonMember};
use crate::http::{status_text, status_text_spec, HttpMethod, JsonRequest};
use crate::text::{
    decimal, decimal_spec, eq_ignore_ascii_case, eq_ignore_ascii_case_spec, strip_trailing,
    trim_spec, trim_trailing_slashes, trim_whitespace, law_eq_ignore_ascii_case_equivalence,
};

verus! {

/// Where the Paperless-ngx server is and how tags are applied.
#[derive(Debug, Clone)]
pub struct PaperlessConfig {
    pub url: String,
    pub token: String,
    pub auto_create_tags: bool,
    pub add_base_tag: bool,
    pub base_tag_name: String,
}

impl Default for PaperlessConfig {
    /// A local server on port 8000, no token, tags created on demand, and
    /// every document tagged `Notion`.
    fn default() -> (r: Self)
        ensures
            r.url@ == "http://localhost:8000"@,
            r.token@ == Seq::<char>::empty(),
            r.auto_create_tags,
            r.add_base_tag,
            r.base_tag_name@ == "Notion"@,
    {
        PaperlessConfig {
            url: "http://localhost:8000".to_owned(),
            token: String::new(),
            auto_create_tags: true,
            add_base_tag: true,
            base_tag_name: "Notion".to_owned(),
        }
    }
}

impl PaperlessConfig {
    /// The stored settings where they could be read, else the defaults.
    pub fn from_stored(stored: Option<PaperlessConfig>) -> (r: PaperlessConfig)
        ensures
            stored matches Some(c) ==> r == c,
            stored is None ==> r.url@ == "http://localhost:8000"@ && r.token@ == Seq::<
                char,
            >::empty() && r.auto_create_tags && r.add_base_tag && r.base_tag_name@ == "Notion"@,
    {
        match stored {
            Some(c) => c,
            None => PaperlessConfig::default(),
        }
    }
}

/// A Paperless-ngx tag.
#[derive(Debug, Clone, PartialEq, Eq)]
pub struct PaperlessTag {
    pub id: u64,
    pub name: String,
}

/// A Paperless-ngx document, as far as duplicates are recognised by it.
#[derive(Debug, Clone)]
pub struct PaperlessDocument {
    pub id: u64,
    pub title: String,
    pub original_file_name: Option<String>,
}

/// All tags and documents of a Paperless-ngx server.
#[derive(Debug, Clone)]
pub struct PaperlessMetadata {
    pub documents: Vec<PaperlessDocument>,
    pub tags: Vec<PaperlessTag>,
}

/// The answer to an HTTP request: a success with its body, or the status and
/// text of a failure.
pub enum HttpReply<T> {
    Success(T),
    Failure { status: u16, body: String },
}

/// What can go wrong talking to Paperless-ngx.
#[derive(Debug, Clone)]
pub enum PaperlessError {
    /// The token does not make a valid header value.
    InvalidHeaderValue,
    /// The server refused a page of tags.
    FetchTags { status: u16, body: String },
    /// The server refused a page of documents.
    FetchDocuments { status: u16, body: String },
    /// The tag name is empty once white space is removed.
    EmptyTagName,
    /// The server refused to create a tag.
    CreateTag { name: String, status: u16, body: String },
    /// The server created a tag but sent no id for it.
    MissingTagId { name: String },
    /// The server refused a document.
    Upload { title: String, status: u16, body: String },
}

/// The message of an error, as the tool reports it.
pub open spec fn error_message_spec(e: PaperlessError) -> Seq<char> {
    match e {
        PaperlessError::InvalidHeaderValue => "failed to parse header value"@,
        PaperlessError::FetchTags { status, body } => "Failed to fetch Paperless tags (HTTP "@
            + status_text_spec(status) + "): "@ + body@,
        PaperlessError::FetchDocuments { status, body } =>
            "Failed to fetch Paperless documents (HTTP "@ + status_text_spec(status) + "): "@
            + body@,
        PaperlessError::EmptyTagName => "Tag name is empty"@,
        PaperlessError::CreateTag { name, status, body } => "Failed to create tag '"@ + name@
            + "' in Paperless (HTTP "@ + status_text_spec(status) + "): "@ + body@,
        PaperlessError::MissingTagId { name } => "No tag id returned when creating "@ + name@,
        PaperlessError::Upload { title, status, body } => "Failed to upload document '"@
            + title@ + "' (HTTP "@ + status_text_spec(status) + "): "@ + body@,
    }
}

/// `head`, the status text, `"): "` and `body`.
fn status_message(head: String, status: u16, body: &str) -> (r: String)
    ensures
        r@ == head@ + status_text_spec(status) + "): "@ + body@,
{
    let mut m = head;
    m.append(status_text(status).as_str());
    m.append("): ");
    m.append(body);
    m
}

impl PaperlessError {
    /// The message of the error, as the tool reports it.
    pub fn message(&self) -> (r: String)
        ensures
            r@ == error_message_spec(*self),
    {
        match self {
            PaperlessError::InvalidHeaderValue => "failed to parse header value".to_owned(),
            PaperlessError::FetchTags { status, body } => status_message(
                "Failed to fetch Paperless tags (HTTP ".to_owned(),
                *status,
                body.as_str(),
            ),
            PaperlessError::FetchDocuments { status, body } => status_message(
                "Failed to fetch Paperless documents (HTTP ".to_owned(),
                *status,
                body.as_str(),
            ),
            PaperlessError::EmptyTagName => "Tag name is empty".to_owned(),
            PaperlessError::CreateTag { name, status, body } => {
                let mut head = "Failed to create tag '".to_owned();
                head.append(name.as_str());
                head.append("' in Paperless (HTTP ");
                status_message(head, *status, body.as_str())
            },
            PaperlessError::MissingTagId { name } => {
                let mut m = "No tag id returned when creating ".to_owned();
                m.append(name.as_str());
                m
            },
            PaperlessError::Upload { title, status, body } => {
                let mut head = "Failed to upload document '".to_owned();
                head.append(title.as_str());
                head.append("' (HTTP ");
                status_message(head, *status, body.as_str())
            },
        }
    }
}

/// The server address without trailing slashes.
pub open spec fn base_url(config: PaperlessConfig) -> Seq<char> {
    strip_trailing(config.url@, '/')
}

/// `base` followed by `path`.
fn join(base: &str, path: &str) -> (r: String)
    ensures
        r@ == base@ + path@,
{
    let mut s = base.to_owned();
    s.append(path);
    s
}

/// The tag that a result item describes, where it has an id and a name.
pub open spec fn tag_of(item: Json) -> Option<(u64, Seq<char>)> {
    match (item.at("id"@).u64_of(), item.at("name"@).str_of()) {
        (Some(id), Some(name)) => Some((id, name)),
        _ => None,
    }
}

/// The document that a result item describes, where it has an id and a title.
pub open spec fn document_of(item: Json) -> Option<(u64, Seq<char>, Option<Seq<char>>)> {
    match (item.at("id"@).u64_of(), item.at("title"@).str_of()) {
        (Some(id), Some(title)) => Some((id, title, item.at("original_file_name"@).str_of())),
        _ => None,
    }
}

/// The tags among the first `n` items.
pub open spec fn tags_in(items: Seq<Json>, n: int) -> Seq<(u64, Seq<char>)>
    decreases n,
{
    if n <= 0 {
        Seq::empty()
    } else {
        match tag_of(items[n - 1]) {
            Some(t) => tags_in(items, n - 1).push(t),
            None => tags_in(items, n - 1),
        }
    }
}

/// The documents among the first `n` items.
pub open spec fn documents_in(items: Seq<Json>, n: int) -> Seq<
    (u64, Seq<char>, Option<Seq<char>>),
>
    decreases n,
{
    if n <= 0 {
        Seq::empty()
    } else {
        match document_of(items[n - 1]) {
            Some(d) => documents_in(items, n - 1).push(d),
            None => documents_in(items, n - 1),
        }
    }
}

/// The items of a result page.
pub open spec fn page_items(page: Json) -> Seq<Json> {
    match page.at("results"@).array_of() {
        Some(a) => a,
        None => Seq::empty(),
    }
}

/// The tags on a result page.
pub open spec fn page_tags(page: Json) -> Seq<(u64, Seq<char>)> {
    tags_in(page_items(page), page_items(page).len() as int)
}

/// The documents on a result page.
pub open spec fn page_documents(page: Json) -> Seq<(u64, Seq<char>, Option<Seq<char>>)> {
    documents_in(page_items(page), page_items(page).len() as int)
}

/// The id and name of each tag.
pub open spec fn tag_views(v: Seq<PaperlessTag>) -> Seq<(u64, Seq<char>)> {
    v.map_values(|t: PaperlessTag| (t.id, t.name@))
}

/// The text in an optional string.
pub open spec fn opt_view(o: Option<String>) -> Option<Seq<char>> {
    match o {
        Some(s) => Some(s@),
        None => None,
    }
}

/// The id, title and original file name of each document.
pub open spec fn document_views(v: Seq<PaperlessDocument>) -> Seq<
    (u64, Seq<char>, Option<Seq<char>>),
> {
    v.map_values(
        |d: PaperlessDocument| (d.id, d.title@, opt_view(d.original_file_name)),
    )
}

/// Adds the tags on a result page to `tags`, in page order.
pub fn parse_tags(page: &Json, tags: &mut Vec<PaperlessTag>)
    ensures
        tag_views(final(tags)@) == tag_views(old(tags)@) + page_tags(*page),
{
    let items = match page.array_at("results") {
        Some(a) => a,
        None => {
            assert(tag_views(tags@) =~= tag_views(tags@) + page_tags(*page));
            return;
        },
    };
    let ghost start = tag_views(tags@);
    let mut i: usize = 0;
    while i < items.len()
        invariant
            i <= items@.len(),
            tag_views(tags@) == start + tags_in(items@, i as int),
        decreases items@.len() - i,
    {
        let item = &items[i];
        match (item.get("id"), item.str_at("name")) {
            (Some(id_value), Some(name)) => match id_value.as_u64() {
                Some(id) => {
                    let ghost before = tags@;
                    tags.push(PaperlessTag { id, name: name.clone() });
                    assert(tag_views(tags@) =~= tag_views(before).push((id, name@)));
                    assert(start + tags_in(items@, i + 1) =~= start + tags_in(items@, i as int).push(
                        (id, name@),
                    ));
                },
                None => {},
            },
            _ => {},
        }
        i = i + 1;
    }
}

/// Adds the documents on a result page to `documents`, in page order.
pub fn parse_documents(page: &Json, documents: &mut Vec<PaperlessDocument>)
    ensures
        document_views(final(documents)@) == document_views(old(documents)@) + page_documents(
            *page,
        ),
{
    let items = match page.array_at("results") {
        Some(a) => a,
        None => {
            assert(document_views(documents@) =~= document_views(documents@) + page_documents(
                *page,
            ));
            return;
        },
    };
    let ghost start = document_views(documents@);
    let mut i: usize = 0;
    while i < items.len()
        invariant
            i <= items@.len(),
            document_views(documents@) == start + documents_in(items@, i as int),
        decreases items@.len() - i,
    {
        let item = &items[i];
        match (item.get("id"), item.str_at("title")) {
            (Some(id_value), Some(title)) => match id_value.as_u64() {
                Some(id) => {
                    let original_file_name = match item.str_at("original_file_name") {
                        Some(s) => Some(s.clone()),
                        None => None,
                    };
                    let ghost before = documents@;
                    let ghost entry = (id, title@, opt_view(original_file_name));
                    documents.push(
                        PaperlessDocument { id, title: title.clone(), original_file_name },
                    );
                    assert(document_views(documents@) =~= document_views(before).push(entry));
                    assert(start + documents_in(items@, i + 1) =~= start + documents_in(
                        items@,
                        i as int,
                    ).push(entry));
                },
                None => {},
            },
            _ => {},
        }
        i = i + 1;
    }
}

/// Which listing a metadata fetch is reading.
#[derive(Debug, Clone, Copy, PartialEq, Eq, Structural)]
pub enum MetadataPhase {
    Tags,
    Documents,
    Done,
}

/// Progress through the tag and document listings of a server: what has
/// been read, and the page to request next.
pub struct MetadataFetch {
    pub base_url: String,
    pub phase: MetadataPhase,
    pub next_url: Option<String>,
    pub tags: Vec<PaperlessTag>,
    pub documents: Vec<PaperlessDocument>,
}

/// The first page of the tag listing.
pub open spec fn tags_url(base: Seq<char>) -> Seq<char> {
    base + "/api/tags/?page_size=1000"@
}

/// The first page of the document listing.
pub open spec fn documents_url(base: Seq<char>) -> Seq<char> {
    base + "/api/documents/?page_size=1000"@
}

impl MetadataFetch {
    /// Before the first request: the first page of tags comes first.
    pub fn new(config: &PaperlessConfig) -> (r: MetadataFetch)
        ensures
            r.base_url@ == base_url(*config),
            r.phase == MetadataPhase::Tags,
            opt_view(r.next_url) == Some(tags_url(base_url(*config))),
            r.tags@.len() == 0,
            r.documents@.len() == 0,
    {
        let base = trim_trailing_slashes(config.url.as_str()).to_owned();
        let first = join(base.as_str(), "/api/tags/?page_size=1000");
        MetadataFetch {
            base_url: base,
            phase: MetadataPhase::Tags,
            next_url: Some(first),
            tags: Vec::new(),
            documents: Vec::new(),
        }
    }

    /// Takes in the answer to the request for `next_url`. A refused page ends
    /// the fetch with an error and changes nothing. An accepted page adds its
    /// items; its `next` link is the next page, and without one the tags are
    /// followed by the first page of documents, and the documents by the end.
    pub fn record(&mut self, reply: HttpReply<Json>) -> (r: Result<(), PaperlessError>)
        ensures
            old(self).phase == MetadataPhase::Done ==> r is Ok && *final(self) == *old(self),
            old(self).phase != MetadataPhase::Done ==> match reply {
                HttpReply::Failure { status, body } => {
                    &&& *final(self) == *old(self)
                    &&& old(self).phase == MetadataPhase::Tags ==> r == Err::<(), PaperlessError>(
                        PaperlessError::FetchTags { status, body },
                    )
                    &&& old(self).phase == MetadataPhase::Documents ==> r == Err::<
                        (),
                        PaperlessError,
                    >(PaperlessError::FetchDocuments { status, body })
                },
                HttpReply::Success(page) => {
                    &&& r is Ok
                    &&& final(self).base_url == old(self).base_url
                    &&& old(self).phase == MetadataPhase::Tags ==> {
                        &&& tag_views(final(self).tags@) == tag_views(old(self).tags@)
                            + page_tags(page)
                        &&& final(self).documents == old(self).documents
                        &&& match page.at("next"@).str_of() {
                            Some(u) => final(self).phase == MetadataPhase::Tags && opt_view(
                                final(self).next_url,
                            ) == Some(u),
                            None => final(self).phase == MetadataPhase::Documents && opt_view(
                                final(self).next_url,
                            ) == Some(documents_url(old(self).base_url@)),
                        }
                    }
                    &&& old(self).phase == MetadataPhase::Documents ==> {
                        &&& document_views(final(self).documents@) == document_views(
                            old(self).documents@,
                        ) + page_documents(page)
                        &&& final(self).tags == old(self).tags
                        &&& match page.at("next"@).str_of() {
                            Some(u) => final(self).phase == MetadataPhase::Documents && opt_view(
                                final(self).next_url,
                            ) == Some(u),
                            None => final(self).phase == MetadataPhase::Done
                                && final(self).next_url is None,
                        }
                    }
                },
            },
    {
        match self.phase {
            MetadataPhase::Done => {
                return Ok(());
            },
            _ => {},
        }
        match reply {
            HttpReply::Failure { status, body } => {
                if self.phase == MetadataPhase::Tags {
                    Err(PaperlessError::FetchTags { status, body })
                } else {
                    Err(PaperlessError::FetchDocuments { status, body })
                }
            },
            HttpReply::Success(page) => {
                let next = match page.str_at("next") {
                    Some(u) => Some(u.clone()),
                    None => None,
                };
                if self.phase == MetadataPhase::Tags {
                    parse_tags(&page, &mut self.tags);
                    match next {
                        Some(u) => {
                            self.next_url = Some(u);
                        },
                        None => {
                            let url = join(self.base_url.as_str(), "/api/documents/?page_size=1000");
                            self.next_url = Some(url);
                            self.phase = MetadataPhase::Documents;
                        },
                    }
                } else {
                    parse_documents(&page, &mut self.documents);
                    match next {
                        Some(u) => {
                            self.next_url = Some(u);
                        },
                        None => {
                            self.next_url = None;
                            self.phase = MetadataPhase::Done;
                        },
                    }
                }
                Ok(())
            },
        }
    }

    /// The next page to read: a `GET` of `next_url`, while there is one.
    pub fn next_request(&self) -> (r: Option<(HttpMethod, String)>)
        ensures
            r is None <==> self.next_url is None,
            r matches Some((m, u)) ==> m == HttpMethod::Get && opt_view(self.next_url) == Some(u@),
    {
        match &self.next_url {
            Some(u) => Some((HttpMethod::Get, u.clone())),
            None => None,
        }
    }

    /// The tags and documents read.
    pub fn finish(self) -> (r: PaperlessMetadata)
        ensures
            r.tags == self.tags,
            r.documents == self.documents,
    {
        PaperlessMetadata { documents: self.documents, tags: self.tags }
    }
}

/// The id of the first tag from index `i` on whose name matches `name`
/// ignoring ASCII case.
pub open spec fn first_matching_tag(tags: Seq<PaperlessTag>, name: Seq<char>, i: int) -> Option<
    u64,
>
    decreases tags.len() - i,
{
    if i < 0 || i >= tags.len() {
        None
    } else if eq_ignore_ascii_case_spec(tags[i].name@, name) {
        Some(tags[i].id)
    } else {
        first_matching_tag(tags, name, i + 1)
    }
}

/// What to do for a tag name: use a known tag, or create one by this name.
pub enum TagLookup {
    Found(u64),
    Create(String),
}

/// Resolves a tag name against the known tags: the name without surrounding
/// white space must not be empty; the first known tag that matches it
/// ignoring ASCII case is used; else a tag by that name is to be created.
pub fn lookup_tag(tag_name: &str, existing: &Vec<PaperlessTag>) -> (r: Result<
    TagLookup,
    PaperlessError,
>)
    ensures
        trim_spec(tag_name@).len() == 0 ==> r matches Err(PaperlessError::EmptyTagName),
        trim_spec(tag_name@).len() > 0 ==> match first_matching_tag(
            existing@,
            trim_spec(tag_name@),
            0,
        ) {
            Some(id) => r matches Ok(TagLookup::Found(found)) && found == id,
            None => r matches Ok(TagLookup::Create(n)) && n@ == trim_spec(tag_name@),
        },
{
    let clean = trim_whitespace(tag_name);
    if clean.unicode_len() == 0 {
        return Err(PaperlessError::EmptyTagName);
    }
    let mut i: usize = 0;
    while i < existing.len()
        invariant
            i <= existing@.len(),
            clean@ == trim_spec(tag_name@),
            clean@.len() > 0,
            first_matching_tag(existing@, clean@, 0) == first_matching_tag(
                existing@,
                clean@,
                i as int,
            ),
        decreases existing@.len() - i,
    {
        if eq_ignore_ascii_case(existing[i].name.as_str(), clean) {
            return Ok(TagLookup::Found(existing[i].id));
        }
        i = i + 1;
    }
    Ok(TagLookup::Create(clean.to_owned()))
}

/// The request that creates the tag `name`: a `POST` of `{"name": name}`
/// to the tag listing.
pub fn tag_creation_request(config: &PaperlessConfig, name: &str) -> (r: JsonRequest)
    ensures
        r.method == HttpMethod::Post,
        r.url@ == base_url(*config) + "/api/tags/"@,
        r.body.object_of() matches Some(m) && m.len() == 1 && m[0].key@ == "name"@
            && m[0].value.str_of() == Some(name@),
{
    let url = join(trim_trailing_slashes(config.url.as_str()), "/api/tags/");
    let mut members: Vec<JsonMember> = Vec::new();
    members.push(JsonMember { key: "name".to_owned(), value: Json::Str(name.to_owned()) });
    JsonRequest { method: HttpMethod::Post, url, body: Json::Object(members) }
}

/// Takes in the answer to a tag creation: the new tag joins the known tags
/// and its id is returned; a refusal, or an answer without an id, is an
/// error and leaves the known tags as they were.
pub fn record_created_tag(
    existing: &mut Vec<PaperlessTag>,
    name: String,
    reply: HttpReply<Json>,
) -> (r: Result<u64, PaperlessError>)
    ensures
        match reply {
            HttpReply::Failure { status, body } => {
                &&& final(existing)@ == old(existing)@
                &&& r matches Err(PaperlessError::CreateTag { name: n, status: s, body: b })
                    && n@ == name@ && s == status && b == body
            },
            HttpReply::Success(page) => match page.at("id"@).u64_of() {
                Some(id) => {
                    &&& r == Ok::<u64, PaperlessError>(id)
                    &&& final(existing)@.len() == old(existing)@.len() + 1
                    &&& final(existing)@.drop_last() == old(existing)@
                    &&& final(existing)@.last().id == id
                    &&& final(existing)@.last().name@ == name@
                },
                None => {
                    &&& final(existing)@ == old(existing)@
                    &&& r matches Err(PaperlessError::MissingTagId { name: n }) && n@ == name@
                },
            },
        },
{
    match reply {
        HttpReply::Failure { status, body } => Err(PaperlessError::CreateTag { name, status, body }),
        HttpReply::Success(page) => {
            match page.get("id") {
                Some(v) => match v.as_u64() {
                    Some(id) => {
                        existing.push(PaperlessTag { id, name });
                        assert(existing@.drop_last() =~= old(existing)@);
                        Ok(id)
                    },
                    None => Err(PaperlessError::MissingTagId { name }),
                },
                None => Err(PaperlessError::MissingTagId { name }),
            }
        },
    }
}

proof fn lemma_no_match_after(tags: Seq<PaperlessTag>, name: Seq<char>, i: int, j: int)
    requires
        0 <= i <= j < tags.len(),
        first_matching_tag(tags, name, i) is None,
    ensures
        !eq_ignore_ascii_case_spec(tags[j].name@, name),
    decreases j - i,
{
    if i < j {
        lemma_no_match_after(tags, name, i + 1, j);
    }
}

proof fn lemma_match_at(tags: Seq<PaperlessTag>, name: Seq<char>, i: int, j: int)
    requires
        0 <= i <= j < tags.len(),
        eq_ignore_ascii_case_spec(tags[j].name@, name),
    ensures
        first_matching_tag(tags, name, i) is Some,
    decreases j - i,
{
    if i < j && !eq_ignore_ascii_case_spec(tags[i].name@, name) {
        lemma_match_at(tags, name, i + 1, j);
    }
}

/// A known tag whose name matches the requested one ignoring ASCII case is
/// always found, so no second tag is created for it.
pub proof fn law_matching_tag_is_found(tags: Seq<PaperlessTag>, name: Seq<char>, j: int)
    requires
        0 <= j < tags.len(),
        eq_ignore_ascii_case_spec(tags[j].name@, name),
    ensures
        first_matching_tag(tags, name, 0) is Some,
{
    lemma_match_at(tags, name, 0, j);
}

proof fn lemma_created_found_from(
    tags: Seq<PaperlessTag>,
    name: Seq<char>,
    created: PaperlessTag,
    other: Seq<char>,
    i: int,
)
    requires
        0 <= i <= tags.len(),
        first_matching_tag(tags, name, 0) is None,
        created.name@ == name,
        eq_ignore_ascii_case_spec(other, name),
    ensures
        first_matching_tag(tags.push(created), other, i) == Some(created.id),
    decreases tags.len() - i,
{
    let all = tags.push(created);
    law_eq_ignore_ascii_case_equivalence(name, other, name);
    if i < tags.len() {
        lemma_no_match_after(tags, name, 0, i);
        law_eq_ignore_ascii_case_equivalence(tags[i].name@, other, name);
        assert(all[i] == tags[i]);
        lemma_created_found_from(tags, name, created, other, i + 1);
    } else {
        assert(all[i] == created);
    }
}

/// Resolving a tag name that was just created finds the new tag: once a
/// lookup for `name` asked for a tag to be created and that tag joined the
/// known tags, a lookup for any name that matches it ignoring ASCII case and
/// surrounding white space yields the new tag's id.
pub proof fn law_created_tag_is_found(
    tags: Seq<PaperlessTag>,
    name: Seq<char>,
    created: PaperlessTag,
    other: Seq<char>,
)
    requires
        trim_spec(name).len() > 0,
        first_matching_tag(tags, trim_spec(name), 0) is None,
        created.name@ == trim_spec(name),
        eq_ignore_ascii_case_spec(trim_spec(other), trim_spec(name)),
    ensures
        trim_spec(other).len() > 0,
        first_matching_tag(tags.push(created), trim_spec(other), 0) == Some(created.id),
{
    lemma_created_found_from(tags, trim_spec(name), created, trim_spec(other), 0);
}

/// A result item that names a tag: a `u64` id and a string name.
pub open spec fn names_a_tag(item: Json) -> bool {
    item.at("id"@).u64_of() is Some && item.at("name"@).str_of() is Some
}

/// How many of the first `n` items name a tag.
pub open spec fn tag_item_count(items: Seq<Json>, n: int) -> nat
    decreases n,
{
    if n <= 0 {
        0
    } else {
        tag_item_count(items, n - 1) + if names_a_tag(items[n - 1]) {
            1nat
        } else {
            0nat
        }
    }
}

proof fn lemma_tags_in(items: Seq<Json>, n: int)
    requires
        0 <= n <= items.len(),
    ensures
        tags_in(items, n).len() == tag_item_count(items, n),
        forall|j: int|
            0 <= j < n && names_a_tag(#[trigger] items[j]) ==> tags_in(items, n)[tag_item_count(
                items,
                j,
            ) as int] == (items[j].at("id"@).u64_of()->0, items[j].at("name"@).str_of()->0),
    decreases n,
{
    if n > 0 {
        lemma_tags_in(items, n - 1);
        assert forall|j: int| 0 <= j < n && names_a_tag(#[trigger] items[j]) implies tags_in(
            items,
            n,
        )[tag_item_count(items, j) as int] == (
            items[j].at("id"@).u64_of()->0,
            items[j].at("name"@).str_of()->0,
        ) by {
            if j < n - 1 {
                lemma_tag_count_mono(items, j + 1, n - 1);
            }
        }
    }
}

proof fn lemma_tag_count_mono(items: Seq<Json>, a: int, b: int)
    requires
        0 <= a <= b,
    ensures
        tag_item_count(items, a) <= tag_item_count(items, b),
    decreases b - a,
{
    if a < b {
        lemma_tag_count_mono(items, a, b - 1);
    }
}

/// Every result item with a `u64` id and a string name becomes a tag: a page
/// yields as many tags as it has such items, each item's tag standing after
/// the tags of the items before it.
pub proof fn law_every_named_item_is_a_tag(page: Json)
    ensures
        page_tags(page).len() == tag_item_count(page_items(page), page_items(page).len() as int),
        forall|j: int|
            0 <= j < page_items(page).len() && names_a_tag(#[trigger] page_items(page)[j])
                ==> page_tags(page)[tag_item_count(page_items(page), j) as int] == (
                page_items(page)[j].at("id"@).u64_of()->0,
                page_items(page)[j].at("name"@).str_of()->0,
            ),
{
    lemma_tags_in(page_items(page), page_items(page).len() as int);
}

/// A result item that names a document: a `u64` id and a string title.
pub open spec fn names_a_document(item: Json) -> bool {
    item.at("id"@).u64_of() is Some && item.at("title"@).str_of() is Some
}

/// How many of the first `n` items name a document.
pub open spec fn document_item_count(items: Seq<Json>, n: int) -> nat
    decreases n,
{
    if n <= 0 {
        0
    } else {
        document_item_count(items, n - 1) + if names_a_document(items[n - 1]) {
            1nat
        } else {
            0nat
        }
    }
}

proof fn lemma_document_count_mono(items: Seq<Json>, a: int, b: int)
    requires
        0 <= a <= b,
    ensures
        document_item_count(items, a) <= document_item_count(items, b),
    decreases b - a,
{
    if a < b {
        lemma_document_count_mono(items, a, b - 1);
    }
}

proof fn lemma_documents_in(items: Seq<Json>, n: int)
    requires
        0 <= n <= items.len(),
    ensures
        documents_in(items, n).len() == document_item_count(items, n),
        forall|j: int|
            0 <= j < n && names_a_document(#[trigger] items[j]) ==> documents_in(items, n)[
                document_item_count(items, j) as int] == (
                items[j].at("id"@).u64_of()->0,
                items[j].at("title"@).str_of()->0,
                items[j].at("original_file_name"@).str_of(),
            ),
    decreases n,
{
    if n > 0 {
        lemma_documents_in(items, n - 1);
        assert forall|j: int| 0 <= j < n && names_a_document(#[trigger] items[j]) implies documents_in(
            items,
            n,
        )[document_item_count(items, j) as int] == (
            items[j].at("id"@).u64_of()->0,
            items[j].at("title"@).str_of()->0,
            items[j].at("original_file_name"@).str_of(),
        ) by {
            if j < n - 1 {
                lemma_document_count_mono(items, j + 1, n - 1);
            }
        }
    }
}

/// Every result item with a `u64` id and a string title becomes a document,
/// with its original file name where that is a string: a page yields as many
/// documents as it has such items, in item order.
pub proof fn law_every_titled_item_is_a_document(page: Json)
    ensures
        page_documents(page).len() == document_item_count(
            page_items(page),
            page_items(page).len() as int,
        ),
        forall|j: int|
            0 <= j < page_items(page).len() && names_a_document(#[trigger] page_items(page)[j])
                ==> page_documents(page)[document_item_count(page_items(page), j) as int] == (
                page_items(page)[j].at("id"@).u64_of()->0,
                page_items(page)[j].at("title"@).str_of()->0,
                page_items(page)[j].at("original_file_name"@).str_of(),
            ),
{
    lemma_documents_in(page_items(page), page_items(page).len() as int);
}

proof fn lemma_first_match_from(tags: Seq<PaperlessTag>, name: Seq<char>, i: int)
    requires
        0 <= i,
    ensures
        first_matching_tag(tags, name, i) matches Some(id) ==> exists|j: int|
            i <= j < tags.len() && (#[trigger] tags[j]).id == id && eq_ignore_ascii_case_spec(
                tags[j].name@,
                name,
            ) && forall|k: int|
                i <= k < j ==> !eq_ignore_ascii_case_spec(#[trigger] tags[k].name@, name),
        first_matching_tag(tags, name, i) is None ==> forall|k: int|
            i <= k < tags.len() ==> !eq_ignore_ascii_case_spec(#[trigger] tags[k].name@, name),
    decreases tags.len() - i,
{
    if i < tags.len() {
        lemma_first_match_from(tags, name, i + 1);
        if !eq_ignore_ascii_case_spec(tags[i].name@, name) {
            if let Some(id) = first_matching_tag(tags, name, i) {
                let j = choose|j: int|
                    i + 1 <= j < tags.len() && (#[trigger] tags[j]).id == id
                        && eq_ignore_ascii_case_spec(tags[j].name@, name) && forall|k: int|
                        i + 1 <= k < j ==> !eq_ignore_ascii_case_spec(#[trigger] tags[k].name@, name);
                assert(i <= j < tags.len() && tags[j].id == id);
            }
        } else {
            assert(tags[i].id == tags[i].id);
        }
    }
}

/// The tag found for a name is the earliest known tag that matches it
/// ignoring ASCII case; none is found exactly when no known tag matches.
pub proof fn law_found_tag_is_earliest_match(tags: Seq<PaperlessTag>, name: Seq<char>)
    ensures
        first_matching_tag(tags, name, 0) matches Some(id) ==> exists|j: int|
            0 <= j < tags.len() && (#[trigger] tags[j]).id == id && eq_ignore_ascii_case_spec(
                tags[j].name@,
                name,
            ) && forall|k: int|
                0 <= k < j ==> !eq_ignore_ascii_case_spec(#[trigger] tags[k].name@, name),
        first_matching_tag(tags, name, 0) is None <==> forall|k: int|
            0 <= k < tags.len() ==> !eq_ignore_ascii_case_spec(#[trigger] tags[k].name@, name),
{
    lemma_first_match_from(tags, name, 0);
    if first_matching_tag(tags, name, 0) is Some {
        let id = first_matching_tag(tags, name, 0)->0;
        let j = choose|j: int|
            0 <= j < tags.len() && (#[trigger] tags[j]).id == id && eq_ignore_ascii_case_spec(
                tags[j].name@,
                name,
            ) && forall|k: int|
                0 <= k < j ==> !eq_ignore_ascii_case_spec(#[trigger] tags[k].name@, name);
        assert(eq_ignore_ascii_case_spec(tags[j].name@, name));
    }
}

/// A text field of a multipart form.
pub struct FormField {
    pub name: String,
    pub value: String,
}

/// The name and value of each form field.
pub open spec fn field_views(v: Seq<FormField>) -> Seq<(Seq<char>, Seq<char>)> {
    v.map_values(|f: FormField| (f.name@, f.value@))
}

/// The text fields of an upload: the title, then one `tags` field per tag id.
pub open spec fn upload_fields(title: Seq<char>, tag_ids: Seq<u64>) -> Seq<(Seq<char>, Seq<char>)> {
    seq![("title"@, title)] + tag_ids.map_values(|id: u64| ("tags"@, decimal_spec(id as nat)))
}

/// An upload sends the title first and then one `tags` field per tag id, in
/// the given order, each id in decimal.
pub proof fn law_upload_fields(title: Seq<char>, tag_ids: Seq<u64>)
    ensures
        upload_fields(title, tag_ids).len() == tag_ids.len() + 1,
        upload_fields(title, tag_ids)[0] == ("title"@, title),
        forall|k: int|
            0 <= k < tag_ids.len() ==> upload_fields(title, tag_ids)[k + 1] == (
                "tags"@,
                decimal_spec(#[trigger] tag_ids[k] as nat),
            ),
{
}

/// Everything of an upload request but the file's bytes.
pub struct UploadPlan {
    pub method: HttpMethod,
    pub url: String,
    pub file_field: String,
    pub file_name: String,
    pub mime_type: String,
    pub fields: Vec<FormField>,
}

/// The upload request for a PDF, sent with `POST`: the file as field `document` under its own
/// name (or `document.pdf` where it has none), then the title and the tags.
pub fn plan_upload(
    config: &PaperlessConfig,
    file_name: Option<&str>,
    title: &str,
    tag_ids: &[u64],
) -> (r: UploadPlan)
    ensures
        r.method == HttpMethod::Post,
        r.url@ == base_url(*config) + "/api/documents/post_document/"@,
        r.file_field@ == "document"@,
        file_name matches Some(n) ==> r.file_name@ == n@,
        file_name is None ==> r.file_name@ == "document.pdf"@,
        r.mime_type@ == "application/pdf"@,
        field_views(r.fields@) == upload_fields(title@, tag_ids@),
{
    let url = join(trim_trailing_slashes(config.url.as_str()), "/api/documents/post_document/");
    let name = match file_name {
        Some(n) => n.to_owned(),
        None => "document.pdf".to_owned(),
    };
    let mut fields: Vec<FormField> = Vec::new();
    fields.push(FormField { name: "title".to_owned(), value: title.to_owned() });
    let ghost head = seq![("title"@, title@)];
    assert(field_views(fields@) =~= head);
    let mut i: usize = 0;
    while i < tag_ids.len()
        invariant
            i <= tag_ids@.len(),
            field_views(fields@) == head + tag_ids@.take(i as int).map_values(
                |id: u64| ("tags"@, decimal_spec(id as nat)),
            ),
        decreases tag_ids@.len() - i,
    {
        let value = decimal(tag_ids[i]);
        let ghost before = fields@;
        fields.push(FormField { name: "tags".to_owned(), value });
        assert(field_views(fields@) =~= field_views(before).push(("tags"@, value@)));
        assert(tag_ids@.take(i + 1).map_values(|id: u64| ("tags"@, decimal_spec(id as nat)))
            =~= tag_ids@.take(i as int).map_values(|id: u64| ("tags"@, decimal_spec(id as nat))).push(
            ("tags"@, decimal_spec(tag_ids@[i as int] as nat)),
        ));
        i = i + 1;
    }
    assert(tag_ids@.take(tag_ids@.len() as int) =~= tag_ids@);
    UploadPlan {
        method: HttpMethod::Post,
        url,
        file_field: "document".to_owned(),
        file_name: name,
        mime_type: "application/pdf".to_owned(),
        fields,
    }
}

/// The outcome of an upload: a refusal is an error naming the title.
pub fn upload_result(title: &str, reply: HttpReply<()>) -> (r: Result<(), PaperlessError>)
    ensures
        reply is Success ==> r is Ok,
        reply matches HttpReply::Failure { status, body } ==> r matches Err(
            PaperlessError::Upload { title: t, status: s, body: b },
        ) && t@ == title@ && s == status && b == body,
{
    match reply {
        HttpReply::Success(_) => Ok(()),
        HttpReply::Failure { status, body } => Err(
            PaperlessError::Upload { title: title.to_owned(), status, body },
        ),
    }
}

} // verus!
