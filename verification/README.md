# zerosemester

A terminal tool that exports Notion pages and can hand them to a
Paperless-ngx server. The decisions of the tool live in a library verified
with Verus; a thin program around it does the terminal, the network and the
files.

- `src/json.rs` – JSON values and the lookups made on them.
- `src/text.rs` – string facts (trimming, case-insensitive matching, byte
  order, decimal notation).
- `src/title_index.rs` – ids to titles, later entries replacing earlier ones.
- `src/notion.rs` – page titles, categories (relation, tag, container,
  fallback), the sorted listing and paging through the search endpoint.
- `src/headers.rs` – request headers and the check of their values.
- `src/http.rs` – request methods, which replies succeed, status texts.
- `src/paperless.rs` – settings, reading tags and documents page by page,
  resolving tag names, the tag creation and upload requests.
- `src/auth.rs` – the login settings, the authorization address with its
  random state, the callback that delivers the code, and where the token
  ends up.
- `src/menu.rs` – the export menu.
- `app/` – the terminal interface, the login server and browser, the token
  exchange, and the HTTP and file work; it asks the library what to send and
  how to read each reply.
