//! Core logic of a terminal tool that exports Notion pages and hands them to
//! a Paperless-ngx server: page categorisation, paging through API results,
//! request construction, tag resolution, the login decisions and the
//! terminal menu.

pub mod auth;
pub mod headers;
pub mod http;
pub mod json;
pub mod menu;
pub mod notion;
pub mod paperless;
pub mod text;
pub mod title_index;
