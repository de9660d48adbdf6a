//! The decisions of the Notion login: the OAuth settings, which callback
//! delivers the authorization code, and what the token exchange leaves on
//! disk.

use vstd::prelude::*;

verus! {

/// The file that holds the Notion access token.
pub const NOTION_TOKEN_FILE: &'static str = "notion_token.txt";

/// The file that records a failed login.
pub const LOGIN_ERROR_FILE: &'static str = "error.txt";

/// The settings of the Notion OAuth client and its local callback server.
pub struct OAuthSettings {
    pub client_id: String,
    pub client_secret: String,
    pub auth_url: String,
    pub token_url: String,
    pub redirect_url: String,
    pub listen_address: String,
}

/// The settings, from the client id and secret where they are configured,
/// with placeholders where not.
pub fn notion_oauth_settings(client_id: Option<String>, client_secret: Option<String>) -> (r:
    OAuthSettings)
    ensures
        client_id matches Some(id) ==> r.client_id == id,
        client_id is None ==> r.client_id@ == "YOUR_CLIENT_ID"@,
        client_secret matches Some(s) ==> r.client_secret == s,
        client_secret is None ==> r.client_secret@ == "YOUR_CLIENT_SECRET"@,
        r.auth_url@ == "https://api.notion.com/v1/oauth/authorize"@,
        r.token_url@ == "https://api.notion.com/v1/oauth/token"@,
        r.redirect_url@ == "http://localhost:8080/callback"@,
        r.listen_address@ == "127.0.0.1:8080"@,
{
    let client_id = match client_id {
        Some(id) => id,
        None => "YOUR_CLIENT_ID".to_owned(),
    };
    let client_secret = match client_secret {
        Some(s) => s,
        None => "YOUR_CLIENT_SECRET".to_owned(),
    };
    OAuthSettings {
        client_id,
        client_secret,
        auth_url: "https://api.notion.com/v1/oauth/authorize".to_owned(),
        token_url: "https://api.notion.com/v1/oauth/token".to_owned(),
        redirect_url: "http://localhost:8080/callback".to_owned(),
        listen_address: "127.0.0.1:8080".to_owned(),
    }
}

/// A char of the URL-safe base64 alphabet.
pub open spec fn is_base64url_char(c: char) -> bool {
    ('A' <= c <= 'Z') || ('a' <= c <= 'z') || ('0' <= c <= '9') || c == '-' || c == '_'
}

/// Calls `oauth2::CsrfToken::new_random`: sixteen random bytes in URL-safe
/// base64 without padding, which is twenty-two chars of that alphabet. Which
/// chars they are is chance.
#[verifier::external_body]
fn new_csrf_state() -> (r: String)
    ensures
        r@.len() == 22,
        forall|i: int| 0 <= i < r@.len() ==> is_base64url_char(#[trigger] r@[i]),
{
    oauth2::CsrfToken::new_random().secret().clone()
}

/// The text of a URL once `url::Url::parse` has read it, where it parses.
pub uninterp spec fn parsed_url(text: Seq<char>) -> Option<Seq<char>>;

/// An upper-case hexadecimal digit.
pub open spec fn hex_digit(n: int) -> char {
    if n < 10 {
        (n + 48) as char
    } else {
        (n + 55) as char
    }
}

/// One byte in `application/x-www-form-urlencoded` form: letters, digits and
/// `*-._` stay, a space becomes `+`, every other byte becomes `%XX`.
pub open spec fn form_byte(b: u8) -> Seq<char> {
    if ('0' as u8 <= b <= '9' as u8) || ('A' as u8 <= b <= 'Z' as u8) || ('a' as u8 <= b
        <= 'z' as u8) || b == '*' as u8 || b == '-' as u8 || b == '.' as u8 || b == '_' as u8 {
        seq![b as char]
    } else if b == ' ' as u8 {
        seq!['+']
    } else {
        seq!['%', hex_digit(b as int / 16), hex_digit(b as int % 16)]
    }
}

/// Bytes in `application/x-www-form-urlencoded` form.
pub open spec fn form_bytes(bs: Seq<u8>) -> Seq<char>
    decreases bs.len(),
{
    if bs.len() == 0 {
        Seq::empty()
    } else {
        form_byte(bs[0]) + form_bytes(bs.drop_first())
    }
}

/// Text in `application/x-www-form-urlencoded` form, over its UTF-8 bytes.
pub open spec fn form_encode(s: Seq<char>) -> Seq<char> {
    form_bytes(vstd::utf8::encode_utf8(s))
}

/// The query of an authorization request.
pub open spec fn authorize_query(client_id: Seq<char>, state: Seq<char>, redirect_url: Seq<char>) -> Seq<
    char,
> {
    "response_type=code&client_id="@ + form_encode(client_id) + "&state="@ + form_encode(state)
        + "&redirect_uri="@ + form_encode(redirect_url)
}

/// A URL text that carries neither a query nor a fragment.
pub open spec fn bare_url(u: Seq<char>) -> bool {
    !u.contains('?') && !u.contains('#')
}

/// Calls `oauth2::AuthUrl::new`, `oauth2::RedirectUrl::new` and
/// `BasicClient::authorize_url(..).url()` with the given state: the
/// authorization endpoint as `url::Url::parse` reads it, with the pairs
/// `response_type=code`, `client_id`, `state` and `redirect_uri` appended as
/// its query. Where the endpoint text already has a query or fragment the
/// form of the result is not stated. `None` where a URL does not parse.
#[verifier::external_body]
fn oauth_authorize_url(auth_url: &str, client_id: &str, redirect_url: &str, state: &str) -> (r:
    Option<String>)
    ensures
        (r is Some) == (parsed_url(auth_url@) is Some && parsed_url(redirect_url@) is Some),
        r matches Some(u) ==> (bare_url(parsed_url(auth_url@)->0) ==> u@ == parsed_url(
            auth_url@,
        )->0 + "?"@ + authorize_query(client_id@, state@, redirect_url@)),
{
    let auth = oauth2::AuthUrl::new(auth_url.to_string()).ok()?;
    let redirect = oauth2::RedirectUrl::new(redirect_url.to_string()).ok()?;
    let token = oauth2::CsrfToken::new(state.to_string());
    let id = oauth2::ClientId::new(client_id.to_string());
    let client = oauth2::basic::BasicClient::new(id, None, auth, None).set_redirect_uri(redirect);
    let (url, _) = client.authorize_url(move || token).url();
    Some(url.as_str().to_string())
}

/// The address the browser opens to log in with a given CSRF state; `None`
/// where the endpoint or redirect address does not parse.
pub fn authorize_url_for(settings: &OAuthSettings, state: &str) -> (r: Option<String>)
    ensures
        (r is Some) == (parsed_url(settings.auth_url@) is Some && parsed_url(
            settings.redirect_url@,
        ) is Some),
        r matches Some(u) ==> (bare_url(parsed_url(settings.auth_url@)->0) ==> u@ == parsed_url(
            settings.auth_url@,
        )->0 + "?"@ + authorize_query(settings.client_id@, state@, settings.redirect_url@)),
{
    oauth_authorize_url(
        settings.auth_url.as_str(),
        settings.client_id.as_str(),
        settings.redirect_url.as_str(),
        state,
    )
}

/// The start of a login: the address to open and the CSRF state in it.
pub struct LoginStart {
    pub url: String,
    pub state: String,
}

/// Starts a login with a fresh random CSRF state: twenty-two URL-safe base64
/// chars, placed in the authorization address.
pub fn start_login(settings: &OAuthSettings) -> (r: Option<LoginStart>)
    ensures
        (r is Some) == (parsed_url(settings.auth_url@) is Some && parsed_url(
            settings.redirect_url@,
        ) is Some),
        r matches Some(start) ==> {
            &&& start.state@.len() == 22
            &&& forall|i: int|
                0 <= i < start.state@.len() ==> is_base64url_char(#[trigger] start.state@[i])
            &&& bare_url(parsed_url(settings.auth_url@)->0) ==> start.url@ == parsed_url(
                settings.auth_url@,
            )->0 + "?"@ + authorize_query(settings.client_id@, start.state@, settings.redirect_url@)
        },
{
    let state = new_csrf_state();
    match authorize_url_for(settings, state.as_str()) {
        Some(url) => Some(LoginStart { url, state }),
        None => None,
    }
}

/// Whether the login still waits for its authorization code. Only the first
/// callback delivers one.
pub struct CallbackSlot {
    pub waiting: bool,
}

impl CallbackSlot {
    /// Waiting for the code.
    pub fn new() -> (r: CallbackSlot)
        ensures
            r.waiting,
    {
        CallbackSlot { waiting: true }
    }

    /// A callback with `code`: delivered if the login still waits, dropped
    /// otherwise. The login waits no more either way.
    pub fn accept(&mut self, code: String) -> (r: Option<String>)
        ensures
            old(self).waiting ==> r == Some(code),
            !old(self).waiting ==> r is None,
            !final(self).waiting,
    {
        if self.waiting {
            self.waiting = false;
            Some(code)
        } else {
            None
        }
    }
}

/// A file to write and its contents.
pub struct FileWrite {
    pub path: String,
    pub contents: String,
}

/// What the token exchange leaves on disk: the access token in the token
/// file, or the error's description in the error file.
pub fn token_outcome(result: Result<String, String>) -> (r: FileWrite)
    ensures
        result matches Ok(token) ==> r.path@ == NOTION_TOKEN_FILE@ && r.contents == token,
        result matches Err(detail) ==> r.path@ == LOGIN_ERROR_FILE@ && r.contents@
            == "Fehler beim Login: "@ + detail@,
{
    match result {
        Ok(token) => FileWrite { path: NOTION_TOKEN_FILE.to_owned(), contents: token },
        Err(detail) => {
            let mut contents = "Fehler beim Login: ".to_owned();
            contents.append(detail.as_str());
            FileWrite { path: LOGIN_ERROR_FILE.to_owned(), contents }
        },
    }
}

} // verus!
