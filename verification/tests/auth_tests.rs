use zerosemester::auth::{
    authorize_url_for, notion_oauth_settings, start_login, token_outcome, CallbackSlot,
    LOGIN_ERROR_FILE, NOTION_TOKEN_FILE,
};
use zerosemester::headers::notion_headers;

#[test]
fn settings_fall_back_to_placeholders() {
    let s = notion_oauth_settings(None, None);
    assert_eq!(s.client_id, "YOUR_CLIENT_ID");
    assert_eq!(s.client_secret, "YOUR_CLIENT_SECRET");
    assert_eq!(s.auth_url, "https://api.notion.com/v1/oauth/authorize");
    assert_eq!(s.token_url, "https://api.notion.com/v1/oauth/token");
    assert_eq!(s.redirect_url, "http://localhost:8080/callback");
    assert_eq!(s.listen_address, "127.0.0.1:8080");
}

#[test]
fn settings_use_configured_credentials() {
    let s = notion_oauth_settings(Some("id-1".to_string()), Some("sec-2".to_string()));
    assert_eq!(s.client_id, "id-1");
    assert_eq!(s.client_secret, "sec-2");
}

#[test]
fn only_the_first_callback_delivers_a_code() {
    let mut slot = CallbackSlot::new();
    assert!(slot.waiting);
    assert_eq!(slot.accept("first".to_string()), Some("first".to_string()));
    assert!(!slot.waiting);
    assert_eq!(slot.accept("second".to_string()), None);
}

#[test]
fn token_exchange_outcomes() {
    let ok = token_outcome(Ok("tok-123".to_string()));
    assert_eq!(ok.path, NOTION_TOKEN_FILE);
    assert_eq!(ok.path, "notion_token.txt");
    assert_eq!(ok.contents, "tok-123");
    let err = token_outcome(Err("RequestError".to_string()));
    assert_eq!(err.path, LOGIN_ERROR_FILE);
    assert_eq!(err.path, "error.txt");
    assert_eq!(err.contents, "Fehler beim Login: RequestError");
}

#[test]
fn saved_token_is_what_the_export_sends() {
    let written = token_outcome(Ok("tok-xyz".to_string()));
    let file_contents = format!("{}\n", written.contents);
    let h = notion_headers(&file_contents).unwrap();
    assert_eq!(h.entries[0].value, "Bearer tok-xyz");
}

#[test]
fn authorize_url_carries_client_state_and_redirect() {
    let settings = notion_oauth_settings(Some("my id+1".to_string()), None);
    let url = authorize_url_for(&settings, "st-ATE_9").unwrap();
    assert_eq!(
        url,
        "https://api.notion.com/v1/oauth/authorize?response_type=code&client_id=my+id%2B1&state=st-ATE_9&redirect_uri=http%3A%2F%2Flocalhost%3A8080%2Fcallback"
    );
}

#[test]
fn authorize_url_needs_parsable_addresses() {
    let mut settings = notion_oauth_settings(None, None);
    settings.redirect_url = "not a url".to_string();
    assert_eq!(authorize_url_for(&settings, "s"), None);
    assert!(start_login(&settings).is_none());
}

#[test]
fn login_state_is_random_base64url() {
    let settings = notion_oauth_settings(None, None);
    let a = start_login(&settings).unwrap();
    let b = start_login(&settings).unwrap();
    assert_eq!(a.state.chars().count(), 22);
    assert!(a.state.chars().all(|c| c.is_ascii_alphanumeric() || c == '-' || c == '_'));
    assert_ne!(a.state, b.state);
    assert_eq!(a.url, authorize_url_for(&settings, &a.state).unwrap());
}
