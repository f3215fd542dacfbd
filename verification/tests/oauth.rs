use archeio::oauth::state_from_draws;
use archeio::error::Error;
use archeio::oauth::{
    auth_url, check_state, client_credentials, html_escape, loopback_reply, needs_refresh,
    parse_query, random_state, redirect_uri, status, tokens_after_exchange, tokens_after_refresh,
    OAuthStatus, StoredTokens, TokenResponse,
};
use archeio::time::Timestamp;

fn ts(secs: i64) -> Timestamp {
    Timestamp::new(secs, 0).unwrap()
}

fn stored() -> StoredTokens {
    StoredTokens { access_token: "a".into(), refresh_token: "r".into(), expires_at: ts(1000) }
}

#[test]
fn account_status() {
    assert_eq!(status(&Ok(Some(stored())), true), OAuthStatus { connected: true, client_present: true });
    assert_eq!(status(&Ok(None), true), OAuthStatus { connected: false, client_present: true });
    assert_eq!(status(&Err(Error::Keyring("x".into())), false), OAuthStatus { connected: false, client_present: false });
}

#[test]
fn refresh_thirty_seconds_early() {
    assert!(!needs_refresh(ts(969), ts(1000)));
    assert!(needs_refresh(ts(970), ts(1000)));
    assert!(needs_refresh(ts(2000), ts(1000)));
    assert!(!needs_refresh(Timestamp::new(969, 999_999_999).unwrap(), ts(1000)));
}

#[test]
fn exchange_keeps_tokens_and_expiry() {
    let resp = TokenResponse { access_token: "at".into(), refresh_token: Some("rt".into()), expires_in: 3599 };
    let t = tokens_after_exchange(resp, ts(1000)).unwrap();
    assert_eq!(t.access_token, "at");
    assert_eq!(t.refresh_token, "rt");
    assert_eq!(t.expires_at, ts(4599));
}

#[test]
fn exchange_without_refresh_token_fails() {
    let resp = TokenResponse { access_token: "at".into(), refresh_token: None, expires_in: 3599 };
    let e = tokens_after_exchange(resp, ts(1000)).unwrap_err();
    assert_eq!(e, Error::Other("Google did not return a refresh_token. Revoke the app at myaccount.google.com/permissions and try Connect again.".into()));
}

#[test]
fn refresh_keeps_old_refresh_token() {
    let resp = TokenResponse { access_token: "new".into(), refresh_token: None, expires_in: 60 };
    let t = tokens_after_refresh(resp, "old-rt", ts(10));
    assert_eq!((t.access_token.as_str(), t.refresh_token.as_str()), ("new", "old-rt"));
    assert_eq!(t.expires_at, ts(70));
    let resp = TokenResponse { access_token: "new".into(), refresh_token: Some("rotated".into()), expires_in: 60 };
    assert_eq!(tokens_after_refresh(resp, "old-rt", ts(10)).refresh_token, "rotated");
}

#[test]
fn consent_url_is_percent_encoded() {
    let redirect = redirect_uri(5000);
    assert_eq!(redirect, "http://127.0.0.1:5000");
    let url = auth_url("id 1.apps", &redirect, "aB3");
    assert_eq!(
        url,
        "https://accounts.google.com/o/oauth2/v2/auth?client_id=id%201.apps&redirect_uri=http%3A%2F%2F127.0.0.1%3A5000&response_type=code&scope=https%3A%2F%2Fwww.googleapis.com%2Fauth%2Fyoutube&access_type=offline&prompt=consent&state=aB3"
    );
}

#[test]
fn random_state_shape() {
    let a = random_state();
    let b = random_state();
    assert_eq!(a.chars().count(), 24);
    assert!(a.chars().all(|c| c.is_ascii_alphanumeric()));
    assert_ne!(a, b);
}

#[test]
fn state_must_match() {
    assert_eq!(check_state(&"abc".to_string(), &"abc".to_string()), Ok(()));
    assert_eq!(
        check_state(&"abd".to_string(), &"abc".to_string()),
        Err(Error::Other("OAuth state mismatch (CSRF) - try again".into()))
    );
}

#[test]
fn pasted_credentials() {
    assert_eq!(client_credentials("  id  ", "\tsecret\n").unwrap(), ("id".to_string(), "secret".to_string()));
    let want = Err(Error::Other("Both Client ID and Client Secret are required.".into()));
    assert_eq!(client_credentials("   ", "s"), want);
    assert_eq!(client_credentials("id", ""), want);
}

#[test]
fn escaping_html() {
    assert_eq!(html_escape("a<b>&c"), "a&lt;b&gt;&amp;c");
    assert_eq!(html_escape("&lt;"), "&amp;lt;");
    assert_eq!(html_escape(""), "");
}

#[test]
fn query_parameters() {
    assert_eq!(
        parse_query("/?code=4%2F0Ab&state=xyz&scope=a"),
        (Some("4/0Ab".to_string()), Some("xyz".to_string()), None)
    );
    assert_eq!(parse_query("/favicon.ico"), (None, None, None));
    assert_eq!(parse_query("/?error=access_denied"), (None, None, Some("access_denied".to_string())));
    // Last occurrence wins; pieces without '=' are skipped; '+' stays.
    assert_eq!(parse_query("/?code=1&junk&code=a+b"), (Some("a+b".to_string()), None, None));
    // Malformed escapes are kept; invalid UTF-8 decodes to nothing.
    assert_eq!(parse_query("/?state=%zz%4"), (None, Some("%zz%4".to_string()), None));
    assert_eq!(parse_query("/?state=%ff"), (None, Some(String::new()), None));
    assert_eq!(parse_query("/?code"), (None, None, None));
    assert_eq!(parse_query("/?"), (None, None, None));
}

#[test]
fn loopback_replies() {
    let ok = loopback_reply("GET /?code=c1&state=s1 HTTP/1.1\r\n");
    assert_eq!(ok.status, 200);
    assert_eq!(ok.content_type, "text/html");
    assert_eq!(ok.body, "<h1>Archeio is connected.</h1><p>You can close this window.</p>");
    assert_eq!(ok.outcome, Some(Ok(("c1".to_string(), "s1".to_string()))));

    let probe = loopback_reply("GET /favicon.ico HTTP/1.1\r\n");
    assert_eq!((probe.status, probe.content_type.as_str(), probe.body.as_str()), (404, "text/plain", "not found"));
    assert_eq!(probe.outcome, None);

    let only_code = loopback_reply("GET /?code=c1 HTTP/1.1");
    assert_eq!(only_code.status, 404);

    let denied = loopback_reply("GET /?error=%3Cb%3Edenied&code=c HTTP/1.1");
    assert_eq!(denied.status, 400);
    assert_eq!(denied.body, "<h1>Archeio - OAuth error</h1><p>&lt;b&gt;denied</p><p>You can close this window.</p>");
    assert_eq!(denied.outcome, Some(Err(Error::Other("OAuth error from Google: <b>denied".into()))));

    let empty = loopback_reply("");
    assert_eq!(empty.status, 404);
}

#[test]
fn decoding_undoes_encoding() {
    for text in ["a b&c=d", "ü/é?#%", "plain-._~", ""] {
        let path = format!("/?state={}", urlencoding::encode(text));
        assert_eq!(parse_query(&path).1, Some(text.to_string()));
    }
}

#[test]
fn escaped_text_has_no_markup() {
    let e = html_escape("<script>alert('x')</script> & <b>");
    assert!(!e.contains('<') && !e.contains('>'));
}

#[test]
fn state_text_from_draws() {
    assert_eq!(state_from_draws(&vec![0, 9, 10, 35, 36, 61]), "09azAZ");
    assert_eq!(state_from_draws(&vec![]), "");
}
