use arti_web_poc::cookie::{clear_cookie, session_cookie, session_token, set_cookie, COOKIE_ATTRS};
use arti_web_poc::credentials::token_from;
use hyper::header::{HeaderMap, HeaderValue, COOKIE, HOST};

#[test]
fn cookies_carry_the_attributes() {
    assert_eq!(COOKIE_ATTRS, "HttpOnly; SameSite=Strict; Secure; Path=/");
    assert_eq!(
        set_cookie("abc"),
        "session=abc; HttpOnly; SameSite=Strict; Secure; Path=/"
    );
    assert_eq!(
        clear_cookie(),
        "session=; HttpOnly; SameSite=Strict; Secure; Path=/; Max-Age=0"
    );
}

#[test]
fn session_cookie_is_found_among_others() {
    assert_eq!(session_cookie("session=abc"), Some("abc".to_string()));
    assert_eq!(session_cookie("a=b; session=abc; c=d"), Some("abc".to_string()));
    assert_eq!(session_cookie("a=b;\tsession=abc  ;c"), Some("abc".to_string()));
    assert_eq!(session_cookie("session=1; session=2"), Some("1".to_string()));
    assert_eq!(session_cookie("session=a=b"), Some("a=b".to_string()));
    assert_eq!(session_cookie("session="), Some(String::new()));
    assert_eq!(session_cookie("mysession=abc"), None);
    assert_eq!(session_cookie("session"), None);
    assert_eq!(session_cookie("Session=abc"), None);
    assert_eq!(session_cookie(""), None);
}

#[test]
fn handed_out_token_comes_back() {
    let token = token_from(&[0x5a; 32]);
    let handed_out = set_cookie(&token);
    assert_eq!(session_cookie(&handed_out), Some(token.clone()));
    let returned = format!("theme=dark; session={token}; lang=en");
    assert_eq!(session_cookie(&returned), Some(token));
}

#[test]
fn session_token_is_read_from_the_headers() {
    let mut headers = HeaderMap::new();
    assert_eq!(session_token(&headers), None);
    headers.insert(HOST, HeaderValue::from_static("session=host"));
    assert_eq!(session_token(&headers), None);
    headers.insert(COOKIE, HeaderValue::from_static("x=y; session=abc"));
    assert_eq!(session_token(&headers), Some("abc".to_string()));
}

#[test]
fn only_the_first_cookie_header_counts() {
    let mut headers = HeaderMap::new();
    headers.append(COOKIE, HeaderValue::from_static("x=y"));
    headers.append(COOKIE, HeaderValue::from_static("session=abc"));
    assert_eq!(session_token(&headers), None);
}

#[test]
fn header_that_is_not_visible_ascii_is_ignored() {
    let mut headers = HeaderMap::new();
    headers.insert(COOKIE, HeaderValue::from_bytes(b"session=abc; x=\xc3\xa9").unwrap());
    assert_eq!(session_token(&headers), None);
    headers.insert(COOKIE, HeaderValue::from_bytes(b"x=y;\tsession=abc").unwrap());
    assert_eq!(session_token(&headers), Some("abc".to_string()));
}
