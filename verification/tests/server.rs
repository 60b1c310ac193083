use arti_web_poc::pages::{login_page, LOGIN_ERROR};
use arti_web_poc::response::{html, json, redirect, Response};
use arti_web_poc::server::{
    answer_login, finish_login, handle, login_body_within_limit, read_login, receive_login, route,
    submit_login, Step, MAX_LOGIN_BODY_BYTES,
};
use arti_web_poc::state::AppState;
use hyper::header::{HeaderMap, HeaderValue, COOKIE};

fn demo() -> AppState {
    AppState::demo("<p>Hi __USERNAME__</p>".to_string())
}

fn reply(step: Step) -> Response {
    match step {
        Step::Reply(response) => response,
        Step::AwaitForm => panic!("a response was expected"),
    }
}

fn get(state: &mut AppState, path: &str, token: Option<&str>) -> Response {
    reply(route(state, "GET", path, token.map(str::to_string), Some(0)))
}

fn header<'a>(response: &'a Response, name: &str) -> Option<&'a str> {
    response.headers.iter().find(|h| h.0 == name).map(|h| h.1.as_str())
}

fn pairs(list: &[(&str, &str)]) -> Vec<(String, String)> {
    list.iter().map(|h| (h.0.to_string(), h.1.to_string())).collect()
}

#[test]
fn html_response() {
    let r = html(404, "<h1>x</h1>".to_string());
    assert_eq!(r.status, 404);
    assert_eq!(r.body, "<h1>x</h1>");
    assert_eq!(
        r.headers,
        pairs(&[("cache-control", "no-store"), ("content-type", "text/html; charset=utf-8")])
    );
}

#[test]
fn json_response() {
    let r = json(200, "{}".to_string());
    assert_eq!(r.status, 200);
    assert_eq!(r.body, "{}");
    assert_eq!(
        r.headers,
        pairs(&[("cache-control", "no-store"), ("content-type", "application/json")])
    );
}

#[test]
fn redirect_response() {
    let r = redirect("/login", None);
    assert_eq!(r.status, 303);
    assert_eq!(r.body, "");
    assert_eq!(r.headers, pairs(&[("cache-control", "no-store"), ("location", "/login")]));
    let r = redirect("/", Some("a=b"));
    assert_eq!(
        r.headers,
        pairs(&[("cache-control", "no-store"), ("location", "/"), ("set-cookie", "a=b")])
    );
}

#[test]
fn login_form_size_is_limited() {
    assert_eq!(MAX_LOGIN_BODY_BYTES, 8 * 1024);
    assert!(login_body_within_limit(Some(0)));
    assert!(login_body_within_limit(Some(8192)));
    assert!(!login_body_within_limit(Some(8193)));
    assert!(!login_body_within_limit(None));
}

#[test]
fn no_access_without_session() {
    let mut state = demo();
    for token in [None, Some(""), Some("unknown")] {
        let r = get(&mut state, "/", token);
        assert_eq!((r.status, header(&r, "location")), (303, Some("/login")));
        let r = get(&mut state, "/restricted", token);
        assert_eq!((r.status, header(&r, "location")), (303, Some("/login")));
        let r = get(&mut state, "/login", token);
        assert_eq!((r.status, r.body), (200, login_page(false)));
        let r = get(&mut state, "/api/ping", token);
        assert_eq!(r.status, 401);
        assert_eq!(r.body, "{\"status\":\"error\",\"message\":\"not authenticated\"}");
        assert_eq!(header(&r, "content-type"), Some("application/json"));
    }
    let token = state.create_session("agent");
    assert_eq!(state.count_ping(), 1);
    assert_eq!(state.user_for(&token), Some("agent".to_string()));
}

#[test]
fn access_with_session() {
    let mut state = demo();
    let token = state.create_session("<agent>");
    let token = Some(token.as_str());
    let r = get(&mut state, "/", token);
    assert_eq!((r.status, header(&r, "location")), (303, Some("/restricted")));
    let r = get(&mut state, "/login", token);
    assert_eq!((r.status, header(&r, "location")), (303, Some("/restricted")));
    let r = get(&mut state, "/restricted", token);
    assert_eq!((r.status, r.body.as_str()), (200, "<p>Hi &lt;agent&gt;</p>"));
    for count in 1..4 {
        let r = get(&mut state, "/api/ping", token);
        assert_eq!(r.status, 200);
        assert_eq!(
            r.body,
            format!(
                "{{\"status\":\"ok\",\"user\":\"<agent>\",\"message\":\"authenticated request over Tor\",\"count\":{count}}}"
            )
        );
    }
}

#[test]
fn login_form_is_awaited_only_within_the_limit() {
    let mut state = demo();
    assert!(matches!(
        route(&mut state, "POST", "/login", None, Some(8192)),
        Step::AwaitForm
    ));
    for upper in [Some(8193), None] {
        let r = reply(route(&mut state, "POST", "/login", None, upper));
        assert_eq!((r.status, r.body.as_str()), (413, "<h1>413 payload too large</h1>"));
    }
}

#[test]
fn other_requests_are_not_found() {
    let mut state = demo();
    for (method, path) in [
        ("GET", "/logout"),
        ("POST", "/"),
        ("POST", "/restricted"),
        ("HEAD", "/"),
        ("get", "/"),
        ("GET", "/login/"),
        ("GET", ""),
        ("DELETE", "/login"),
    ] {
        let r = reply(route(&mut state, method, path, None, Some(0)));
        assert_eq!((r.status, r.body.as_str()), (404, "<h1>404 not found</h1>"));
    }
}

#[test]
fn logout_ends_the_session() {
    let mut state = demo();
    let token = state.create_session("agent");
    let other = state.create_session("agent");
    let r = reply(route(&mut state, "POST", "/logout", Some(token.clone()), Some(0)));
    assert_eq!((r.status, header(&r, "location")), (303, Some("/login")));
    assert_eq!(
        header(&r, "set-cookie"),
        Some("session=; HttpOnly; SameSite=Strict; Secure; Path=/; Max-Age=0")
    );
    assert_eq!(state.user_for(&token), None);
    assert_eq!(get(&mut state, "/restricted", Some(&token)).status, 303);
    assert_eq!(get(&mut state, "/restricted", Some(&other)).status, 200);
    let r = reply(route(&mut state, "POST", "/logout", None, Some(0)));
    assert_eq!(r.status, 303);
    assert_eq!(state.user_for(&other), Some("agent".to_string()));
}

#[test]
fn accepted_login_gives_access() {
    let mut state = demo();
    let r = submit_login(&mut state, "username=agent&password=tor%2Drocks");
    assert_eq!((r.status, header(&r, "location")), (303, Some("/restricted")));
    let cookie = header(&r, "set-cookie").unwrap();
    let sent_back = cookie.split(';').next().unwrap().to_string();
    let mut headers = HeaderMap::new();
    headers.insert(COOKIE, HeaderValue::from_str(&sent_back).unwrap());
    let r = reply(handle(&mut state, "GET", "/restricted", &headers, Some(0)));
    assert_eq!((r.status, r.body.as_str()), (200, "<p>Hi agent</p>"));
    let r = reply(handle(&mut state, "POST", "/logout", &headers, Some(0)));
    assert_eq!(r.status, 303);
    let r = reply(handle(&mut state, "GET", "/restricted", &headers, Some(0)));
    assert_eq!((r.status, header(&r, "location")), (303, Some("/login")));
}

#[test]
fn refused_login_changes_nothing() {
    let mut state = demo();
    for body in [
        "username=agent&password=wrong",
        "username=nobody&password=tor-rocks",
        "username=nobody&password=this+password+matches+nothing",
        "password=tor-rocks",
        "username=agent",
        "",
    ] {
        let r = submit_login(&mut state, body);
        assert_eq!(r.status, 401);
        assert_eq!(r.body, login_page(true));
        assert_eq!(header(&r, "set-cookie"), None);
    }
}

#[test]
fn answer_follows_the_verdict() {
    let mut state = demo();
    let r = answer_login(&mut state, "anyone", true);
    let cookie = header(&r, "set-cookie").unwrap();
    let token = &cookie["session=".len().."session=".len() + 64];
    assert_eq!(cookie, format!("session={token}; HttpOnly; SameSite=Strict; Secure; Path=/"));
    assert_eq!(state.user_for(token), Some("anyone".to_string()));
    assert_eq!(answer_login(&mut state, "anyone", false).status, 401);
}

#[test]
fn requests_without_cookie_are_anonymous() {
    let mut state = demo();
    let headers = HeaderMap::new();
    let r = reply(handle(&mut state, "GET", "/api/ping", &headers, Some(0)));
    assert_eq!(r.status, 401);
    assert!(matches!(
        handle(&mut state, "POST", "/login", &headers, Some(10)),
        Step::AwaitForm
    ));
}

#[test]
fn no_reply_is_stored() {
    let mut state = demo();
    let token = state.create_session("agent");
    for path in ["/", "/login", "/restricted", "/api/ping", "/none"] {
        for t in [None, Some(token.as_str())] {
            let r = get(&mut state, path, t);
            assert_eq!(r.headers[0], ("cache-control".to_string(), "no-store".to_string()));
        }
    }
    let r = submit_login(&mut state, "");
    assert_eq!(header(&r, "cache-control"), Some("no-store"));
}

#[test]
fn no_session_without_login() {
    let mut state = demo();
    let token = "ab".repeat(32);
    for (method, path) in [
        ("GET", "/"),
        ("GET", "/login"),
        ("POST", "/login"),
        ("GET", "/restricted"),
        ("GET", "/api/ping"),
        ("POST", "/logout"),
        ("GET", "/other"),
    ] {
        route(&mut state, method, path, Some(token.clone()), Some(0));
        assert_eq!(state.user_for(&token), None);
        assert_eq!(submit_login(&mut state, "username=agent&password=wrong").status, 401);
        assert_eq!(state.user_for(&token), None);
    }
    assert_eq!(get(&mut state, "/restricted", Some(&token)).status, 303);
}

#[test]
fn series_keeps_users() {
    let mut state = demo();
    let hash = state.hash_to_check("agent").to_string();
    let dummy = state.hash_to_check("nobody").to_string();
    submit_login(&mut state, "username=nobody&password=x");
    submit_login(&mut state, "username=agent&password=tor-rocks");
    let token = state.create_session("nobody");
    for (method, path) in [("GET", "/api/ping"), ("POST", "/logout"), ("PUT", "/login")] {
        route(&mut state, method, path, Some(token.clone()), Some(0));
        assert_eq!(state.hash_to_check("agent"), hash);
        assert_eq!(state.hash_to_check("nobody"), dummy);
        assert_eq!(state.restricted_html(), "<p>Hi __USERNAME__</p>");
    }
}

#[test]
fn sessions_come_from_logins() {
    let mut state = demo();
    let r = submit_login(&mut state, "password=tor-rocks&username=agent");
    let cookie = header(&r, "set-cookie").unwrap();
    let token = cookie["session=".len().."session=".len() + 64].to_string();
    assert_eq!(submit_login(&mut state, "username=nobody&password=tor-rocks").status, 401);
    get(&mut state, "/restricted", Some(&"0".repeat(64)));
    assert_eq!(state.user_for(&token), Some("agent".to_string()));
    assert_eq!(state.user_for(&"0".repeat(64)), None);
}

#[test]
fn session_lasts_until_its_logout() {
    let mut state = demo();
    let token = state.create_session("agent");
    let other = state.create_session("other");
    for (method, path, cookie) in [
        ("GET", "/api/ping", Some(token.clone())),
        ("POST", "/login", Some(token.clone())),
        ("GET", "/logout", Some(token.clone())),
        ("POST", "/logout", Some(other)),
        ("POST", "/logout", None),
    ] {
        route(&mut state, method, path, cookie, Some(0));
        assert_eq!(state.user_for(&token), Some("agent".to_string()));
        assert_eq!(submit_login(&mut state, "username=agent&password=tor-rocks").status, 303);
        assert_eq!(state.user_for(&token), Some("agent".to_string()));
    }
    route(&mut state, "POST", "/logout", Some(token.clone()), Some(0));
    assert_eq!(state.user_for(&token), None);
}

#[test]
fn logged_out_token_stays_worthless() {
    let mut state = demo();
    let token = state.create_session("agent");
    route(&mut state, "POST", "/logout", Some(token.clone()), Some(0));
    for path in ["/", "/login", "/restricted", "/api/ping"] {
        get(&mut state, path, Some(&token));
        assert_eq!(submit_login(&mut state, "username=agent&password=tor-rocks").status, 303);
        assert_eq!(state.user_for(&token), None);
    }
}

#[test]
fn ping_is_answered_with_its_number() {
    let mut state = demo();
    let token = state.create_session("agent");
    for count in 1..4 {
        assert_eq!(get(&mut state, "/api/ping", None).status, 401);
        submit_login(&mut state, "username=agent&password=wrong");
        submit_login(&mut state, "username=agent&password=tor-rocks");
        let r = get(&mut state, "/api/ping", Some(&token));
        assert!(r.body.ends_with(&format!("\"count\":{count}}}")));
        get(&mut state, "/restricted", Some(&token));
    }
}

#[test]
fn received_bytes_are_processed() {
    let mut state = demo();
    let body = b"username=agent&password=tor-rocks".to_vec();
    assert_eq!(receive_login(&mut state, Some(body)).status, 303);
    let body = b"username=agent&password=tor-rocks\xff".to_vec();
    assert_eq!(receive_login(&mut state, Some(body)).status, 401);
    assert_eq!(receive_login(&mut state, None).status, 401);
    for body in ["username=%€", "username=%aé&password=%+4"] {
        let r = receive_login(&mut state, Some(body.as_bytes().to_vec()));
        assert_eq!((r.status, r.body), (401, login_page(true)));
    }
}

#[test]
fn error_message_shows_once() {
    assert_eq!(LOGIN_ERROR, "<p class=\"err\">Invalid username or password.</p>");
    assert_eq!(login_page(true).matches(LOGIN_ERROR).count(), 1);
    assert_eq!(login_page(false).matches(LOGIN_ERROR).count(), 0);
    assert_eq!(login_page(true).replace(LOGIN_ERROR, ""), login_page(false));
}

#[test]
fn refused_logins_look_alike() {
    let mut state = demo();
    let mut other = demo();
    other.create_session("agent");
    let wrong = submit_login(&mut state, "username=agent&password=wrong");
    let unknown = submit_login(&mut other, "username=mallory-7&password=tor-rocks");
    assert_eq!(wrong.status, 401);
    assert_eq!(wrong.status, unknown.status);
    assert_eq!(wrong.headers, unknown.headers);
    assert_eq!(wrong.body, unknown.body);
    assert!(!unknown.body.contains("mallory-7"));
}

#[test]
fn login_steps_may_be_parted() {
    let mut state = demo();
    let attempt = read_login(&state, "username=agent&password=tor%2Drocks");
    assert_eq!(attempt.user(), "agent");
    let token = state.create_session("someone");
    let outcome = attempt.check();
    assert_eq!(outcome, Some(true));
    state.destroy_session(&token);
    let r = finish_login(&mut state, &attempt, outcome);
    assert_eq!((r.status, header(&r, "location")), (303, Some("/restricted")));
    assert_eq!(finish_login(&mut state, &attempt, Some(false)).status, 401);
    assert_eq!(finish_login(&mut state, &attempt, None).status, 401);
    let attempt = read_login(&state, "username=nobody&password=this+password+matches+nothing");
    assert_eq!(attempt.check(), Some(true));
    assert_eq!(finish_login(&mut state, &attempt, Some(true)).status, 401);
    assert_eq!(read_login(&state, "username=agent&password=no").check(), Some(false));
}
