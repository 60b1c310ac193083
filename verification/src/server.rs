//! The decisions of the auth-gated web service.
//!
//! [`handle`] answers every request but one: for a login form that is small enough it asks for the
//! body. The body, once it was received, goes to [`receive_login`], or step by step through
//! [`read_login`], [`LoginAttempt::check`] and [`finish_login`], of which the second, the slow one,
//! needs no access to the state.

use hyper::header::{HeaderMap, HeaderValue};
use vstd::prelude::*;

use crate::cookie::{clear_cookie, session_token, set_cookie};
use crate::credentials::check_password;
use crate::form::{collect_body, parse_form};
use crate::pages::{
    login_page, ping_body, restricted_page, NOT_FOUND_PAGE, PING_REFUSED, TOO_LARGE_PAGE,
};
use crate::response::{
    html, json, redirect, Response, NOT_FOUND, OK, PAYLOAD_TOO_LARGE, UNAUTHORIZED,
};
use crate::state::AppState;
use crate::text::same_text;

verus! {

/// The largest login form that is read, in bytes.
pub const MAX_LOGIN_BODY_BYTES: u64 = 8192;

/// What is to be done about a request.
#[derive(Debug)]
pub enum Step {
    /// Send this response.
    Reply(Response),
    /// Receive the body of the login form, and process it.
    AwaitForm,
}

/// What a step says.
pub enum StepView {
    Reply(crate::response::ResponseView),
    AwaitForm,
}

impl View for Step {
    type V = StepView;

    open spec fn view(&self) -> StepView {
        match *self {
            Step::Reply(response) => StepView::Reply(response@),
            Step::AwaitForm => StepView::AwaitForm,
        }
    }
}

/// Whether a body is known to be small enough for a login form.
pub open spec fn within_limit(upper: Option<u64>) -> bool {
    upper matches Some(size) && size <= MAX_LOGIN_BODY_BYTES
}

/// Whether a body of at most `upper` bytes is small enough for a login form. A body without a
/// known bound is not.
pub fn login_body_within_limit(upper: Option<u64>) -> (r: bool)
    ensures
        r == within_limit(upper),
{
    match upper {
        Some(size) => size <= MAX_LOGIN_BODY_BYTES,
        None => false,
    }
}

/// The user whom a request with the session cookie `token` comes from.
pub open spec fn signed_in(
    state: crate::state::StateView,
    token: Option<Seq<char>>,
) -> Option<Seq<char>> {
    match token {
        Some(t) => state.user_of(t),
        None => None,
    }
}

/// The reply to `GET /`.
pub open spec fn landing(user: Option<Seq<char>>) -> crate::response::ResponseView {
    crate::response::redirect_reply(
        if user is Some {
            "/restricted"@
        } else {
            "/login"@
        },
        None,
    )
}

/// The reply to `GET /login`.
pub open spec fn login_form(user: Option<Seq<char>>) -> crate::response::ResponseView {
    if user is Some {
        crate::response::redirect_reply("/restricted"@, None)
    } else {
        crate::response::html_reply(OK, crate::pages::login_page_text(false))
    }
}

/// The step for `POST /login`.
pub open spec fn login_step(upper: Option<u64>) -> StepView {
    if within_limit(upper) {
        StepView::AwaitForm
    } else {
        StepView::Reply(crate::response::html_reply(PAYLOAD_TOO_LARGE, TOO_LARGE_PAGE@))
    }
}

/// The reply to `GET /restricted`.
pub open spec fn restricted(
    state: crate::state::StateView,
    user: Option<Seq<char>>,
) -> crate::response::ResponseView {
    match user {
        Some(name) => crate::response::html_reply(
            OK,
            crate::pages::restricted_page_text(state.restricted_html, name),
        ),
        None => crate::response::redirect_reply("/login"@, None),
    }
}

/// The reply to `GET /api/ping`.
pub open spec fn ping(
    state: crate::state::StateView,
    user: Option<Seq<char>>,
) -> crate::response::ResponseView {
    match user {
        Some(name) => crate::response::json_reply(
            OK,
            crate::pages::ping_text(name, state.next_ping() as nat),
        ),
        None => crate::response::json_reply(UNAUTHORIZED, PING_REFUSED@),
    }
}

/// The reply to `POST /logout`.
pub open spec fn logged_out() -> crate::response::ResponseView {
    crate::response::redirect_reply("/login"@, Some(crate::cookie::clear_cookie_text()))
}

/// The reply to a request that is none of the others.
pub open spec fn not_found() -> crate::response::ResponseView {
    crate::response::html_reply(NOT_FOUND, NOT_FOUND_PAGE@)
}

/// What is done about a request.
pub open spec fn routed(
    state: crate::state::StateView,
    method: Seq<char>,
    path: Seq<char>,
    token: Option<Seq<char>>,
    upper: Option<u64>,
) -> StepView {
    let user = signed_in(state, token);
    if method == "GET"@ && path == "/"@ {
        StepView::Reply(landing(user))
    } else if method == "GET"@ && path == "/login"@ {
        StepView::Reply(login_form(user))
    } else if method == "POST"@ && path == "/login"@ {
        login_step(upper)
    } else if method == "GET"@ && path == "/restricted"@ {
        StepView::Reply(restricted(state, user))
    } else if method == "GET"@ && path == "/api/ping"@ {
        StepView::Reply(ping(state, user))
    } else if method == "POST"@ && path == "/logout"@ {
        StepView::Reply(logged_out())
    } else {
        StepView::Reply(not_found())
    }
}

/// The state after a request: a ping of a signed-in user is counted, a logout ends the session,
/// and nothing else changes anything.
pub open spec fn state_after(
    state: crate::state::StateView,
    method: Seq<char>,
    path: Seq<char>,
    token: Option<Seq<char>>,
) -> crate::state::StateView {
    if method == "GET"@ && path == "/api/ping"@ && signed_in(state, token) is Some {
        state.with_ping()
    } else if method == "POST"@ && path == "/logout"@ && token is Some {
        state.without_session(token->0)
    } else {
        state
    }
}

/// The methods and the paths of the routes are different texts, and the places redirected to can
/// stand in a header.
pub proof fn routes_are_distinct()
    ensures
        "GET"@ != "POST"@,
        "/"@ != "/login"@,
        "/"@ != "/restricted"@,
        "/"@ != "/api/ping"@,
        "/"@ != "/logout"@,
        "/login"@ != "/restricted"@,
        "/login"@ != "/api/ping"@,
        "/login"@ != "/logout"@,
        "/restricted"@ != "/api/ping"@,
        "/restricted"@ != "/logout"@,
        "/api/ping"@ != "/logout"@,
        crate::response::header_safe("/login"@),
        crate::response::header_safe("/restricted"@),
{
    reveal_strlit("GET");
    reveal_strlit("POST");
    reveal_strlit("/");
    reveal_strlit("/login");
    reveal_strlit("/restricted");
    reveal_strlit("/api/ping");
    reveal_strlit("/logout");
    assert("GET"@.len() == 3 && "POST"@.len() == 4);
    assert("/"@.len() == 1 && "/login"@.len() == 6 && "/restricted"@.len() == 11);
    assert("/api/ping"@.len() == 9 && "/logout"@.len() == 7);
}

proof fn set_cookie_is_header_safe(token: Seq<char>)
    requires
        crate::credentials::token_shaped(token),
    ensures
        crate::response::header_safe(crate::cookie::set_cookie_text(token)),
{
    reveal_strlit("session=");
    reveal_strlit("; ");
    reveal_strlit("HttpOnly; SameSite=Strict; Secure; Path=/");
    let attrs = crate::cookie::COOKIE_ATTRS@;
    let text = crate::cookie::set_cookie_text(token);
    assert(crate::response::header_safe(attrs));
    assert forall|i: int| 0 <= i < text.len() implies #[trigger] text[i] == '\t' || (text[i] >= ' '
        && text[i] != '\u{7f}') by {
        if i < 8 {
            assert(text[i] == "session="@[i]);
        } else if i < 72 {
            assert(text[i] == token[i - 8]);
            assert(crate::credentials::lower_hex(token[i - 8]));
        } else if i < 74 {
            assert(text[i] == "; "@[i - 72]);
        } else {
            assert(text[i] == attrs[i - 74]);
        }
    }
}

proof fn clear_cookie_is_header_safe()
    ensures
        crate::response::header_safe(crate::cookie::clear_cookie_text()),
{
    reveal_strlit("session=; ");
    reveal_strlit("; Max-Age=0");
    reveal_strlit("HttpOnly; SameSite=Strict; Secure; Path=/");
    let attrs = crate::cookie::COOKIE_ATTRS@;
    let text = crate::cookie::clear_cookie_text();
    assert(crate::response::header_safe(attrs));
    assert forall|i: int| 0 <= i < text.len() implies #[trigger] text[i] == '\t' || (text[i] >= ' '
        && text[i] != '\u{7f}') by {
        if i < 10 {
            assert(text[i] == "session=; "@[i]);
        } else if i < 10 + attrs.len() {
            assert(text[i] == attrs[i - 10]);
        } else {
            assert(text[i] == "; Max-Age=0"@[i - 10 - attrs.len()]);
        }
    }
}

/// Decides what to do about a request with the session cookie `token` and a body of at most
/// `upper` bytes.
pub fn route(
    state: &mut AppState,
    method: &str,
    path: &str,
    token: Option<String>,
    upper: Option<u64>,
) -> (step: Step)
    requires
        old(state)@.well_formed(),
    ensures
        step@ == routed(old(state)@, method@, path@, crate::text::opt_text(token), upper),
        final(state)@ == state_after(old(state)@, method@, path@, crate::text::opt_text(token)),
        final(state)@.well_formed(),
        step matches Step::Reply(response) ==> crate::response::sendable(response@),
{
    proof {
        routes_are_distinct();
    }
    let current_user = match &token {
        Some(t) => state.user_for(t.as_str()),
        None => None,
    };
    let get = same_text(method, "GET");
    let post = same_text(method, "POST");
    if get && same_text(path, "/") {
        match current_user {
            Some(_) => Step::Reply(redirect("/restricted", None)),
            None => Step::Reply(redirect("/login", None)),
        }
    } else if get && same_text(path, "/login") {
        match current_user {
            Some(_) => Step::Reply(redirect("/restricted", None)),
            None => Step::Reply(html(OK, login_page(false))),
        }
    } else if post && same_text(path, "/login") {
        if login_body_within_limit(upper) {
            Step::AwaitForm
        } else {
            Step::Reply(html(PAYLOAD_TOO_LARGE, TOO_LARGE_PAGE.to_owned()))
        }
    } else if get && same_text(path, "/restricted") {
        match current_user {
            Some(user) => {
                let page = restricted_page(state.restricted_html(), user.as_str());
                Step::Reply(html(OK, page))
            },
            None => Step::Reply(redirect("/login", None)),
        }
    } else if get && same_text(path, "/api/ping") {
        match current_user {
            Some(user) => {
                let count = state.count_ping();
                Step::Reply(json(OK, ping_body(user.as_str(), count)))
            },
            None => Step::Reply(json(UNAUTHORIZED, PING_REFUSED.to_owned())),
        }
    } else if post && same_text(path, "/logout") {
        if let Some(t) = &token {
            state.destroy_session(t.as_str());
        }
        let cookie = clear_cookie();
        proof {
            clear_cookie_is_header_safe();
        }
        Step::Reply(redirect("/login", Some(cookie.as_str())))
    } else {
        Step::Reply(html(NOT_FOUND, NOT_FOUND_PAGE.to_owned()))
    }
}

/// Decides what to do about a request with the given headers and a body of at most `upper`
/// bytes.
pub fn handle(
    state: &mut AppState,
    method: &str,
    path: &str,
    headers: &HeaderMap<HeaderValue>,
    upper: Option<u64>,
) -> (step: Step)
    requires
        old(state)@.well_formed(),
    ensures
        ({
            let token = crate::cookie::session_token_in(crate::cookie::header_values(*headers));
            &&& step@ == routed(old(state)@, method@, path@, token, upper)
            &&& final(state)@ == state_after(old(state)@, method@, path@, token)
        }),
        final(state)@.well_formed(),
        step matches Step::Reply(response) ==> crate::response::sendable(response@),
{
    let token = session_token(headers);
    route(state, method, path, token, upper)
}

/// Whether `reply` and the state `after` are right for a login of `user` that was accepted or
/// not: an accepted one opens a session and hands out its token, another one changes nothing.
pub open spec fn login_answered(
    before: crate::state::StateView,
    user: Seq<char>,
    accepted: bool,
    after: crate::state::StateView,
    reply: crate::response::ResponseView,
) -> bool {
    if accepted {
        exists|token: Seq<char>|
            {
                &&& #[trigger] crate::credentials::token_shaped(token)
                &&& after == before.with_session(token, user)
                &&& reply == crate::response::redirect_reply(
                    "/restricted"@,
                    Some(crate::cookie::set_cookie_text(token)),
                )
            }
    } else {
        &&& after == before
        &&& reply == crate::response::html_reply(
            UNAUTHORIZED,
            crate::pages::login_page_text(true),
        )
    }
}

/// Answers a login of `user` whose credentials were accepted or not.
pub fn answer_login(state: &mut AppState, user: &str, accepted: bool) -> (reply: Response)
    requires
        old(state)@.well_formed(),
    ensures
        login_answered(old(state)@, user@, accepted, final(state)@, reply@),
        final(state)@.well_formed(),
        crate::response::sendable(reply@),
{
    if accepted {
        let token = state.create_session(user);
        let cookie = set_cookie(token.as_str());
        proof {
            routes_are_distinct();
            set_cookie_is_header_safe(token@);
        }
        redirect("/restricted", Some(cookie.as_str()))
    } else {
        html(UNAUTHORIZED, login_page(true))
    }
}

/// The value of the field `key` of a form: empty if there is none.
pub open spec fn field(form: Map<Seq<char>, Seq<char>>, key: Seq<char>) -> Seq<char> {
    if form.contains_key(key) {
        form[key]
    } else {
        Seq::empty()
    }
}

/// Whether `reply` and the state `after` are right for the login form `body`: the credentials in
/// it decide.
pub open spec fn form_answered(
    before: crate::state::StateView,
    body: Seq<char>,
    after: crate::state::StateView,
    reply: crate::response::ResponseView,
) -> bool {
    let form = crate::form::form_fields(body);
    let user = field(form, "username"@);
    let password = field(form, "password"@);
    login_answered(before, user, before.verifies(user, password), after, reply)
}

/// A login that was asked for, with the hash that its password is to be held against. Checking it
/// takes long and needs no access to the state.
pub struct LoginAttempt {
    user: String,
    password: String,
    hash: String,
}

/// What a login attempt holds.
pub struct LoginAttemptView {
    pub user: Seq<char>,
    pub password: Seq<char>,
    pub hash: Seq<char>,
}

impl View for LoginAttempt {
    type V = LoginAttemptView;

    closed spec fn view(&self) -> LoginAttemptView {
        LoginAttemptView { user: self.user@, password: self.password@, hash: self.hash@ }
    }
}

/// The login that the form `body` asks for.
pub open spec fn attempt_in(
    state: crate::state::StateView,
    body: Seq<char>,
) -> LoginAttemptView {
    let form = crate::form::form_fields(body);
    let user = field(form, "username"@);
    LoginAttemptView {
        user,
        password: field(form, "password"@),
        hash: state.hash_for(user),
    }
}

impl LoginAttempt {
    #[verifier::type_invariant]
    spec fn checkable(self) -> bool {
        crate::credentials::phc_computable(self.hash@)
    }

    /// The name of the user.
    pub fn user(&self) -> (r: &str)
        ensures
            r@ == self@.user,
    {
        self.user.as_str()
    }

    /// Holds the password against the hash.
    pub fn check(&self) -> (outcome: Option<bool>)
        ensures
            outcome == crate::credentials::argon2_match(
                self@.hash,
                vstd::utf8::encode_utf8(self@.password),
            ),
    {
        proof {
            use_type_invariant(self);
        }
        check_password(self.hash.as_str(), self.password.as_str().as_bytes())
    }
}

/// Reads the text of a login form.
pub fn read_login(state: &AppState, body: &str) -> (attempt: LoginAttempt)
    requires
        state@.well_formed(),
    ensures
        attempt@ == attempt_in(state@, body@),
{
    let form = parse_form(body);
    let user = match form.get("username") {
        Some(value) => value.as_str(),
        None => "",
    };
    let password = match form.get("password") {
        Some(value) => value.as_str(),
        None => "",
    };
    proof {
        reveal_strlit("");
        let fields = crate::form::form_fields(body@);
        assert(user@ =~= field(fields, "username"@));
        assert(password@ =~= field(fields, "password"@));
    }
    let hash = state.hash_to_check(user);
    LoginAttempt { user: user.to_owned(), password: password.to_owned(), hash: hash.to_owned() }
}

/// Answers a login whose check gave `outcome`.
pub fn finish_login(
    state: &mut AppState,
    attempt: &LoginAttempt,
    outcome: Option<bool>,
) -> (reply: Response)
    requires
        old(state)@.well_formed(),
    ensures
        login_answered(
            old(state)@,
            attempt@.user,
            old(state)@.accepts(attempt@.user, outcome),
            final(state)@,
            reply@,
        ),
        final(state)@.well_formed(),
        crate::response::sendable(reply@),
{
    let accepted = state.accept(attempt.user(), outcome);
    answer_login(state, attempt.user(), accepted)
}

/// Processes the text of a login form.
pub fn submit_login(state: &mut AppState, body: &str) -> (reply: Response)
    requires
        old(state)@.well_formed(),
    ensures
        form_answered(old(state)@, body@, final(state)@, reply@),
        final(state)@.well_formed(),
        crate::response::sendable(reply@),
{
    let attempt = read_login(state, body);
    let outcome = attempt.check();
    finish_login(state, &attempt, outcome)
}

/// Processes a received login form: the bytes of the body, or `None` if it could not be read to
/// its end.
pub fn receive_login(state: &mut AppState, received: Option<Vec<u8>>) -> (reply: Response)
    requires
        old(state)@.well_formed(),
    ensures
        form_answered(old(state)@, crate::form::body_text(received), final(state)@, reply@),
        final(state)@.well_formed(),
        crate::response::sendable(reply@),
{
    let body = collect_body(received);
    submit_login(state, body.as_str())
}

} // verus!
