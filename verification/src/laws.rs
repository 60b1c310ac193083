//! What holds of the service as a whole.

use vstd::prelude::*;

use crate::response::{ResponseView, OK, UNAUTHORIZED};
use crate::server::StepView;
use crate::state::StateView;

verus! {

/// Without a valid session the restricted page redirects to the login, the API refuses with 401,
/// and neither request changes anything.
pub proof fn no_access_without_session(
    state: StateView,
    token: Option<Seq<char>>,
    upper: Option<u64>,
)
    requires
        crate::server::signed_in(state, token) is None,
    ensures
        crate::server::routed(state, "GET"@, "/restricted"@, token, upper) == StepView::Reply(
            crate::response::redirect_reply("/login"@, None),
        ),
        crate::server::routed(state, "GET"@, "/api/ping"@, token, upper) == StepView::Reply(
            crate::response::json_reply(UNAUTHORIZED, crate::pages::PING_REFUSED@),
        ),
        crate::server::state_after(state, "GET"@, "/restricted"@, token) == state,
        crate::server::state_after(state, "GET"@, "/api/ping"@, token) == state,
{
    crate::server::routes_are_distinct();
}

/// Without a valid session the only reply with the status 200, whatever the request, is the login
/// form.
pub proof fn only_the_login_form_is_open(
    state: StateView,
    method: Seq<char>,
    path: Seq<char>,
    token: Option<Seq<char>>,
    upper: Option<u64>,
)
    requires
        crate::server::signed_in(state, token) is None,
        crate::server::routed(state, method, path, token, upper) matches StepView::Reply(reply)
            && reply.status == OK,
    ensures
        method == "GET"@,
        path == "/login"@,
        crate::server::routed(state, method, path, token, upper) == StepView::Reply(
            crate::response::html_reply(OK, crate::pages::login_page_text(false)),
        ),
{
}

/// With a valid session the restricted page shows the name of the user, and the API answers with
/// it.
pub proof fn access_with_session(
    state: StateView,
    token: Seq<char>,
    user: Seq<char>,
    upper: Option<u64>,
)
    requires
        state.user_of(token) == Some(user),
    ensures
        crate::server::routed(state, "GET"@, "/restricted"@, Some(token), upper)
            == StepView::Reply(
            crate::response::html_reply(
                OK,
                crate::pages::restricted_page_text(state.restricted_html, user),
            ),
        ),
        crate::server::routed(state, "GET"@, "/api/ping"@, Some(token), upper)
            == StepView::Reply(
            crate::response::json_reply(
                OK,
                crate::pages::ping_text(user, state.next_ping() as nat),
            ),
        ),
{
    crate::server::routes_are_distinct();
}

/// A session that was opened is found under its token and no other session changes; ended, it is
/// found no more, and again no other session changes.
pub proof fn sessions_come_and_go(
    state: StateView,
    token: Seq<char>,
    user: Seq<char>,
    other: Seq<char>,
)
    ensures
        state.with_session(token, user).user_of(token) == Some(user),
        state.without_session(token).user_of(token) is None,
        other != token ==> state.with_session(token, user).user_of(other) == state.user_of(other),
        other != token ==> state.without_session(token).user_of(other) == state.user_of(other),
        state.with_session(token, user).without_session(token) == state.without_session(token),
        state.user_of(token) is None ==> state.with_session(token, user).without_session(token)
            == state,
{
    assert(state.with_session(token, user).without_session(token).sessions
        =~= state.without_session(token).sessions);
    if state.user_of(token) is None {
        assert(state.with_session(token, user).without_session(token).sessions
            =~= state.sessions);
    }
}

/// After a logout the token is worth nothing: it names no user and the restricted page redirects
/// to the login. The sessions with other tokens stay.
pub proof fn logout_ends_the_session(
    state: StateView,
    token: Seq<char>,
    other: Seq<char>,
    upper: Option<u64>,
)
    ensures
        ({
            let after = crate::server::state_after(state, "POST"@, "/logout"@, Some(token));
            &&& crate::server::signed_in(after, Some(token)) is None
            &&& crate::server::routed(after, "GET"@, "/restricted"@, Some(token), upper)
                == StepView::Reply(crate::response::redirect_reply("/login"@, None))
            &&& other != token ==> after.user_of(other) == state.user_of(other)
        }),
{
    crate::server::routes_are_distinct();
    let after = crate::server::state_after(state, "POST"@, "/logout"@, Some(token));
    no_access_without_session(after, Some(token), upper);
}

/// An accepted login hands out a cookie that gives access: in the next request of the browser it
/// is read as the token of a session of that user, and the restricted page shows. The sessions
/// with other tokens stay.
pub proof fn accepted_login_gives_access(
    before: StateView,
    user: Seq<char>,
    after: StateView,
    reply: ResponseView,
    upper: Option<u64>,
)
    requires
        crate::server::login_answered(before, user, true, after, reply),
    ensures
        exists|token: Seq<char>|
            {
                let cookie = crate::cookie::session_cookie_in(
                    crate::cookie::returned_cookie(token),
                );
                &&& #[trigger] crate::credentials::token_shaped(token)
                &&& reply == crate::response::redirect_reply(
                    "/restricted"@,
                    Some(crate::cookie::set_cookie_text(token)),
                )
                &&& cookie == Some(token)
                &&& crate::server::signed_in(after, cookie) == Some(user)
                &&& crate::server::routed(after, "GET"@, "/restricted"@, cookie, upper)
                    == StepView::Reply(
                    crate::response::html_reply(
                        OK,
                        crate::pages::restricted_page_text(before.restricted_html, user),
                    ),
                )
                &&& forall|other: Seq<char>|
                    other != token ==> #[trigger] after.user_of(other) == before.user_of(other)
            },
{
    let token = choose|token: Seq<char>|
        {
            &&& #[trigger] crate::credentials::token_shaped(token)
            &&& after == before.with_session(token, user)
            &&& reply == crate::response::redirect_reply(
                "/restricted"@,
                Some(crate::cookie::set_cookie_text(token)),
            )
        };
    no_cookie_in_empty_header();
    crate::cookie::handed_out_token_comes_back(Seq::empty(), token, Seq::empty());
    sessions_come_and_go(before, token, user, token);
    access_with_session(after, token, user, upper);
}

proof fn no_cookie_in_empty_header()
    ensures
        crate::cookie::session_cookie_in(Seq::empty()) is None,
{
    reveal_strlit("session=");
    let list = crate::text::pieces(Seq::<char>::empty(), ';');
    assert(list =~= seq![Seq::<char>::empty()]);
    assert(crate::text::trimmed(list[0]) =~= Seq::<char>::empty());
    assert(list.skip(1) =~= Seq::<Seq<char>>::empty());
    reveal_with_fuel(crate::cookie::session_in, 2);
}

/// A login that is not accepted opens no session and sets no cookie.
pub proof fn refused_login_changes_nothing(
    before: StateView,
    user: Seq<char>,
    after: StateView,
    reply: ResponseView,
)
    requires
        crate::server::login_answered(before, user, false, after, reply),
    ensures
        after == before,
        reply.status == UNAUTHORIZED,
        forall|i: int|
            0 <= i < reply.headers.len() ==> (#[trigger] reply.headers[i]).0 != "set-cookie"@,
{
    reveal_strlit("set-cookie");
    reveal_strlit("cache-control");
    reveal_strlit("content-type");
    assert("set-cookie"@.len() == 10 && "cache-control"@.len() == 13 && "content-type"@.len()
        == 12);
}

/// Refused logins cannot be told apart: every one is answered with the same status, headers and
/// body, whatever the name that was typed, and none changes anything.
pub proof fn refused_logins_look_alike(
    before: StateView,
    user: Seq<char>,
    after: StateView,
    reply: ResponseView,
    other_before: StateView,
    other_user: Seq<char>,
    other_after: StateView,
    other_reply: ResponseView,
)
    requires
        crate::server::login_answered(before, user, false, after, reply),
        crate::server::login_answered(other_before, other_user, false, other_after, other_reply),
    ensures
        reply == other_reply,
        reply == crate::response::html_reply(UNAUTHORIZED, crate::pages::login_page_text(true)),
        after == before,
        other_after == other_before,
{
}

/// Nobody learns from the answer to a form which names exist: one with an unknown name is answered
/// as one with a wrong password for a user who exists.
pub proof fn unknown_user_looks_like_wrong_password(
    before: StateView,
    unknown: Seq<char>,
    any: Seq<char>,
    after: StateView,
    reply: ResponseView,
    user: Seq<char>,
    wrong: Seq<char>,
    other_after: StateView,
    other_reply: ResponseView,
)
    requires
        !before.users.contains_key(unknown),
        before.users.contains_key(user),
        crate::credentials::argon2_match(
            before.users[user],
            vstd::utf8::encode_utf8(wrong),
        ) != Some(true),
        crate::server::form_answered(
            before,
            crate::form_laws::login_body(unknown, any),
            after,
            reply,
        ),
        crate::server::form_answered(
            before,
            crate::form_laws::login_body(user, wrong),
            other_after,
            other_reply,
        ),
    ensures
        reply == other_reply,
        after == before,
        other_after == before,
{
    typed_credentials_are_checked(unknown, any);
    typed_credentials_are_checked(user, wrong);
}

/// Only a user who exists can sign in.
pub proof fn unknown_user_is_refused(state: StateView, user: Seq<char>, password: Seq<char>)
    requires
        !state.users.contains_key(user),
    ensures
        !state.verifies(user, password),
{
}

/// A user whose stored hash was made from a password can sign in with that password: of such a
/// hash, [`crate::credentials::hash_password`] promises that it matches.
pub proof fn right_password_is_accepted(state: StateView, user: Seq<char>, password: Seq<char>)
    requires
        state.users.contains_key(user),
        crate::credentials::argon2_match(
            state.users[user],
            vstd::utf8::encode_utf8(password),
        ) == Some(true),
    ensures
        state.verifies(user, password),
{
}

/// The credentials that are checked are those that were typed into the form.
pub proof fn typed_credentials_are_checked(user: Seq<char>, password: Seq<char>)
    ensures
        ({
            let form = crate::form::form_fields(crate::form_laws::login_body(user, password));
            &&& crate::server::field(form, "username"@) == user
            &&& crate::server::field(form, "password"@) == password
        }),
{
    reveal_strlit("username");
    reveal_strlit("password");
    assert("username"@[0] != "password"@[0]);
    crate::form_laws::login_form_arrives(user, password);
}

/// A user who types the password that their stored hash was made from is signed in by the answer
/// to the form, under the token that the answer hands out.
pub proof fn right_credentials_sign_in(
    before: StateView,
    user: Seq<char>,
    password: Seq<char>,
    after: StateView,
    reply: ResponseView,
)
    requires
        before.users.contains_key(user),
        crate::credentials::argon2_match(
            before.users[user],
            vstd::utf8::encode_utf8(password),
        ) == Some(true),
        crate::server::form_answered(
            before,
            crate::form_laws::login_body(user, password),
            after,
            reply,
        ),
    ensures
        exists|token: Seq<char>|
            {
                &&& #[trigger] crate::credentials::token_shaped(token)
                &&& crate::server::signed_in(after, Some(token)) == Some(user)
                &&& reply == crate::response::redirect_reply(
                    "/restricted"@,
                    Some(crate::cookie::set_cookie_text(token)),
                )
            },
{
    typed_credentials_are_checked(user, password);
    right_password_is_accepted(before, user, password);
    accepted_login_gives_access(before, user, after, reply, None);
}

/// A form with the name of a user who does not exist is answered with 401, whatever the password,
/// and changes nothing.
pub proof fn unknown_user_does_not_sign_in(
    before: StateView,
    user: Seq<char>,
    password: Seq<char>,
    after: StateView,
    reply: ResponseView,
)
    requires
        !before.users.contains_key(user),
        crate::server::form_answered(
            before,
            crate::form_laws::login_body(user, password),
            after,
            reply,
        ),
    ensures
        after == before,
        reply.status == UNAUTHORIZED,
{
    typed_credentials_are_checked(user, password);
    unknown_user_is_refused(before, user, password);
}

/// A login may be processed step by step: what happens to the sessions and the counter between
/// reading the form and answering it makes no difference to whether it is accepted.
pub proof fn login_steps_may_be_parted(
    read_in: StateView,
    body: Seq<char>,
    before: StateView,
    after: StateView,
    reply: ResponseView,
)
    requires
        before.users == read_in.users,
        before.dummy_hash == read_in.dummy_hash,
        ({
            let attempt = crate::server::attempt_in(read_in, body);
            let outcome = crate::credentials::argon2_match(
                attempt.hash,
                vstd::utf8::encode_utf8(attempt.password),
            );
            crate::server::login_answered(
                before,
                attempt.user,
                before.accepts(attempt.user, outcome),
                after,
                reply,
            )
        }),
    ensures
        crate::server::form_answered(before, body, after, reply),
{
}

/// No request but an accepted login opens a session or moves one to another user, and no request
/// changes the users, the dummy hash or the template.
pub proof fn requests_open_no_session(
    state: StateView,
    method: Seq<char>,
    path: Seq<char>,
    token: Option<Seq<char>>,
)
    ensures
        ({
            let after = crate::server::state_after(state, method, path, token);
            &&& after.users == state.users
            &&& after.dummy_hash == state.dummy_hash
            &&& after.restricted_html == state.restricted_html
            &&& forall|t: Seq<char>| #[trigger]
                after.user_of(t) is Some ==> after.user_of(t) == state.user_of(t)
        }),
{
}

/// Every reply of the routes forbids caches to keep it.
pub proof fn no_reply_is_stored(
    state: StateView,
    method: Seq<char>,
    path: Seq<char>,
    token: Option<Seq<char>>,
    upper: Option<u64>,
)
    ensures
        crate::server::routed(state, method, path, token, upper) matches StepView::Reply(reply)
            ==> reply.headers.len() > 0 && reply.headers[0] == ("cache-control"@, "no-store"@),
{
}

/// Every answer to a login form forbids caches to keep it.
pub proof fn no_login_reply_is_stored(
    before: StateView,
    user: Seq<char>,
    accepted: bool,
    after: StateView,
    reply: ResponseView,
)
    requires
        crate::server::login_answered(before, user, accepted, after, reply),
    ensures
        reply.headers.len() > 0,
        reply.headers[0] == ("cache-control"@, "no-store"@),
{
}

/// A cookie that is no token names nobody. The empty one, which a logout leaves in browsers that
/// keep it, is such a cookie.
pub proof fn only_tokens_name_users(state: StateView, cookie: Seq<char>)
    requires
        state.well_formed(),
        !crate::credentials::token_shaped(cookie),
    ensures
        crate::server::signed_in(state, Some(cookie)) is None,
{
}

/// Pings of signed-in users are numbered one after the other: the number of each is the count
/// that the one before left, plus one.
pub proof fn pings_are_numbered(state: StateView, token: Seq<char>, user: Seq<char>)
    requires
        state.user_of(token) == Some(user),
        state.ping_count < usize::MAX,
    ensures
        ({
            let after = crate::server::state_after(state, "GET"@, "/api/ping"@, Some(token));
            &&& state.next_ping() == state.ping_count + 1
            &&& after.ping_count == state.next_ping()
            &&& after.sessions == state.sessions
        }),
{
    crate::server::routes_are_distinct();
}

/// A login form whose size is not known, or is over the limit, is answered with 413 and never
/// read.
pub proof fn large_login_form_is_not_read(
    state: StateView,
    token: Option<Seq<char>>,
    upper: Option<u64>,
)
    requires
        upper is None || upper->0 > crate::server::MAX_LOGIN_BODY_BYTES,
    ensures
        crate::server::routed(state, "POST"@, "/login"@, token, upper) == StepView::Reply(
            crate::response::html_reply(
                crate::response::PAYLOAD_TOO_LARGE,
                crate::pages::TOO_LARGE_PAGE@,
            ),
        ),
{
    crate::server::routes_are_distinct();
}

/// A login form of a known size up to 8 KiB is read, whoever sends it; a larger one, or one of
/// unknown size, is answered with 413. Neither changes anything before it is read.
pub proof fn login_form_is_read_up_to_its_limit(
    state: StateView,
    token: Option<Seq<char>>,
    size: u64,
)
    ensures
        size <= 8 * 1024 ==> crate::server::routed(state, "POST"@, "/login"@, token, Some(size))
            == StepView::AwaitForm,
        size > 8 * 1024 ==> crate::server::routed(state, "POST"@, "/login"@, token, Some(size))
            == StepView::Reply(
            crate::response::html_reply(413, "<h1>413 payload too large</h1>"@),
        ),
        crate::server::routed(state, "POST"@, "/login"@, token, None) == StepView::Reply(
            crate::response::html_reply(413, "<h1>413 payload too large</h1>"@),
        ),
        crate::server::state_after(state, "POST"@, "/login"@, token) == state,
        crate::server::within_limit(Some(size)) <==> size <= 8 * 1024,
        !crate::server::within_limit(None),
{
    crate::server::routes_are_distinct();
}

/// A request comes from whoever its cookie stands for among the sessions, and from nobody where it
/// carries no cookie or one that stands for nobody.
pub proof fn cookie_tells_who_asks(state: StateView, token: Seq<char>)
    ensures
        crate::server::signed_in(state, None) is None,
        state.sessions.contains_key(token) ==> crate::server::signed_in(state, Some(token)) == Some(
            state.sessions[token],
        ),
        !state.sessions.contains_key(token) ==> crate::server::signed_in(state, Some(token))
            is None,
{
}

/// The landing page leads to the restricted page with a session, and to the login without one.
/// The login form is shown without a session, and leads on to the restricted page with one. None
/// of this changes anything.
pub proof fn visitors_are_led_by_their_session(
    state: StateView,
    token: Option<Seq<char>>,
    upper: Option<u64>,
)
    ensures
        crate::server::signed_in(state, token) is Some ==> crate::server::routed(
            state,
            "GET"@,
            "/"@,
            token,
            upper,
        ) == StepView::Reply(crate::response::redirect_reply("/restricted"@, None)),
        crate::server::signed_in(state, token) is None ==> crate::server::routed(
            state,
            "GET"@,
            "/"@,
            token,
            upper,
        ) == StepView::Reply(crate::response::redirect_reply("/login"@, None)),
        crate::server::signed_in(state, token) is Some ==> crate::server::routed(
            state,
            "GET"@,
            "/login"@,
            token,
            upper,
        ) == StepView::Reply(crate::response::redirect_reply("/restricted"@, None)),
        crate::server::signed_in(state, token) is None ==> crate::server::routed(
            state,
            "GET"@,
            "/login"@,
            token,
            upper,
        ) == StepView::Reply(
            crate::response::html_reply(200, crate::pages::login_page_text(false)),
        ),
{
    crate::server::routes_are_distinct();
}

/// Without a session the restricted page leads to the login, and a ping is answered with 401 and
/// an error in JSON.
pub proof fn visitors_without_session_are_turned_away(
    state: StateView,
    token: Option<Seq<char>>,
    upper: Option<u64>,
)
    requires
        crate::server::signed_in(state, token) is None,
    ensures
        crate::server::routed(state, "GET"@, "/restricted"@, token, upper) == StepView::Reply(
            crate::response::redirect_reply("/login"@, None),
        ),
        crate::server::routed(state, "GET"@, "/api/ping"@, token, upper) == StepView::Reply(
            crate::response::json_reply(
                401,
                r#"{"status":"error","message":"not authenticated"}"#@,
            ),
        ),
{
    no_access_without_session(state, token, upper);
}

/// A logout leads to the login and makes the browser forget the cookie, with a session or without,
/// and takes away the session of its token and nothing else.
pub proof fn logout_is_answered_alike(
    state: StateView,
    token: Option<Seq<char>>,
    upper: Option<u64>,
)
    ensures
        crate::server::routed(state, "POST"@, "/logout"@, token, upper) == StepView::Reply(
            crate::response::redirect_reply(
                "/login"@,
                Some("session=; HttpOnly; SameSite=Strict; Secure; Path=/; Max-Age=0"@),
            ),
        ),
        token is None ==> crate::server::state_after(state, "POST"@, "/logout"@, token) == state,
        token matches Some(t) ==> crate::server::state_after(state, "POST"@, "/logout"@, token)
            == (StateView { sessions: state.sessions.remove(t), ..state }),
{
    crate::server::routes_are_distinct();
    reveal_strlit("session=; ");
    reveal_strlit("HttpOnly; SameSite=Strict; Secure; Path=/");
    reveal_strlit("; Max-Age=0");
    reveal_strlit("session=; HttpOnly; SameSite=Strict; Secure; Path=/; Max-Age=0");
    assert(crate::cookie::clear_cookie_text()
        =~= "session=; HttpOnly; SameSite=Strict; Secure; Path=/; Max-Age=0"@);
}

/// There are six kinds of request. Every other one, by its method or by its path, is answered with
/// 404 and changes nothing, with a session or without.
pub proof fn other_requests_are_not_found(
    state: StateView,
    method: Seq<char>,
    path: Seq<char>,
    token: Option<Seq<char>>,
    upper: Option<u64>,
)
    requires
        method == "GET"@ ==> path != "/"@ && path != "/login"@ && path != "/restricted"@ && path
            != "/api/ping"@,
        method == "POST"@ ==> path != "/login"@ && path != "/logout"@,
    ensures
        crate::server::routed(state, method, path, token, upper) == StepView::Reply(
            crate::response::html_reply(404, "<h1>404 not found</h1>"@),
        ),
        crate::server::state_after(state, method, path, token) == state,
{
}

/// Nothing but a ping of somebody who is signed in and a logout changes the state, and the size of
/// a body matters for nothing but a login form.
pub proof fn requests_change_little(
    state: StateView,
    method: Seq<char>,
    path: Seq<char>,
    token: Option<Seq<char>>,
    upper: Option<u64>,
    other_upper: Option<u64>,
)
    ensures
        !(method == "GET"@ && path == "/api/ping"@) && !(method == "POST"@ && path == "/logout"@)
            ==> crate::server::state_after(state, method, path, token) == state,
        method == "GET"@ && path == "/api/ping"@ ==> crate::server::state_after(
            state,
            method,
            path,
            token,
        ) == (if crate::server::signed_in(state, token) is Some {
            StateView {
                ping_count: if state.ping_count < usize::MAX {
                    (state.ping_count + 1) as usize
                } else {
                    0
                },
                ..state
            }
        } else {
            state
        }),
        !(method == "POST"@ && path == "/login"@) ==> crate::server::routed(
            state,
            method,
            path,
            token,
            upper,
        ) == crate::server::routed(state, method, path, token, other_upper),
{
    crate::server::routes_are_distinct();
}

/// The credentials in a form are its fields `username` and `password`, each empty where the form
/// does not have it, and they are held against the hash of that user.
pub proof fn form_fields_are_the_credentials(state: StateView, body: Seq<char>)
    ensures
        ({
            let form = crate::form::form_fields(body);
            let attempt = crate::server::attempt_in(state, body);
            &&& form.contains_key("username"@) ==> attempt.user == form["username"@]
            &&& !form.contains_key("username"@) ==> attempt.user == Seq::<char>::empty()
            &&& form.contains_key("password"@) ==> attempt.password == form["password"@]
            &&& !form.contains_key("password"@) ==> attempt.password == Seq::<char>::empty()
            &&& state.users.contains_key(attempt.user) ==> attempt.hash
                == state.users[attempt.user]
            &&& !state.users.contains_key(attempt.user) ==> attempt.hash == state.dummy_hash
        }),
{
}

/// The answer to a login form, for every form: with the name of a user who exists and a password
/// that their hash matches, a session of that user is opened under a token, and the reply leads to
/// the restricted page and sets the cookie that holds the token. With any other credentials
/// nothing changes, and the login page with the error message comes back under the status 401.
pub proof fn credentials_in_the_form_decide(
    before: StateView,
    body: Seq<char>,
    after: StateView,
    reply: ResponseView,
)
    requires
        crate::server::form_answered(before, body, after, reply),
    ensures
        ({
            let attempt = crate::server::attempt_in(before, body);
            let right = before.users.contains_key(attempt.user)
                && crate::credentials::argon2_match(
                before.users[attempt.user],
                vstd::utf8::encode_utf8(attempt.password),
            ) == Some(true);
            &&& right ==> exists|token: Seq<char>|
                {
                    &&& #[trigger] crate::credentials::token_shaped(token)
                    &&& after == (StateView {
                        sessions: before.sessions.insert(token, attempt.user),
                        ..before
                    })
                    &&& reply == crate::response::redirect_reply(
                        "/restricted"@,
                        Some(
                            "session="@ + token
                                + "; HttpOnly; SameSite=Strict; Secure; Path=/"@,
                        ),
                    )
                }
            &&& !right ==> after == before && reply == crate::response::html_reply(
                401,
                crate::pages::login_page_text(true),
            )
        }),
{
    let attempt = crate::server::attempt_in(before, body);
    if before.verifies(attempt.user, attempt.password) {
        let token = choose|token: Seq<char>|
            {
                &&& #[trigger] crate::credentials::token_shaped(token)
                &&& after == before.with_session(token, attempt.user)
                &&& reply == crate::response::redirect_reply(
                    "/restricted"@,
                    Some(crate::cookie::set_cookie_text(token)),
                )
            };
        crate::cookie::cookie_holds_its_token(token);
        assert(crate::credentials::token_shaped(token));
    }
}

/// Something that happens to the service: a request that it answers at once, or a login form that
/// it answers with `reply`.
pub enum EventView {
    Request { method: Seq<char>, path: Seq<char>, token: Option<Seq<char>> },
    Form { body: Seq<char>, reply: ResponseView },
}

/// Whether `event` takes the state from `before` to `after`.
pub open spec fn happens(before: StateView, event: EventView, after: StateView) -> bool {
    match event {
        EventView::Request { method, path, token } => after == crate::server::state_after(
            before,
            method,
            path,
            token,
        ),
        EventView::Form { body, reply } => crate::server::form_answered(
            before,
            body,
            after,
            reply,
        ),
    }
}

/// Whether `states` are the states that a series of events goes through, the first and the last
/// one among them.
pub open spec fn series(states: Seq<StateView>, events: Seq<EventView>) -> bool {
    &&& states.len() == events.len() + 1
    &&& forall|i: int|
        0 <= i < events.len() ==> happens(states[i], #[trigger] events[i], states[i + 1])
}

/// Whether `event` is a login form with the right credentials of `user`, answered with `token`.
pub open spec fn signs_in(
    before: StateView,
    event: EventView,
    token: Seq<char>,
    user: Seq<char>,
) -> bool {
    &&& event matches EventView::Form { body, reply }
    &&& crate::server::attempt_in(before, body).user == user
    &&& before.verifies(user, crate::server::attempt_in(before, body).password)
    &&& hands_out(event, token)
}

/// Whether `event` is a login form that is answered with `token`.
pub open spec fn hands_out(event: EventView, token: Seq<char>) -> bool {
    &&& event matches EventView::Form { reply, .. }
    &&& reply == crate::response::redirect_reply(
        "/restricted"@,
        Some(crate::cookie::set_cookie_text(token)),
    )
}

/// Whether `event` is a logout with `token`.
pub open spec fn logs_out(event: EventView, token: Seq<char>) -> bool {
    event == (EventView::Request { method: "POST"@, path: "/logout"@, token: Some(token) })
}

/// Whether `event` is a ping of somebody who is signed in.
pub open spec fn is_answered_ping(before: StateView, event: EventView) -> bool {
    &&& event matches EventView::Request { method, path, token }
    &&& method == "GET"@ && path == "/api/ping"@
    &&& crate::server::signed_in(before, token) is Some
}

/// How many pings of somebody who is signed in are among `events`.
pub open spec fn answered_pings(states: Seq<StateView>, events: Seq<EventView>) -> nat
    decreases events.len(),
{
    if events.len() == 0 {
        0
    } else {
        answered_pings(states.drop_last(), events.drop_last()) + (if is_answered_ping(
            states[events.len() - 1],
            events.last(),
        ) {
            1nat
        } else {
            0nat
        })
    }
}

proof fn shorter_series(states: Seq<StateView>, events: Seq<EventView>)
    requires
        series(states, events),
        events.len() > 0,
    ensures
        series(states.drop_last(), events.drop_last()),
        states.drop_last().last() == states[events.len() - 1],
        happens(states[events.len() - 1], events.last(), states.last()),
{
    assert forall|i: int| 0 <= i < events.drop_last().len() implies happens(
        states.drop_last()[i],
        #[trigger] events.drop_last()[i],
        states.drop_last()[i + 1],
    ) by {
        assert(events.drop_last()[i] == events[i]);
    }
    assert(events.last() == events[events.len() - 1]);
}

/// No series of requests and login forms changes the users, the dummy hash or the template, and
/// the state stays well-formed.
pub proof fn series_keeps_users(states: Seq<StateView>, events: Seq<EventView>)
    requires
        series(states, events),
    ensures
        states.last().users == states[0].users,
        states.last().dummy_hash == states[0].dummy_hash,
        states.last().restricted_html == states[0].restricted_html,
        states[0].well_formed() ==> states.last().well_formed(),
    decreases events.len(),
{
    if events.len() > 0 {
        shorter_series(states, events);
        series_keeps_users(states.drop_last(), events.drop_last());
    }
}

/// Whoever is signed in after a series of requests and login forms was signed in before it with
/// the same token, or sent a form with the right credentials that was answered with that token.
pub proof fn sessions_come_from_logins(
    states: Seq<StateView>,
    events: Seq<EventView>,
    token: Seq<char>,
    user: Seq<char>,
)
    requires
        series(states, events),
        states.last().user_of(token) == Some(user),
    ensures
        states[0].user_of(token) == Some(user) || exists|i: int|
            0 <= i < events.len() && signs_in(states[i], #[trigger] events[i], token, user),
    decreases events.len(),
{
    if events.len() > 0 {
        shorter_series(states, events);
        let n = events.len() - 1;
        let before = states[n];
        if before.user_of(token) == Some(user) {
            let earlier = events.drop_last();
            sessions_come_from_logins(states.drop_last(), earlier, token, user);
            if states[0].user_of(token) != Some(user) {
                let i = choose|i: int|
                    0 <= i < earlier.len() && signs_in(
                        states.drop_last()[i],
                        #[trigger] earlier[i],
                        token,
                        user,
                    );
                assert(signs_in(states[i], events[i], token, user));
            }
        } else {
            assert(signs_in(states[n], events[n], token, user));
        }
    }
}

/// Where nobody is signed in, no series of requests, whatever cookies it carries, and of login
/// forms with wrong credentials signs anybody in: sessions come from accepted logins alone.
pub proof fn no_session_without_login(
    states: Seq<StateView>,
    events: Seq<EventView>,
    token: Option<Seq<char>>,
)
    requires
        series(states, events),
        states[0].sessions == Map::<Seq<char>, Seq<char>>::empty(),
        forall|i: int|
            0 <= i < events.len() ==> ((#[trigger] events[i]) matches EventView::Form { body, .. }
                ==> {
                let attempt = crate::server::attempt_in(states[i], body);
                !states[i].verifies(attempt.user, attempt.password)
            }),
    ensures
        crate::server::signed_in(states.last(), token) is None,
{
    if let Some(t) = token {
        if let Some(user) = states.last().user_of(t) {
            sessions_come_from_logins(states, events, t, user);
        }
    }
}

/// A session lasts through every series of requests and login forms in which no logout carries its
/// token and no login draws the same token again.
pub proof fn session_lasts_until_its_logout(
    states: Seq<StateView>,
    events: Seq<EventView>,
    token: Seq<char>,
)
    requires
        series(states, events),
        forall|i: int|
            0 <= i < events.len() ==> !logs_out(#[trigger] events[i], token) && !hands_out(
                events[i],
                token,
            ),
    ensures
        states.last().user_of(token) == states[0].user_of(token),
    decreases events.len(),
{
    if events.len() > 0 {
        shorter_series(states, events);
        let earlier = events.drop_last();
        assert forall|i: int| 0 <= i < earlier.len() implies !logs_out(
            #[trigger] earlier[i],
            token,
        ) && !hands_out(earlier[i], token) by {
            assert(earlier[i] == events[i]);
        }
        session_lasts_until_its_logout(states.drop_last(), earlier, token);
        assert(events.last() == events[events.len() - 1]);
    }
}

/// A token that was given up stays worthless: after a logout no series of requests and login forms
/// makes it name anybody, unless a login draws the same token again.
pub proof fn logged_out_token_stays_worthless(
    states: Seq<StateView>,
    events: Seq<EventView>,
    token: Seq<char>,
)
    requires
        series(states, events),
        events.len() > 0,
        logs_out(events[0], token),
        forall|i: int| 0 <= i < events.len() ==> !hands_out(#[trigger] events[i], token),
    ensures
        crate::server::signed_in(states.last(), Some(token)) is None,
{
    crate::server::routes_are_distinct();
    let rest = states.skip(1);
    let later = events.skip(1);
    assert(happens(states[0], events[0], states[1]));
    assert forall|i: int| 0 <= i < later.len() implies happens(
        rest[i],
        #[trigger] later[i],
        rest[i + 1],
    ) by {
        assert(later[i] == events[i + 1]);
    }
    if let Some(user) = states.last().user_of(token) {
        sessions_come_from_logins(rest, later, token, user);
        let i = choose|i: int|
            0 <= i < later.len() && signs_in(rest[i], #[trigger] later[i], token, user);
        assert(later[i] == events[i + 1]);
    }
}

/// The counter holds how many pings of signed-in users a series of requests and login forms
/// answered, on top of what it held before, and starts again at zero when it is full.
pub proof fn pings_are_counted(states: Seq<StateView>, events: Seq<EventView>)
    requires
        series(states, events),
    ensures
        states.last().ping_count as int == (states[0].ping_count + answered_pings(states, events))
            % (usize::MAX + 1),
    decreases events.len(),
{
    let full = usize::MAX + 1;
    if events.len() > 0 {
        shorter_series(states, events);
        pings_are_counted(states.drop_last(), events.drop_last());
        let before = states[events.len() - 1];
        let total = states[0].ping_count + answered_pings(
            states.drop_last(),
            events.drop_last(),
        );
        one_more(total, full);
        assert(states.last().ping_count == (if is_answered_ping(before, events.last()) {
            before.next_ping()
        } else {
            before.ping_count
        })) by {
            crate::server::routes_are_distinct();
        }
    } else {
        vstd::arithmetic::div_mod::lemma_small_mod(states[0].ping_count as nat, full as nat);
    }
}

proof fn one_more(n: int, full: int)
    requires
        full > 1,
    ensures
        (n + 1) % full == (if n % full == full - 1 {
            0
        } else {
            n % full + 1
        }),
{
    vstd::arithmetic::div_mod::lemma_fundamental_div_mod(n, full);
    let q = n / full;
    let r = n % full;
    assert(full * q == q * full && (q + 1) * full == q * full + full) by (nonlinear_arith);
    if r == full - 1 {
        vstd::arithmetic::div_mod::lemma_fundamental_div_mod_converse(n + 1, full, q + 1, 0);
    } else {
        vstd::arithmetic::div_mod::lemma_fundamental_div_mod_converse(n + 1, full, q, r + 1);
    }
}

/// A ping is answered with its number: one more than the pings of signed-in users that were
/// answered since the service started, whatever requests and login forms came between them.
pub proof fn ping_is_answered_with_its_number(
    states: Seq<StateView>,
    events: Seq<EventView>,
    token: Seq<char>,
    user: Seq<char>,
    upper: Option<u64>,
)
    requires
        series(states, events),
        states[0].ping_count == 0,
        answered_pings(states, events) < usize::MAX,
        states.last().user_of(token) == Some(user),
    ensures
        crate::server::routed(states.last(), "GET"@, "/api/ping"@, Some(token), upper)
            == StepView::Reply(
            crate::response::json_reply(
                OK,
                crate::pages::ping_text(user, answered_pings(states, events) + 1),
            ),
        ),
{
    pings_are_counted(states, events);
    vstd::arithmetic::div_mod::lemma_small_mod(
        answered_pings(states, events),
        (usize::MAX + 1) as nat,
    );
    access_with_session(states.last(), token, user, upper);
}

} // verus!
