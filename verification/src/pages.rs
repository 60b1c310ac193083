//! The pages and bodies that the server sends.

use vstd::prelude::*;

use crate::escape::{html_escape, json_escape};
use crate::text::{decimal_text, replace_all};

verus! {

/// The login page up to where an error message may stand.
pub const LOGIN_HEAD: &'static str = r#"<!doctype html>
<html lang="en"><head>
<meta charset="utf-8">
<meta name="viewport" content="width=device-width, initial-scale=1">
<title>Login — Arti Onion POC</title>
<style>
  :root { color-scheme: dark; }
  body { margin:0; min-height:100vh; display:grid; place-items:center;
    font:16px/1.5 system-ui,sans-serif; background:#14131a; color:#e7e5ee; }
  .card { width:min(92vw,400px); background:#1e1c27; border:1px solid #322f40;
    border-radius:14px; padding:28px 30px; box-shadow:0 12px 40px rgba(0,0,0,.4); }
  h1 { margin:0 0 18px; font-size:20px; }
  label { display:block; font-size:13px; color:#9a96ad; margin:12px 0 4px; }
  input { width:100%; box-sizing:border-box; padding:10px 12px; border-radius:9px;
    border:1px solid #322f40; background:#14131a; color:#e7e5ee; font-size:15px; }
  button { margin-top:18px; width:100%; border:0; border-radius:9px; cursor:pointer;
    background:#7c5cff; color:#fff; font-size:15px; font-weight:600; padding:11px; }
  .err { color:#ff6b6b; font-size:14px; margin:0 0 4px; }
  .note { color:#6f6b80; font-size:12px; margin-top:16px; }
</style></head><body>
  <div class="card">
    <h1>🔒 Restricted area</h1>
    "#;

/// The error message of the login page.
pub const LOGIN_ERROR: &'static str = r#"<p class="err">Invalid username or password.</p>"#;

/// The login page behind the error message.
pub const LOGIN_TAIL: &'static str = r#"
    <form method="POST" action="/login" autocomplete="off">
      <label for="u">Username</label>
      <input id="u" name="username" autofocus>
      <label for="p">Password</label>
      <input id="p" name="password" type="password">
      <button type="submit">Sign in</button>
    </form>
    <p class="note">Served over a Tor onion service. Works with JavaScript disabled.</p>
  </div>
</body></html>"#;

/// What stands for the name of the user in the template of the restricted page.
pub const USERNAME_MARK: &'static str = "__USERNAME__";

/// The body of the reply to an unknown request.
pub const NOT_FOUND_PAGE: &'static str = "<h1>404 not found</h1>";

/// The body of the reply to a login form that is too large.
pub const TOO_LARGE_PAGE: &'static str = "<h1>413 payload too large</h1>";

/// The body of the reply to a ping without a session.
pub const PING_REFUSED: &'static str = r#"{"status":"error","message":"not authenticated"}"#;

/// The login page, with or without the error message.
pub open spec fn login_page_text(error: bool) -> Seq<char> {
    LOGIN_HEAD@ + (if error {
        LOGIN_ERROR@
    } else {
        Seq::empty()
    }) + LOGIN_TAIL@
}

/// Renders the login form. It needs no script.
pub fn login_page(error: bool) -> (r: String)
    ensures
        r@ == login_page_text(error),
{
    let mut out = LOGIN_HEAD.to_owned();
    if error {
        out.append(LOGIN_ERROR);
    }
    out.append(LOGIN_TAIL);
    proof {
        assert(LOGIN_HEAD@ + Seq::<char>::empty() =~= LOGIN_HEAD@);
    }
    out
}

/// The restricted page for `user`: the template with the escaped name in place of every mark.
pub open spec fn restricted_page_text(template: Seq<char>, user: Seq<char>) -> Seq<char> {
    crate::text::replaced(template, USERNAME_MARK@, crate::escape::html_escaped(user))
}

/// Renders the restricted page for `user`.
pub fn restricted_page(template: &str, user: &str) -> (r: String)
    ensures
        r@ == restricted_page_text(template@, user@),
{
    let name = html_escape(user);
    proof {
        reveal_strlit("__USERNAME__");
    }
    replace_all(template, USERNAME_MARK, name.as_str())
}

/// The JSON reply to ping number `count` of a signed-in user.
pub open spec fn ping_text(user: Seq<char>, count: nat) -> Seq<char> {
    r#"{"status":"ok","user":""#@ + crate::escape::json_escaped(user)
        + r#"","message":"authenticated request over Tor","count":"#@ + crate::text::decimal(count)
        + "}"@
}

/// Writes the JSON reply to ping number `count` of a signed-in user.
pub fn ping_body(user: &str, count: usize) -> (r: String)
    ensures
        r@ == ping_text(user@, count as nat),
{
    let mut out = r#"{"status":"ok","user":""#.to_owned();
    let name = json_escape(user);
    out.append(name.as_str());
    out.append(r#"","message":"authenticated request over Tor","count":"#);
    let number = decimal_text(count);
    out.append(number.as_str());
    out.append("}");
    out
}

/// Whether `part` stands in `s` at index `i`.
pub open spec fn occurs_at(s: Seq<char>, part: Seq<char>, i: int) -> bool {
    &&& 0 <= i <= s.len()
    &&& part.is_prefix_of(s.skip(i))
}

/// `part` occurs between `before` and `after` alone, if it holds a character once, at index `k`,
/// that neither of them holds.
proof fn only_occurrence(before: Seq<char>, part: Seq<char>, after: Seq<char>, k: int)
    requires
        0 <= k < part.len(),
        forall|i: int| 0 <= i < part.len() && i != k ==> #[trigger] part[i] != part[k],
        forall|i: int| 0 <= i < before.len() ==> #[trigger] before[i] != part[k],
        forall|i: int| 0 <= i < after.len() ==> #[trigger] after[i] != part[k],
    ensures
        forall|i: int| #[trigger]
            occurs_at(before + part + after, part, i) <==> i == before.len(),
{
    let whole = before + part + after;
    assert forall|i: int| #[trigger] occurs_at(whole, part, i) implies i == before.len() by {
        assert(whole.skip(i)[k] == part[k]);
        assert(whole[i + k] == part[k]);
        if i + k < before.len() {
            assert(whole[i + k] == before[i + k]);
        } else if i + k < before.len() + part.len() {
            assert(whole[i + k] == part[i + k - before.len()]);
        } else {
            assert(whole[i + k] == after[i + k - before.len() - part.len()]);
        }
    }
    assert(part.is_prefix_of(whole.skip(before.len() as int)));
}

proof fn no_occurrence(s: Seq<char>, part: Seq<char>, k: int)
    requires
        0 <= k < part.len(),
        forall|i: int| 0 <= i < s.len() ==> #[trigger] s[i] != part[k],
    ensures
        forall|i: int| !#[trigger] occurs_at(s, part, i),
{
    assert forall|i: int| !#[trigger] occurs_at(s, part, i) by {
        if occurs_at(s, part, i) {
            assert(s.skip(i)[k] == part[k]);
            assert(s[i + k] == part[k]);
        }
    }
}

/// A text in which `part` does not occur stays as it is when `part` is replaced.
pub proof fn nothing_replaced(s: Seq<char>, part: Seq<char>, to: Seq<char>)
    requires
        forall|i: int| !#[trigger] occurs_at(s, part, i),
    ensures
        crate::text::replaced(s, part, to) == s,
    decreases s.len(),
{
    if s.len() > 0 {
        let rest = s.skip(1);
        assert forall|i: int| !#[trigger] occurs_at(rest, part, i) by {
            if occurs_at(rest, part, i) {
                assert(rest.skip(i) =~= s.skip(i + 1));
                assert(occurs_at(s, part, i + 1));
            }
        }
        nothing_replaced(rest, part, to);
        assert(s.skip(0) =~= s);
        assert(!occurs_at(s, part, 0));
        assert(seq![s[0]] + rest =~= s);
    }
}

proof fn one_replaced(
    before: Seq<char>,
    part: Seq<char>,
    after: Seq<char>,
    to: Seq<char>,
    k: int,
)
    requires
        0 <= k < part.len(),
        forall|i: int| 0 <= i < part.len() && i != k ==> #[trigger] part[i] != part[k],
        forall|i: int| 0 <= i < before.len() ==> #[trigger] before[i] != part[k],
        forall|i: int| 0 <= i < after.len() ==> #[trigger] after[i] != part[k],
    ensures
        crate::text::replaced(before + part + after, part, to) == before + to + after,
    decreases before.len(),
{
    let whole = before + part + after;
    only_occurrence(before, part, after, k);
    assert(whole.skip(0) =~= whole);
    assert(occurs_at(whole, part, 0) <==> before.len() == 0);
    if before.len() == 0 {
        assert(whole.skip(part.len() as int) =~= after);
        no_occurrence(after, part, k);
        nothing_replaced(after, part, to);
        assert(to + after =~= before + to + after);
    } else {
        let rest = before.skip(1);
        one_replaced(rest, part, after, to, k);
        assert(whole.skip(1) =~= rest + part + after);
        assert(seq![before[0]] + (rest + to + after) =~= before + to + after);
    }
}

/// Whether `s` holds neither a form, an input, a button or a script nor the end of a form, and does
/// not break off where one of these could begin.
pub open spec fn no_form_markup(s: Seq<char>) -> bool {
    &&& s.len() >= 2
    &&& s[s.len() - 1] != '<'
    &&& s[s.len() - 2] != '<'
    &&& forall|i: int|
        0 <= i < s.len() - 2 && #[trigger] s[i] == '<' ==> {
            &&& s[i + 1] != 'f'
            &&& s[i + 1] != 'i'
            &&& !(s[i + 1] == 'b' && s[i + 2] == 'u')
            &&& !(s[i + 1] == 's' && s[i + 2] == 'c')
            &&& !(s[i + 1] == '/' && s[i + 2] == 'f')
        }
}

/// The error message holds one capital I, and the rest of the login page holds none. What stands
/// in front of the form holds nothing that belongs to a form.
pub(crate) proof fn capital_i_marks_the_error()
    ensures
        no_form_markup(LOGIN_HEAD@),
        no_form_markup(LOGIN_ERROR@),
        LOGIN_ERROR@.len() > 15,
        LOGIN_ERROR@[15] == 'I',
        forall|i: int|
            0 <= i < LOGIN_ERROR@.len() && i != 15 ==> #[trigger] LOGIN_ERROR@[i] != 'I',
        forall|i: int| 0 <= i < LOGIN_HEAD@.len() ==> #[trigger] LOGIN_HEAD@[i] != 'I',
        forall|i: int| 0 <= i < LOGIN_TAIL@.len() ==> #[trigger] LOGIN_TAIL@[i] != 'I',
{
    reveal_strlit(r#"<p class="err">Invalid username or password.</p>"#);
    reveal_strlit(r#"<!doctype html>
<html lang="en"><head>
<meta charset="utf-8">
<meta name="viewport" content="width=device-width, initial-scale=1">
<title>Login — Arti Onion POC</title>
<style>
  :root { color-scheme: dark; }
  body { margin:0; min-height:100vh; display:grid; place-items:center;
    font:16px/1.5 system-ui,sans-serif; background:#14131a; color:#e7e5ee; }
  .card { width:min(92vw,400px); background:#1e1c27; border:1px solid #322f40;
    border-radius:14px; padding:28px 30px; box-shadow:0 12px 40px rgba(0,0,0,.4); }
  h1 { margin:0 0 18px; font-size:20px; }
  label { display:block; font-size:13px; color:#9a96ad; margin:12px 0 4px; }
  input { width:100%; box-sizing:border-box; padding:10px 12px; border-radius:9px;
    border:1px solid #322f40; background:#14131a; color:#e7e5ee; font-size:15px; }
  button { margin-top:18px; width:100%; border:0; border-radius:9px; cursor:pointer;
    background:#7c5cff; color:#fff; font-size:15px; font-weight:600; padding:11px; }
  .err { color:#ff6b6b; font-size:14px; margin:0 0 4px; }
  .note { color:#6f6b80; font-size:12px; margin-top:16px; }
</style></head><body>
  <div class="card">
    <h1>🔒 Restricted area</h1>
    "#);
    reveal_strlit(r#"
    <form method="POST" action="/login" autocomplete="off">
      <label for="u">Username</label>
      <input id="u" name="username" autofocus>
      <label for="p">Password</label>
      <input id="p" name="password" type="password">
      <button type="submit">Sign in</button>
    </form>
    <p class="note">Served over a Tor onion service. Works with JavaScript disabled.</p>
  </div>
</body></html>"#);
}

/// The error message stands on the login page exactly once where there was an error, and nowhere
/// where there was none. Nothing else tells the two pages apart: without the message the first is
/// the second.
pub proof fn error_message_shows_once()
    ensures
        forall|i: int| #[trigger]
            occurs_at(login_page_text(true), LOGIN_ERROR@, i) <==> i == LOGIN_HEAD@.len(),
        forall|i: int| !#[trigger] occurs_at(login_page_text(false), LOGIN_ERROR@, i),
        crate::text::replaced(login_page_text(true), LOGIN_ERROR@, Seq::empty())
            == login_page_text(false),
{
    capital_i_marks_the_error();
    only_occurrence(LOGIN_HEAD@, LOGIN_ERROR@, LOGIN_TAIL@, 15);
    one_replaced(LOGIN_HEAD@, LOGIN_ERROR@, LOGIN_TAIL@, Seq::empty(), 15);
    let plain = login_page_text(false);
    assert forall|i: int| 0 <= i < plain.len() implies #[trigger] plain[i] != 'I' by {
        if i < LOGIN_HEAD@.len() {
            assert(plain[i] == LOGIN_HEAD@[i]);
        } else {
            assert(plain[i] == LOGIN_TAIL@[i - LOGIN_HEAD@.len()]);
        }
    }
    no_occurrence(plain, LOGIN_ERROR@, 15);
}

} // verus!
