//! What the pages and bodies hold.

use vstd::prelude::*;

verus! {

/// A template without the mark is sent as it is.
pub proof fn template_without_mark_is_kept(template: Seq<char>, user: Seq<char>)
    requires
        forall|i: int| !#[trigger] crate::pages::occurs_at(template, "__USERNAME__"@, i),
    ensures
        crate::pages::restricted_page_text(template, user) == template,
{
    crate::pages::nothing_replaced(
        template,
        "__USERNAME__"@,
        crate::escape::html_escaped(user),
    );
}

/// The restricted page shows the escaped name where the template has its first mark, keeps what
/// stands before it, and goes on in the same way behind it.
pub proof fn name_stands_for_the_mark(before: Seq<char>, after: Seq<char>, user: Seq<char>)
    requires
        forall|i: int|
            i < before.len() ==> !#[trigger] crate::pages::occurs_at(
                before + "__USERNAME__"@ + after,
                "__USERNAME__"@,
                i,
            ),
    ensures
        crate::pages::restricted_page_text(before + "__USERNAME__"@ + after, user) == before
            + crate::escape::html_escaped(user) + crate::pages::restricted_page_text(after, user),
{
    reveal_strlit("__USERNAME__");
    crate::text_laws::first_occurrence_is_replaced(
        before,
        "__USERNAME__"@,
        after,
        crate::escape::html_escaped(user),
    );
}

/// The texts of `parts` one after the other, with `between` between them.
pub open spec fn woven(parts: Seq<Seq<char>>, between: Seq<char>) -> Seq<char>
    decreases parts.len(),
{
    if parts.len() == 0 {
        Seq::empty()
    } else if parts.len() == 1 {
        parts[0]
    } else {
        parts[0] + between + woven(parts.skip(1), between)
    }
}

/// The restricted page is what stands between the marks of the template, with the escaped name in
/// place of every mark.
pub proof fn name_stands_for_every_mark(parts: Seq<Seq<char>>, user: Seq<char>)
    requires
        parts.len() > 0,
        forall|i: int, j: int|
            0 <= i < parts.len() && 0 <= j < parts[i].len() ==> #[trigger] parts[i][j] != '_',
    ensures
        crate::pages::restricted_page_text(woven(parts, "__USERNAME__"@), user) == woven(
            parts,
            crate::escape::html_escaped(user),
        ),
    decreases parts.len(),
{
    reveal_strlit("__USERNAME__");
    let mark = "__USERNAME__"@;
    let first = parts[0];
    assert(mark[0] == '_');
    assert forall|j: int| 0 <= j < first.len() implies #[trigger] first[j] != '_' by {
        assert(parts[0][j] != '_');
    }
    if parts.len() == 1 {
        assert forall|i: int| !#[trigger] crate::pages::occurs_at(first, mark, i) by {
            if crate::pages::occurs_at(first, mark, i) {
                assert(first.skip(i)[0] == first[i]);
            }
        }
        template_without_mark_is_kept(first, user);
    } else {
        let rest = parts.skip(1);
        let whole = first + mark + woven(rest, mark);
        assert forall|i: int, j: int| 0 <= i < rest.len() && 0 <= j < rest[i].len() implies
            #[trigger] rest[i][j] != '_' by {
            assert(parts[i + 1][j] != '_');
        }
        name_stands_for_every_mark(rest, user);
        assert forall|i: int| i < first.len() implies !#[trigger] crate::pages::occurs_at(
            whole,
            mark,
            i,
        ) by {
            if crate::pages::occurs_at(whole, mark, i) {
                assert(whole.skip(i)[0] == first[i]);
            }
        }
        name_stands_for_the_mark(first, woven(rest, mark), user);
    }
}

/// The reply to a ping is a JSON object with the escaped name of the user, behind whose `count` a
/// reader finds the number of the ping.
pub proof fn ping_holds_its_number(user: Seq<char>, n: nat)
    ensures
        exists|digits: Seq<char>|
            {
                &&& #[trigger] crate::text_laws::reads_as(digits, n)
                &&& crate::pages::ping_text(user, n) == r#"{"status":"ok","user":""#@
                    + crate::escape::json_escaped(user)
                    + r#"","message":"authenticated request over Tor","count":"#@ + digits + "}"@
            },
{
    crate::text_laws::decimal_reads_back(n);
}

/// The replies to two pings with different numbers differ, whoever sent them.
pub proof fn pings_with_different_numbers_differ(
    user: Seq<char>,
    n: nat,
    other: Seq<char>,
    m: nat,
)
    requires
        n != m,
    ensures
        crate::pages::ping_text(user, n) != crate::pages::ping_text(other, m),
{
    reveal_strlit(r#"","message":"authenticated request over Tor","count":"#);
    reveal_strlit("}");
    let middle = r#"","message":"authenticated request over Tor","count":"#@;
    assert(middle.last() == ':');
    let a = crate::pages::ping_text(user, n);
    let b = crate::pages::ping_text(other, m);
    let d = crate::text::decimal(n);
    let e = crate::text::decimal(m);
    crate::text_laws::decimal_reads_back(n);
    crate::text_laws::decimal_reads_back(m);
    let end = a.len() - 1;
    assert(a.subrange(end - d.len(), end) =~= d);
    assert(a[end - d.len() - 1] == ':');
    if a == b {
        assert(b.subrange(end - e.len(), end) =~= e);
        assert(b[end - e.len() - 1] == ':');
        if d.len() < e.len() {
            assert(e[e.len() - d.len() - 1] == b[end - d.len() - 1]);
        } else if e.len() < d.len() {
            assert(d[d.len() - e.len() - 1] == a[end - e.len() - 1]);
        }
        assert(d == e);
    }
}

/// The replies to pings of two different users differ.
pub proof fn pings_of_different_users_differ(user: Seq<char>, other: Seq<char>, n: nat)
    requires
        user != other,
    ensures
        crate::pages::ping_text(user, n) != crate::pages::ping_text(other, n),
{
    let front = r#"{"status":"ok","user":""#@;
    let back = r#"","message":"authenticated request over Tor","count":"#@
        + crate::text::decimal(n) + "}"@;
    let a = crate::escape::json_escaped(user);
    let b = crate::escape::json_escaped(other);
    assert(crate::pages::ping_text(user, n) =~= front + a + back);
    assert(crate::pages::ping_text(other, n) =~= front + b + back);
    if front + a + back == front + b + back {
        let k = front.len() as int;
        assert(a.len() == b.len());
        assert((front + a + back).subrange(k, k + a.len()) =~= a);
        assert((front + b + back).subrange(k, k + a.len()) =~= b);
    }
    crate::escape::json_escape_reads_back(user);
    crate::escape::json_escape_reads_back(other);
}

/// Whether `part` stands in `s` at index `at` and nowhere else.
pub open spec fn occurs_once(s: Seq<char>, part: Seq<char>, at: int) -> bool {
    forall|i: int| #[trigger] crate::pages::occurs_at(s, part, i) <==> i == at
}

/// The login page, whole: all that the two pages do not share is the error message.
pub proof fn login_page_reads(error: bool)
    ensures
        crate::pages::login_page_text(error) == r#"<!doctype html>
<html lang="en"><head>
<meta charset="utf-8">
<meta name="viewport" content="width=device-width, initial-scale=1">
<title>Login — Arti Onion POC</title>
<style>
  :root { color-scheme: dark; }
  body { margin:0; min-height:100vh; display:grid; place-items:center;
    font:16px/1.5 system-ui,sans-serif; background:#14131a; color:#e7e5ee; }
  .card { width:min(92vw,400px); background:#1e1c27; border:1px solid #322f40;
    border-radius:14px; padding:28px 30px; box-shadow:0 12px 40px rgba(0,0,0,.4); }
  h1 { margin:0 0 18px; font-size:20px; }
  label { display:block; font-size:13px; color:#9a96ad; margin:12px 0 4px; }
  input { width:100%; box-sizing:border-box; padding:10px 12px; border-radius:9px;
    border:1px solid #322f40; background:#14131a; color:#e7e5ee; font-size:15px; }
  button { margin-top:18px; width:100%; border:0; border-radius:9px; cursor:pointer;
    background:#7c5cff; color:#fff; font-size:15px; font-weight:600; padding:11px; }
  .err { color:#ff6b6b; font-size:14px; margin:0 0 4px; }
  .note { color:#6f6b80; font-size:12px; margin-top:16px; }
</style></head><body>
  <div class="card">
    <h1>🔒 Restricted area</h1>
    "#@ + (if error {
            r#"<p class="err">Invalid username or password.</p>"#@
        } else {
            Seq::empty()
        }) + r#"
    <form method="POST" action="/login" autocomplete="off">
      <label for="u">Username</label>
      <input id="u" name="username" autofocus>
      <label for="p">Password</label>
      <input id="p" name="password" type="password">
      <button type="submit">Sign in</button>
    </form>
    <p class="note">Served over a Tor onion service. Works with JavaScript disabled.</p>
  </div>
</body></html>"#@,
{
}

/// Whether `part` begins like a form, an input, a button, a script or the end of a form.
spec fn form_markup(part: Seq<char>) -> bool {
    &&& part.len() >= 3
    &&& part[0] == '<'
    &&& {
        ||| part[1] == 'f'
        ||| part[1] == 'i'
        ||| part[1] == 'b' && part[2] == 'u'
        ||| part[1] == 's' && part[2] == 'c'
        ||| part[1] == '/' && part[2] == 'f'
    }
}

proof fn markup_stands_behind(front: Seq<char>, tail: Seq<char>, part: Seq<char>)
    requires
        crate::pages::no_form_markup(front),
        form_markup(part),
    ensures
        forall|i: int| #[trigger]
            crate::pages::occurs_at(front + tail, part, i) <==> crate::pages::occurs_at(
                tail,
                part,
                i - front.len(),
            ),
{
    let whole = front + tail;
    assert forall|i: int| #[trigger]
        crate::pages::occurs_at(whole, part, i) <==> crate::pages::occurs_at(
            tail,
            part,
            i - front.len(),
        ) by {
        if i >= front.len() && i <= whole.len() {
            assert(whole.skip(i) =~= tail.skip(i - front.len()));
        } else if 0 <= i < front.len() && part.is_prefix_of(whole.skip(i)) {
            assert(whole.skip(i)[0] == part[0] && whole[i] == front[i]);
            assert(i < front.len() - 2);
            assert(whole.skip(i)[1] == part[1] && whole[i + 1] == front[i + 1]);
            assert(whole.skip(i)[2] == part[2] && whole[i + 2] == front[i + 2]);
        }
    }
}

/// Where in the last part of the login page the form, its inputs, its button and its end stand.
proof fn form_stands_in_tail()
    ensures
        occurs_once(
            crate::pages::LOGIN_TAIL@,
            r#"<form method="POST" action="/login" autocomplete="off">"#@,
            5,
        ),
        occurs_once(
            crate::pages::LOGIN_TAIL@,
            r#"<input id="u" name="username" autofocus>"#@,
            105,
        ),
        occurs_once(
            crate::pages::LOGIN_TAIL@,
            r#"<input id="p" name="password" type="password">"#@,
            190,
        ),
        occurs_once(
            crate::pages::LOGIN_TAIL@,
            r#"<button type="submit">Sign in</button>"#@,
            243,
        ),
        occurs_once(crate::pages::LOGIN_TAIL@, "</form>"@, 286),
        forall|i: int| #[trigger]
            crate::pages::occurs_at(crate::pages::LOGIN_TAIL@, "<input"@, i) ==> i == 105 || i
                == 190,
        forall|i: int| !#[trigger]
            crate::pages::occurs_at(crate::pages::LOGIN_TAIL@, "<script"@, i),
{
    reveal_strlit(r#"
    <form method="POST" action="/login" autocomplete="off">
      <label for="u">Username</label>
      <input id="u" name="username" autofocus>
      <label for="p">Password</label>
      <input id="p" name="password" type="password">
      <button type="submit">Sign in</button>
    </form>
    <p class="note">Served over a Tor onion service. Works with JavaScript disabled.</p>
  </div>
</body></html>"#);
    reveal_strlit(r#"<form method="POST" action="/login" autocomplete="off">"#);
    reveal_strlit(r#"<input id="u" name="username" autofocus>"#);
    reveal_strlit(r#"<input id="p" name="password" type="password">"#);
    reveal_strlit(r#"<button type="submit">Sign in</button>"#);
    reveal_strlit("</form>");
    reveal_strlit("<input");
    reveal_strlit("<script");
    let tail = crate::pages::LOGIN_TAIL@;
    stands_once(tail, r#"<form method="POST" action="/login" autocomplete="off">"#@, 5, 1);
    stands_once(tail, r#"<input id="u" name="username" autofocus>"#@, 105, 11);
    stands_once(tail, r#"<input id="p" name="password" type="password">"#@, 190, 11);
    stands_once(tail, r#"<button type="submit">Sign in</button>"#@, 243, 2);
    stands_once(tail, "</form>"@, 286, 2);
    assert(forall|i: int|
        0 <= i < tail.len() - 1 && #[trigger] tail[i] == '<' && tail[i + 1] == 'i' ==> i == 105 || i
            == 190);
    assert(forall|i: int|
        0 <= i < tail.len() - 1 && #[trigger] tail[i] == '<' ==> tail[i + 1] != 's');
    assert("<input"@[0] == '<' && "<input"@[1] == 'i');
    assert("<script"@[0] == '<' && "<script"@[1] == 's');
    assert forall|i: int| #[trigger] crate::pages::occurs_at(tail, "<input"@, i) implies i == 105
        || i == 190 by {
        assert(tail.skip(i)[0] == tail[i] && tail.skip(i)[1] == tail[i + 1]);
    }
    assert forall|i: int| !#[trigger] crate::pages::occurs_at(tail, "<script"@, i) by {
        if crate::pages::occurs_at(tail, "<script"@, i) {
            assert(tail.skip(i)[0] == tail[i] && tail.skip(i)[1] == tail[i + 1]);
        }
    }
}

/// The login page is a form that a browser without scripts can send: it posts to `/login`, asks for
/// a username and a password and for nothing else, and has a button to send it. Each of these
/// stands on the page once, inside the form, whether there was an error or not, and there is no
/// script.
pub proof fn login_page_holds_the_form(error: bool)
    ensures
        exists|form: int, user: int, password: int, button: int, end: int|
            {
                &&& form < user < password < button < end
                &&& #[trigger] occurs_once(
                    crate::pages::login_page_text(error),
                    r#"<form method="POST" action="/login" autocomplete="off">"#@,
                    form,
                )
                &&& #[trigger] occurs_once(
                    crate::pages::login_page_text(error),
                    r#"<input id="u" name="username" autofocus>"#@,
                    user,
                )
                &&& #[trigger] occurs_once(
                    crate::pages::login_page_text(error),
                    r#"<input id="p" name="password" type="password">"#@,
                    password,
                )
                &&& #[trigger] occurs_once(
                    crate::pages::login_page_text(error),
                    r#"<button type="submit">Sign in</button>"#@,
                    button,
                )
                &&& #[trigger] occurs_once(
                    crate::pages::login_page_text(error),
                    "</form>"@,
                    end,
                )
                &&& forall|i: int| #[trigger]
                    crate::pages::occurs_at(
                        crate::pages::login_page_text(error),
                        "<input"@,
                        i,
                    ) ==> i == user || i == password
            },
        forall|i: int| !#[trigger]
            crate::pages::occurs_at(crate::pages::login_page_text(error), "<script"@, i),
{
    crate::pages::capital_i_marks_the_error();
    form_stands_in_tail();
    reveal_strlit(r#"<form method="POST" action="/login" autocomplete="off">"#);
    reveal_strlit(r#"<input id="u" name="username" autofocus>"#);
    reveal_strlit(r#"<input id="p" name="password" type="password">"#);
    reveal_strlit(r#"<button type="submit">Sign in</button>"#);
    reveal_strlit("</form>");
    reveal_strlit("<input");
    reveal_strlit("<script");
    let head = crate::pages::LOGIN_HEAD@;
    let tail = crate::pages::LOGIN_TAIL@;
    let message = if error {
        crate::pages::LOGIN_ERROR@
    } else {
        Seq::empty()
    };
    let front = head + message;
    assert(crate::pages::no_form_markup(front)) by {
        if error {
            markup_free_parts(head, message);
        } else {
            assert(front =~= head);
        }
    }
    let n = front.len() as int;
    let page = crate::pages::login_page_text(error);
    assert(page =~= front + tail);
    markup_stands_behind(
        front,
        tail,
        r#"<form method="POST" action="/login" autocomplete="off">"#@,
    );
    markup_stands_behind(front, tail, r#"<input id="u" name="username" autofocus>"#@);
    markup_stands_behind(front, tail, r#"<input id="p" name="password" type="password">"#@);
    markup_stands_behind(front, tail, r#"<button type="submit">Sign in</button>"#@);
    markup_stands_behind(front, tail, "</form>"@);
    markup_stands_behind(front, tail, "<input"@);
    markup_stands_behind(front, tail, "<script"@);
    assert(occurs_once(
        page,
        r#"<form method="POST" action="/login" autocomplete="off">"#@,
        n + 5,
    ));
    assert(occurs_once(page, r#"<input id="u" name="username" autofocus>"#@, n + 105));
    assert(occurs_once(page, r#"<input id="p" name="password" type="password">"#@, n + 190));
    assert(occurs_once(page, r#"<button type="submit">Sign in</button>"#@, n + 243));
    assert(occurs_once(page, "</form>"@, n + 286));
}

proof fn markup_free_parts(a: Seq<char>, b: Seq<char>)
    requires
        crate::pages::no_form_markup(a),
        crate::pages::no_form_markup(b),
    ensures
        crate::pages::no_form_markup(a + b),
{
    let s = a + b;
    assert forall|i: int| 0 <= i < s.len() - 2 && #[trigger] s[i] == '<' implies {
        &&& s[i + 1] != 'f'
        &&& s[i + 1] != 'i'
        &&& !(s[i + 1] == 'b' && s[i + 2] == 'u')
        &&& !(s[i + 1] == 's' && s[i + 2] == 'c')
        &&& !(s[i + 1] == '/' && s[i + 2] == 'f')
    } by {
        if i < a.len() {
            assert(s[i] == a[i]);
            assert(i < a.len() - 2);
            assert(s[i + 1] == a[i + 1] && s[i + 2] == a[i + 2]);
        } else {
            let j = i - a.len();
            assert(s[i] == b[j] && s[i + 1] == b[j + 1] && s[i + 2] == b[j + 2]);
        }
    }
}

proof fn stands_once(s: Seq<char>, part: Seq<char>, at: int, k: int)
    requires
        0 <= at <= s.len() - part.len(),
        0 < k < part.len(),
        s.subrange(at, at + part.len()) =~= part,
        forall|i: int|
            0 <= i < s.len() - k && #[trigger] s[i] == part[0] && s[i + 1] == part[1] && s[i + k]
                == part[k] ==> i == at,
    ensures
        occurs_once(s, part, at),
{
    assert forall|i: int| #[trigger] crate::pages::occurs_at(s, part, i) implies i == at by {
        assert(s.skip(i)[0] == s[i] && s.skip(i)[1] == s[i + 1] && s.skip(i)[k] == s[i + k]);
    }
    assert(s.skip(at).take(part.len() as int) =~= s.subrange(at, at + part.len()));
    assert(crate::pages::occurs_at(s, part, at));
}

} // verus!
