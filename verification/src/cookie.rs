//! The session cookie.

use hyper::header::{HeaderMap, HeaderValue, COOKIE};
use vstd::prelude::*;

use crate::text::{split_on, strip_prefix, trim};

verus! {

/// The attributes of the session cookie. Browsers honor `Secure` on an onion origin and on
/// `http://localhost`; `SameSite=Strict` keeps the cookie out of cross-site requests.
pub const COOKIE_ATTRS: &'static str = "HttpOnly; SameSite=Strict; Secure; Path=/";

/// The `Set-Cookie` value that hands out `token`.
pub open spec fn set_cookie_text(token: Seq<char>) -> Seq<char> {
    "session="@ + token + "; "@ + COOKIE_ATTRS@
}

/// The `Set-Cookie` value that makes a browser forget the session cookie.
pub open spec fn clear_cookie_text() -> Seq<char> {
    "session=; "@ + COOKIE_ATTRS@ + "; Max-Age=0"@
}

/// Writes the `Set-Cookie` value that hands out `token`.
pub fn set_cookie(token: &str) -> (r: String)
    ensures
        r@ == set_cookie_text(token@),
{
    let mut out = "session=".to_owned();
    out.append(token);
    out.append("; ");
    out.append(COOKIE_ATTRS);
    out
}

/// Writes the `Set-Cookie` value that makes a browser forget the session cookie.
pub fn clear_cookie() -> (r: String)
    ensures
        r@ == clear_cookie_text(),
{
    let mut out = "session=; ".to_owned();
    out.append(COOKIE_ATTRS);
    out.append("; Max-Age=0");
    out
}

/// http's `HeaderMap`. What one holds is named by [`header_values`].
#[verifier::external_type_specification]
#[verifier::external_body]
#[verifier::reject_recursive_types(T)]
pub struct ExHeaderMap<T>(HeaderMap<T>);

/// http's `HeaderValue`, the type of the values in a header map. Nothing is claimed of it.
#[verifier::external_type_specification]
#[verifier::external_body]
pub struct ExHeaderValue(HeaderValue);

/// What a header map holds: under each header name, in lower case, the bytes of the values that
/// were given for it, in their order.
pub uninterp spec fn header_values(headers: HeaderMap<HeaderValue>) -> Map<
    Seq<char>,
    Seq<Seq<u8>>,
>;

/// Whether `b` is a visible ASCII character, a space or a tab.
pub open spec fn visible(b: u8) -> bool {
    0x20 <= b <= 0x7e || b == 0x09
}

/// The text of a header value: `None` unless every byte of it is visible.
pub open spec fn header_text(value: Seq<u8>) -> Option<Seq<char>> {
    if forall|i: int| 0 <= i < value.len() ==> visible(#[trigger] value[i]) {
        Some(value.map_values(|b: u8| b as char))
    } else {
        None
    }
}

/// The text of the first `Cookie` header among `values`.
pub open spec fn cookie_header(values: Map<Seq<char>, Seq<Seq<u8>>>) -> Option<Seq<char>> {
    if values.contains_key("cookie"@) && values["cookie"@].len() > 0 {
        header_text(values["cookie"@][0])
    } else {
        None
    }
}

/// `get` of http's `HeaderMap` with the name `cookie`, then `to_str` of the `HeaderValue` found:
/// the first value given under the name, where there is one and where every byte of it is
/// visible ASCII, a space or a tab.
#[verifier::external_body]
fn cookie_text(headers: &HeaderMap<HeaderValue>) -> (r: Option<String>)
    ensures
        crate::text::opt_text(r) == cookie_header(header_values(*headers)),
{
    match headers.get(COOKIE)?.to_str() {
        Ok(text) => Some(text.to_string()),
        Err(_) => None,
    }
}

/// The value of the first `session` cookie among the cookies in `list`.
pub open spec fn session_in(list: Seq<Seq<char>>) -> Option<Seq<char>>
    decreases list.len(),
{
    if list.len() == 0 {
        None
    } else {
        let cookie = crate::text::trimmed(list[0]);
        if "session="@.is_prefix_of(cookie) {
            Some(cookie.skip("session="@.len() as int))
        } else {
            session_in(list.skip(1))
        }
    }
}

/// The value of the first `session` cookie in the text of a `Cookie` header, in which the
/// cookies are separated by semicolons and white space around them does not count.
pub open spec fn session_cookie_in(cookies: Seq<char>) -> Option<Seq<char>> {
    session_in(crate::text::pieces(cookies, ';'))
}

/// The session cookie among the headers of a request.
pub open spec fn session_token_in(values: Map<Seq<char>, Seq<Seq<u8>>>) -> Option<Seq<char>> {
    match cookie_header(values) {
        Some(cookies) => session_cookie_in(cookies),
        None => None,
    }
}

/// Finds the `session` cookie in the text of a `Cookie` header.
pub fn session_cookie(cookies: &str) -> (r: Option<String>)
    ensures
        crate::text::opt_text(r) == session_cookie_in(cookies@),
{
    let list = split_on(cookies, ';');
    let ghost all = crate::text::pieces(cookies@, ';');
    let mut i: usize = 0;
    proof {
        assert(crate::text::texts(list@).len() == list@.len());
        assert(all.skip(0) =~= all);
    }
    while i < list.len()
        invariant
            all == crate::text::pieces(cookies@, ';'),
            crate::text::texts(list@) == all,
            i <= list@.len() == all.len(),
            session_in(all.skip(i as int)) == session_in(all),
        decreases list@.len() - i,
    {
        let cookie = trim(list[i].as_str());
        proof {
            assert(list@[i as int]@ == all[i as int]);
            assert(all.skip(i as int)[0] == all[i as int]);
            assert(all.skip(i as int).skip(1) =~= all.skip(i + 1));
        }
        match strip_prefix(cookie.as_str(), "session=") {
            Some(value) => {
                return Some(value);
            },
            None => {},
        }
        i += 1;
    }
    None
}

/// Extracts the `session` cookie value from the headers of a request.
pub fn session_token(headers: &HeaderMap<HeaderValue>) -> (r: Option<String>)
    ensures
        crate::text::opt_text(r) == session_token_in(header_values(*headers)),
{
    match cookie_text(headers) {
        Some(cookies) => session_cookie(cookies.as_str()),
        None => None,
    }
}

proof fn session_in_parts(a: Seq<Seq<char>>, b: Seq<Seq<char>>)
    ensures
        session_in(a + b) == (if session_in(a) is Some {
            session_in(a)
        } else {
            session_in(b)
        }),
    decreases a.len(),
{
    if a.len() == 0 {
        assert(a + b =~= b);
    } else {
        assert((a + b).skip(1) =~= a.skip(1) + b);
        session_in_parts(a.skip(1), b);
    }
}

/// The `session` cookie that holds `token`, as a browser sends it back.
pub open spec fn returned_cookie(token: Seq<char>) -> Seq<char> {
    "session="@ + token
}

proof fn returned_cookie_facts(token: Seq<char>)
    requires
        crate::credentials::token_shaped(token),
    ensures
        forall|i: int|
            0 <= i < returned_cookie(token).len() ==> #[trigger] returned_cookie(token)[i] != ';',
        crate::text::trimmed(returned_cookie(token)) == returned_cookie(token),
        crate::text::trimmed(seq![' '] + returned_cookie(token)) == returned_cookie(token),
        "session="@.is_prefix_of(returned_cookie(token)),
        returned_cookie(token).skip("session="@.len() as int) == token,
{
    reveal_strlit("session=");
    let cookie = returned_cookie(token);
    assert forall|i: int| 0 <= i < cookie.len() implies #[trigger] cookie[i] != ';' by {
        if i >= 8 {
            assert(cookie[i] == token[i - 8]);
            assert(crate::credentials::lower_hex(token[i - 8]));
        }
    }
    assert(cookie[0] == 's');
    assert(cookie.last() == token[63]);
    assert(crate::credentials::lower_hex(token[63]));
    let spaced = seq![' '] + cookie;
    assert(spaced.skip(1) =~= cookie);
    assert(crate::text::trimmed(spaced) == crate::text::trimmed(cookie));
    assert(cookie.subrange(0, 8) =~= "session="@);
    assert(cookie.skip(8) =~= token);
}

/// The token that was handed out in a cookie is the token that is read back, wherever the
/// browser puts the cookie: alone, behind cookies that are not the session's, or in front of any
/// others.
pub proof fn handed_out_token_comes_back(
    before: Seq<char>,
    token: Seq<char>,
    after: Seq<char>,
)
    requires
        crate::credentials::token_shaped(token),
        session_cookie_in(before) is None,
    ensures
        session_cookie_in(returned_cookie(token)) == Some(token),
        session_cookie_in(returned_cookie(token).push(';') + after) == Some(token),
        session_cookie_in(before.push(';') + (seq![' '] + returned_cookie(token))) == Some(token),
        session_cookie_in(
            before.push(';') + ((seq![' '] + returned_cookie(token)).push(';') + after),
        ) == Some(token),
{
    let cookie = returned_cookie(token);
    let spaced = seq![' '] + cookie;
    let first = crate::text::pieces(before, ';');
    let last = crate::text::pieces(after, ';');
    returned_cookie_facts(token);
    assert forall|i: int| 0 <= i < spaced.len() implies #[trigger] spaced[i] != ';' by {
        if i > 0 {
            assert(spaced[i] == cookie[i - 1]);
        }
    }
    crate::text::pieces_of_one(cookie, ';');
    crate::text::pieces_of_one(spaced, ';');
    crate::text::pieces_around(cookie, ';', after);
    crate::text::pieces_around(before, ';', spaced);
    crate::text::pieces_around(spaced, ';', after);
    crate::text::pieces_around(before, ';', spaced.push(';') + after);
    assert(session_in(seq![cookie]) == Some(token));
    assert(session_in(seq![spaced]) == Some(token));
    session_in_parts(seq![cookie], last);
    session_in_parts(seq![spaced], last);
    session_in_parts(first, seq![spaced]);
    session_in_parts(first, seq![spaced] + last);
}

/// A `Cookie` header of visible text is read as that text: the session cookie that is found in
/// the headers is the one in the text of the first such header.
pub proof fn header_is_read_as_its_text(
    values: Map<Seq<char>, Seq<Seq<u8>>>,
    cookies: Seq<char>,
)
    requires
        vstd::utf8::is_ascii_chars(cookies),
        forall|i: int| 0 <= i < cookies.len() ==> visible((#[trigger] cookies[i]) as u8),
        values.contains_key("cookie"@),
        values["cookie"@].len() > 0,
        values["cookie"@][0] == vstd::utf8::encode_utf8(cookies),
    ensures
        session_token_in(values) == session_cookie_in(cookies),
{
    let bytes = vstd::utf8::encode_utf8(cookies);
    vstd::utf8::is_ascii_chars_encode_utf8(cookies);
    assert forall|i: int| 0 <= i < bytes.len() implies visible(#[trigger] bytes[i])
        && bytes[i] as char == cookies[i] by {
        assert(cookies[i] as u8 == bytes[i]);
    }
    assert(bytes.map_values(|b: u8| b as char) =~= cookies);
}

proof fn session_in_none(list: Seq<Seq<char>>)
    ensures
        session_in(list) is None <==> forall|i: int|
            0 <= i < list.len() ==> !"session="@.is_prefix_of(
                crate::text::trimmed(#[trigger] list[i]),
            ),
    decreases list.len(),
{
    if list.len() > 0 {
        let rest = list.skip(1);
        session_in_none(rest);
        if session_in(list) is None {
            assert forall|i: int| 0 <= i < list.len() implies !"session="@.is_prefix_of(
                crate::text::trimmed(#[trigger] list[i]),
            ) by {
                if i > 0 {
                    assert(rest[i - 1] == list[i]);
                }
            }
        }
        if forall|i: int|
            0 <= i < list.len() ==> !"session="@.is_prefix_of(
                crate::text::trimmed(#[trigger] list[i]),
            ) {
            assert forall|i: int| 0 <= i < rest.len() implies !"session="@.is_prefix_of(
                crate::text::trimmed(#[trigger] rest[i]),
            ) by {
                assert(rest[i] == list[i + 1]);
            }
            assert(!"session="@.is_prefix_of(crate::text::trimmed(list[0])));
        }
    }
}

/// Only a cookie with the name `session` is taken for the session cookie: a header holds none
/// exactly where no cookie in it, trimmed, begins with `session=`.
pub proof fn other_cookies_are_no_session(cookies: Seq<char>)
    ensures
        session_cookie_in(cookies) is None <==> forall|i: int|
            0 <= i < crate::text::pieces(cookies, ';').len() ==> !"session="@.is_prefix_of(
                crate::text::trimmed(#[trigger] crate::text::pieces(cookies, ';')[i]),
            ),
{
    session_in_none(crate::text::pieces(cookies, ';'));
}

/// The session cookie is the first of that name, wherever it stands and whatever the others are:
/// its value is all that follows `session=`.
pub proof fn first_session_cookie_counts(cookies: Seq<char>, i: int, value: Seq<char>)
    requires
        0 <= i < crate::text::pieces(cookies, ';').len(),
        crate::text::trimmed(crate::text::pieces(cookies, ';')[i]) == "session="@ + value,
        forall|j: int|
            0 <= j < i ==> !"session="@.is_prefix_of(
                crate::text::trimmed(#[trigger] crate::text::pieces(cookies, ';')[j]),
            ),
    ensures
        session_cookie_in(cookies) == Some(value),
{
    let list = crate::text::pieces(cookies, ';');
    let before = list.take(i);
    let rest = list.skip(i);
    assert forall|j: int| 0 <= j < before.len() implies !"session="@.is_prefix_of(
        crate::text::trimmed(#[trigger] before[j]),
    ) by {
        assert(before[j] == list[j]);
    }
    session_in_none(before);
    session_in_parts(before, rest);
    assert(before + rest =~= list);
    assert(rest[0] == list[i]);
    let cookie = "session="@ + value;
    assert(cookie.take("session="@.len() as int) =~= "session="@);
    assert("session="@.is_prefix_of(cookie));
    assert(cookie.skip("session="@.len() as int) =~= value);
}

/// A request without a `Cookie` header, or whose first one holds a byte that is no visible ASCII
/// character, space or tab, carries no session; headers with other names, and further `Cookie`
/// headers, make no difference.
pub proof fn only_the_first_cookie_header_counts(
    values: Map<Seq<char>, Seq<Seq<u8>>>,
    others: Map<Seq<char>, Seq<Seq<u8>>>,
    i: int,
)
    ensures
        !values.contains_key("cookie"@) || values["cookie"@].len() == 0 ==> session_token_in(values)
            is None,
        values.contains_key("cookie"@) && values["cookie"@].len() > 0 && 0 <= i
            < values["cookie"@][0].len() && !(0x20 <= values["cookie"@][0][i] <= 0x7e)
            && values["cookie"@][0][i] != 0x09 ==> session_token_in(values) is None,
        values.contains_key("cookie"@) && others.contains_key("cookie"@)
            && values["cookie"@].len() > 0 && others["cookie"@].len() > 0
            && values["cookie"@][0] == others["cookie"@][0] ==> session_token_in(values)
            == session_token_in(others),
{
    if values.contains_key("cookie"@) && values["cookie"@].len() > 0 {
        let first = values["cookie"@][0];
        if 0 <= i < first.len() && !(0x20 <= first[i] <= 0x7e) && first[i] != 0x09 {
            assert(!visible(first[i]));
        }
    }
}

/// A `Cookie` header of printable ASCII characters and tabs is read as that text.
pub proof fn printable_header_is_read(
    values: Map<Seq<char>, Seq<Seq<u8>>>,
    cookies: Seq<char>,
)
    requires
        forall|i: int|
            0 <= i < cookies.len() ==> ' ' <= #[trigger] cookies[i] <= '~' || cookies[i] == '\t',
        values.contains_key("cookie"@),
        values["cookie"@].len() > 0,
        values["cookie"@][0] == vstd::utf8::encode_utf8(cookies),
    ensures
        session_token_in(values) == session_cookie_in(cookies),
{
    header_is_read_as_its_text(values, cookies);
}

proof fn attributes_are_cut()
    ensures
        crate::text::pieces(" HttpOnly; SameSite=Strict; Secure; Path=/"@, ';') == seq![
            " HttpOnly"@,
            " SameSite=Strict"@,
            " Secure"@,
            " Path=/"@,
        ],
{
    reveal_strlit(" HttpOnly; SameSite=Strict; Secure; Path=/");
    reveal_strlit(" HttpOnly");
    reveal_strlit(" SameSite=Strict");
    reveal_strlit(" Secure");
    reveal_strlit(" Path=/");
    let third = " Secure"@.push(';') + " Path=/"@;
    let second = " SameSite=Strict"@.push(';') + third;
    assert(" HttpOnly; SameSite=Strict; Secure; Path=/"@ =~= " HttpOnly"@.push(';') + second);
    crate::text::pieces_around(" HttpOnly"@, ';', second);
    crate::text::pieces_around(" SameSite=Strict"@, ';', third);
    crate::text::pieces_around(" Secure"@, ';', " Path=/"@);
    crate::text::pieces_of_one(" HttpOnly"@, ';');
    crate::text::pieces_of_one(" SameSite=Strict"@, ';');
    crate::text::pieces_of_one(" Secure"@, ';');
    crate::text::pieces_of_one(" Path=/"@, ';');
    assert(crate::text::pieces(" HttpOnly; SameSite=Strict; Secure; Path=/"@, ';') =~= seq![
        " HttpOnly"@,
        " SameSite=Strict"@,
        " Secure"@,
        " Path=/"@,
    ]);
}

/// The cookie that is handed out, as a browser reads it: behind the name and the value stand the
/// attributes that keep it from scripts, from other sites and from plain connections, and send it
/// with every path.
pub proof fn cookie_is_set_with_its_attributes(token: Seq<char>)
    requires
        forall|i: int| 0 <= i < token.len() ==> #[trigger] token[i] != ';',
    ensures
        crate::text::pieces(set_cookie_text(token), ';') == seq![
            "session="@ + token,
            " HttpOnly"@,
            " SameSite=Strict"@,
            " Secure"@,
            " Path=/"@,
        ],
{
    reveal_strlit("session=");
    reveal_strlit("; HttpOnly; SameSite=Strict; Secure; Path=/");
    reveal_strlit(" HttpOnly; SameSite=Strict; Secure; Path=/");
    let cookie = "session="@ + token;
    let rest = " HttpOnly; SameSite=Strict; Secure; Path=/"@;
    cookie_holds_its_token(token);
    assert("; HttpOnly; SameSite=Strict; Secure; Path=/"@ =~= seq![';'] + rest);
    assert(set_cookie_text(token) =~= cookie.push(';') + rest);
    assert forall|i: int| 0 <= i < cookie.len() implies #[trigger] cookie[i] != ';' by {
        if i >= 8 {
            assert(cookie[i] == token[i - 8]);
        }
    }
    attributes_are_cut();
    crate::text::pieces_of_one(cookie, ';');
    crate::text::pieces_around(cookie, ';', rest);
    assert(crate::text::pieces(set_cookie_text(token), ';') =~= seq![
        cookie,
        " HttpOnly"@,
        " SameSite=Strict"@,
        " Secure"@,
        " Path=/"@,
    ]);
}

/// The cookie that ends a session, as a browser reads it: it replaces the one that was handed out,
/// having its name and attributes, and has an empty value and no time to live.
pub proof fn cookie_is_cleared_with_its_attributes()
    ensures
        crate::text::pieces(clear_cookie_text(), ';') == seq![
            "session="@,
            " HttpOnly"@,
            " SameSite=Strict"@,
            " Secure"@,
            " Path=/"@,
            " Max-Age=0"@,
        ],
{
    reveal_strlit("session=");
    reveal_strlit("session=; ");
    reveal_strlit("; Max-Age=0");
    reveal_strlit(" Max-Age=0");
    reveal_strlit("HttpOnly; SameSite=Strict; Secure; Path=/");
    reveal_strlit(" HttpOnly; SameSite=Strict; Secure; Path=/");
    let attributes = " HttpOnly; SameSite=Strict; Secure; Path=/"@;
    let rest = attributes.push(';') + " Max-Age=0"@;
    assert(attributes =~= seq![' '] + COOKIE_ATTRS@);
    assert("session=; "@ =~= "session="@.push(';') + seq![' ']);
    assert("; Max-Age=0"@ =~= seq![';'] + " Max-Age=0"@);
    assert(clear_cookie_text() =~= "session="@.push(';') + rest);
    attributes_are_cut();
    crate::text::pieces_of_one("session="@, ';');
    crate::text::pieces_of_one(" Max-Age=0"@, ';');
    crate::text::pieces_around("session="@, ';', rest);
    crate::text::pieces_around(attributes, ';', " Max-Age=0"@);
    assert(crate::text::pieces(clear_cookie_text(), ';') =~= seq![
        "session="@,
        " HttpOnly"@,
        " SameSite=Strict"@,
        " Secure"@,
        " Path=/"@,
        " Max-Age=0"@,
    ]);
}

/// Every token is handed out whole, between the name of the cookie and its attributes.
pub proof fn cookie_holds_its_token(token: Seq<char>)
    ensures
        set_cookie_text(token) == "session="@ + token
            + "; HttpOnly; SameSite=Strict; Secure; Path=/"@,
{
    reveal_strlit("; ");
    reveal_strlit("HttpOnly; SameSite=Strict; Secure; Path=/");
    reveal_strlit("; HttpOnly; SameSite=Strict; Secure; Path=/");
    assert("; "@ + COOKIE_ATTRS@ =~= "; HttpOnly; SameSite=Strict; Secure; Path=/"@);
    assert(set_cookie_text(token) =~= "session="@ + token + ("; "@ + COOKIE_ATTRS@));
}

} // verus!
