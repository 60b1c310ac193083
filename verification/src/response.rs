//! Responses as plain values.

use vstd::prelude::*;

verus! {

/// The status codes that are sent.
pub const OK: u16 = 200;

pub const SEE_OTHER: u16 = 303;

pub const UNAUTHORIZED: u16 = 401;

pub const NOT_FOUND: u16 = 404;

pub const PAYLOAD_TOO_LARGE: u16 = 413;

/// A response to be sent: its status code, its headers in order, and its body.
#[derive(Debug)]
pub struct Response {
    pub status: u16,
    pub headers: Vec<(String, String)>,
    pub body: String,
}

/// What a response holds.
#[verifier::ext_equal]
pub struct ResponseView {
    pub status: u16,
    pub headers: Seq<(Seq<char>, Seq<char>)>,
    pub body: Seq<char>,
}

impl View for Response {
    type V = ResponseView;

    open spec fn view(&self) -> ResponseView {
        ResponseView {
            status: self.status,
            headers: self.headers@.map_values(|h: (String, String)| (h.0@, h.1@)),
            body: self.body@,
        }
    }
}

/// Whether a status code has the three digits that HTTP asks for.
pub open spec fn status_code(status: u16) -> bool {
    100 <= status <= 999
}

/// Whether HTTP allows `value` as the value of a header: it holds no control character but the
/// tab.
pub open spec fn header_safe(value: Seq<char>) -> bool {
    forall|i: int|
        0 <= i < value.len() ==> #[trigger] value[i] == '\t' || (value[i] >= ' ' && value[i]
            != '\u{7f}')
}

/// Whether a response can be sent as it is.
pub open spec fn sendable(response: ResponseView) -> bool {
    &&& status_code(response.status)
    &&& forall|i: int|
        0 <= i < response.headers.len() ==> header_safe((#[trigger] response.headers[i]).1)
}

/// The response with an HTML page.
pub open spec fn html_reply(status: u16, body: Seq<char>) -> ResponseView {
    ResponseView {
        status,
        headers: seq![
            ("cache-control"@, "no-store"@),
            ("content-type"@, "text/html; charset=utf-8"@),
        ],
        body,
    }
}

/// The response with a JSON value.
pub open spec fn json_reply(status: u16, body: Seq<char>) -> ResponseView {
    ResponseView {
        status,
        headers: seq![("cache-control"@, "no-store"@), ("content-type"@, "application/json"@)],
        body,
    }
}

/// The headers of a redirect.
pub open spec fn redirect_headers(
    location: Seq<char>,
    cookie: Option<Seq<char>>,
) -> Seq<(Seq<char>, Seq<char>)> {
    let headers = seq![("cache-control"@, "no-store"@), ("location"@, location)];
    match cookie {
        Some(value) => headers.push(("set-cookie"@, value)),
        None => headers,
    }
}

/// The redirect to `location` that may set a cookie. Its status makes a browser fetch the
/// location with GET, whatever the method of the request was.
pub open spec fn redirect_reply(location: Seq<char>, cookie: Option<Seq<char>>) -> ResponseView {
    ResponseView {
        status: SEE_OTHER,
        headers: redirect_headers(location, cookie),
        body: Seq::empty(),
    }
}

/// Builds the response with an HTML page.
pub fn html(status: u16, body: String) -> (r: Response)
    requires
        status_code(status),
    ensures
        r@ == html_reply(status, body@),
        sendable(r@),
{
    let mut headers: Vec<(String, String)> = Vec::new();
    headers.push(("cache-control".to_owned(), "no-store".to_owned()));
    headers.push(("content-type".to_owned(), "text/html; charset=utf-8".to_owned()));
    let r = Response { status, headers, body };
    proof {
        reveal_strlit("no-store");
        reveal_strlit("text/html; charset=utf-8");
        assert(r@ =~= html_reply(status, body@));
    }
    r
}

/// Builds the response with a JSON value.
pub fn json(status: u16, body: String) -> (r: Response)
    requires
        status_code(status),
    ensures
        r@ == json_reply(status, body@),
        sendable(r@),
{
    let mut headers: Vec<(String, String)> = Vec::new();
    headers.push(("cache-control".to_owned(), "no-store".to_owned()));
    headers.push(("content-type".to_owned(), "application/json".to_owned()));
    let r = Response { status, headers, body };
    proof {
        reveal_strlit("no-store");
        reveal_strlit("application/json");
        assert(r@ =~= json_reply(status, body@));
    }
    r
}

/// Builds the 303 response, so that a POST redirects to a GET, optionally setting a cookie.
pub fn redirect(location: &str, cookie: Option<&str>) -> (r: Response)
    requires
        header_safe(location@),
        cookie matches Some(value) ==> header_safe(value@),
    ensures
        r@ == redirect_reply(
            location@,
            match cookie {
                Some(value) => Some(value@),
                None => None,
            },
        ),
        sendable(r@),
{
    let mut headers: Vec<(String, String)> = Vec::new();
    headers.push(("cache-control".to_owned(), "no-store".to_owned()));
    headers.push(("location".to_owned(), location.to_owned()));
    if let Some(value) = cookie {
        headers.push(("set-cookie".to_owned(), value.to_owned()));
    }
    let r = Response { status: SEE_OTHER, headers, body: String::new() };
    proof {
        reveal_strlit("no-store");
        let expected = redirect_reply(
            location@,
            match cookie {
                Some(value) => Some(value@),
                None => None,
            },
        );
        assert(r@.headers =~= expected.headers);
        assert(r@ =~= expected);
    }
    r
}

/// The values of the headers with the name `name`, in order.
pub open spec fn values_of(headers: Seq<(Seq<char>, Seq<char>)>, name: Seq<char>) -> Seq<Seq<char>>
    decreases headers.len(),
{
    if headers.len() == 0 {
        Seq::empty()
    } else if headers.last().0 == name {
        values_of(headers.drop_last(), name).push(headers.last().1)
    } else {
        values_of(headers.drop_last(), name)
    }
}

proof fn header_names_differ()
    ensures
        "cache-control"@ != "content-type"@,
        "cache-control"@ != "location"@,
        "cache-control"@ != "set-cookie"@,
        "content-type"@ != "location"@,
        "content-type"@ != "set-cookie"@,
        "location"@ != "set-cookie"@,
{
    reveal_strlit("cache-control");
    reveal_strlit("content-type");
    reveal_strlit("location");
    reveal_strlit("set-cookie");
    assert("cache-control"@.len() == 13 && "content-type"@.len() == 12);
    assert("location"@.len() == 8 && "set-cookie"@.len() == 10);
}

proof fn values_of_two(a: (Seq<char>, Seq<char>), b: (Seq<char>, Seq<char>), name: Seq<char>)
    requires
        a.0 != b.0,
    ensures
        values_of(seq![a, b], name) == (if name == a.0 {
            seq![a.1]
        } else if name == b.0 {
            seq![b.1]
        } else {
            Seq::empty()
        }),
{
    let list = seq![a, b];
    reveal_with_fuel(values_of, 3);
    assert(list.drop_last() =~= seq![a]);
    assert(list.drop_last().drop_last() =~= Seq::<(Seq<char>, Seq<char>)>::empty());
    assert(values_of(list, name) =~= (if name == a.0 {
        seq![a.1]
    } else if name == b.0 {
        seq![b.1]
    } else {
        Seq::empty()
    }));
}

/// A page and a JSON value are sent as they are, under the status that they were given: the
/// response says what they are, forbids caches to keep them, leads nowhere and sets no cookie.
pub proof fn content_is_sent_as_it_is(status: u16, body: Seq<char>)
    ensures
        html_reply(status, body).status == status,
        json_reply(status, body).status == status,
        html_reply(status, body).body == body,
        json_reply(status, body).body == body,
        html_reply(status, body).headers.len() == 2,
        json_reply(status, body).headers.len() == 2,
        values_of(html_reply(status, body).headers, "content-type"@) == seq![
            "text/html; charset=utf-8"@,
        ],
        values_of(json_reply(status, body).headers, "content-type"@) == seq!["application/json"@],
        values_of(html_reply(status, body).headers, "cache-control"@) == seq!["no-store"@],
        values_of(json_reply(status, body).headers, "cache-control"@) == seq!["no-store"@],
        values_of(html_reply(status, body).headers, "set-cookie"@) == Seq::<Seq<char>>::empty(),
        values_of(json_reply(status, body).headers, "set-cookie"@) == Seq::<Seq<char>>::empty(),
        values_of(html_reply(status, body).headers, "location"@) == Seq::<Seq<char>>::empty(),
        values_of(json_reply(status, body).headers, "location"@) == Seq::<Seq<char>>::empty(),
{
    header_names_differ();
    let cache = ("cache-control"@, "no-store"@);
    let page = ("content-type"@, "text/html; charset=utf-8"@);
    let value = ("content-type"@, "application/json"@);
    values_of_two(cache, page, "content-type"@);
    values_of_two(cache, page, "cache-control"@);
    values_of_two(cache, page, "set-cookie"@);
    values_of_two(cache, page, "location"@);
    values_of_two(cache, value, "content-type"@);
    values_of_two(cache, value, "cache-control"@);
    values_of_two(cache, value, "set-cookie"@);
    values_of_two(cache, value, "location"@);
}

/// A redirect leads to the one place that it was given, with the status that makes a browser fetch
/// it with GET, and sets the cookie that it was given, or none. It has no body and is not kept.
pub proof fn redirect_leads_to_its_place(location: Seq<char>, cookie: Seq<char>)
    ensures
        redirect_reply(location, None).status == 303,
        redirect_reply(location, None).body == Seq::<char>::empty(),
        redirect_reply(location, None).headers.len() == 2,
        values_of(redirect_reply(location, None).headers, "location"@) == seq![location],
        values_of(redirect_reply(location, None).headers, "cache-control"@) == seq!["no-store"@],
        values_of(redirect_reply(location, None).headers, "set-cookie"@)
            == Seq::<Seq<char>>::empty(),
        redirect_reply(location, Some(cookie)).status == 303,
        redirect_reply(location, Some(cookie)).body == Seq::<char>::empty(),
        redirect_reply(location, Some(cookie)).headers == redirect_reply(
            location,
            None,
        ).headers.push(("set-cookie"@, cookie)),
{
    header_names_differ();
    let cache = ("cache-control"@, "no-store"@);
    let place = ("location"@, location);
    values_of_two(cache, place, "location"@);
    values_of_two(cache, place, "cache-control"@);
    values_of_two(cache, place, "set-cookie"@);
}

} // verus!
