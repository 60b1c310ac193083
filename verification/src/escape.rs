//! Escaping of user-controlled text before it is placed in HTML or JSON.

use vstd::prelude::*;

verus! {

/// How one character is written in HTML text or in a double-quoted attribute.
pub open spec fn html_form(c: char) -> Seq<char> {
    if c == '&' {
        "&amp;"@
    } else if c == '<' {
        "&lt;"@
    } else if c == '>' {
        "&gt;"@
    } else if c == '"' {
        "&quot;"@
    } else {
        seq![c]
    }
}

/// `s` with `&`, `<`, `>` and `"` written as HTML entities.
pub open spec fn html_escaped(s: Seq<char>) -> Seq<char>
    decreases s.len(),
{
    if s.len() == 0 {
        Seq::empty()
    } else {
        html_escaped(s.drop_last()) + html_form(s.last())
    }
}

/// Writes `&`, `<`, `>` and `"` as HTML entities and leaves every other character alone.
pub fn html_escape(s: &str) -> (r: String)
    ensures
        r@ == html_escaped(s@),
{
    let mut out = String::new();
    for c in it: s.chars()
        invariant
            it.seq() == s@,
            out@ == html_escaped(s@.take(it.index() as int)),
    {
        proof {
            let i = it.index() as int;
            assert(s@.take(i + 1).drop_last() =~= s@.take(i));
        }
        if c == '&' {
            out.append("&amp;");
        } else if c == '<' {
            out.append("&lt;");
        } else if c == '>' {
            out.append("&gt;");
        } else if c == '"' {
            out.append("&quot;");
        } else {
            out.push(c);
        }
    }
    proof {
        assert(s@.take(s@.len() as int) =~= s@);
    }
    out
}

/// How one character is written inside a JSON string.
pub open spec fn json_form(c: char) -> Seq<char> {
    if c == '\\' || c == '"' {
        seq!['\\', c]
    } else {
        seq![c]
    }
}

/// `s` with a backslash before every backslash and every double quote.
pub open spec fn json_escaped(s: Seq<char>) -> Seq<char>
    decreases s.len(),
{
    if s.len() == 0 {
        Seq::empty()
    } else {
        json_escaped(s.drop_last()) + json_form(s.last())
    }
}

/// Puts a backslash before every backslash and every double quote. Control characters are left
/// as they are.
pub fn json_escape(s: &str) -> (r: String)
    ensures
        r@ == json_escaped(s@),
{
    let mut out = String::new();
    for c in it: s.chars()
        invariant
            it.seq() == s@,
            out@ == json_escaped(s@.take(it.index() as int)),
    {
        proof {
            let i = it.index() as int;
            assert(s@.take(i + 1).drop_last() =~= s@.take(i));
        }
        if c == '\\' || c == '"' {
            out.push('\\');
        }
        out.push(c);
    }
    proof {
        assert(s@.take(s@.len() as int) =~= s@);
    }
    out
}

/// The text that a browser shows for `s`, where `s` is text and entities only: `None` if `s`
/// holds a `<`, `>` or `"`, or an `&` that starts none of the four entities.
pub open spec fn html_read(s: Seq<char>) -> Option<Seq<char>>
    decreases s.len(),
{
    if s.len() == 0 {
        Some(Seq::empty())
    } else if s[0] == '<' || s[0] == '>' || s[0] == '"' {
        None
    } else if s[0] == '&' {
        if s.len() >= 5 && "&amp;"@.is_prefix_of(s) {
            prefixed('&', html_read(s.skip(5)))
        } else if s.len() >= 4 && "&lt;"@.is_prefix_of(s) {
            prefixed('<', html_read(s.skip(4)))
        } else if s.len() >= 4 && "&gt;"@.is_prefix_of(s) {
            prefixed('>', html_read(s.skip(4)))
        } else if s.len() >= 6 && "&quot;"@.is_prefix_of(s) {
            prefixed('"', html_read(s.skip(6)))
        } else {
            None
        }
    } else {
        prefixed(s[0], html_read(s.skip(1)))
    }
}

/// The text that a JSON reader finds in a string with the content `s`: `None` if a double quote
/// ends the string early, or if a backslash is followed by neither a backslash nor a double
/// quote.
pub open spec fn json_read(s: Seq<char>) -> Option<Seq<char>>
    decreases s.len(),
{
    if s.len() == 0 {
        Some(Seq::empty())
    } else if s[0] == '"' {
        None
    } else if s[0] == '\\' {
        if s.len() >= 2 && (s[1] == '\\' || s[1] == '"') {
            prefixed(s[1], json_read(s.skip(2)))
        } else {
            None
        }
    } else {
        prefixed(s[0], json_read(s.skip(1)))
    }
}

/// `rest`, where there is one, with `c` in front.
pub open spec fn prefixed(c: char, rest: Option<Seq<char>>) -> Option<Seq<char>> {
    match rest {
        Some(text) => Some(seq![c] + text),
        None => None,
    }
}

/// `rest`, where there is one, with `front` in front.
pub open spec fn preceded(front: Seq<char>, rest: Option<Seq<char>>) -> Option<Seq<char>> {
    match rest {
        Some(text) => Some(front + text),
        None => None,
    }
}

proof fn html_read_one(c: char, rest: Seq<char>)
    ensures
        html_read(html_form(c) + rest) == prefixed(c, html_read(rest)),
{
    reveal_strlit("&amp;");
    reveal_strlit("&lt;");
    reveal_strlit("&gt;");
    reveal_strlit("&quot;");
    let form = html_form(c);
    assert((form + rest).skip(form.len() as int) =~= rest);
    assert(form.is_prefix_of(form + rest)) by {
        assert((form + rest).subrange(0, form.len() as int) =~= form);
    }
    if c == '&' || c == '<' || c == '>' || c == '"' {
        assert((form + rest)[0] == form[0] && (form + rest)[1] == form[1]);
        assert("&amp;"@.is_prefix_of(form + rest) ==> (form + rest)[1] == "&amp;"@[1]);
        assert("&lt;"@.is_prefix_of(form + rest) ==> (form + rest)[1] == "&lt;"@[1]);
        assert("&gt;"@.is_prefix_of(form + rest) ==> (form + rest)[1] == "&gt;"@[1]);
    }
}

proof fn html_read_front(s: Seq<char>, rest: Seq<char>)
    ensures
        html_read(html_escaped(s) + rest) == preceded(s, html_read(rest)),
    decreases s.len(),
{
    if s.len() == 0 {
        assert(html_escaped(s) + rest =~= rest);
        assert(html_read(rest) matches Some(t) ==> s + t =~= t);
    } else {
        let tail = html_form(s.last()) + rest;
        assert(html_escaped(s) + rest =~= html_escaped(s.drop_last()) + tail);
        html_read_front(s.drop_last(), tail);
        html_read_one(s.last(), rest);
        if let Some(t) = html_read(rest) {
            assert(s.drop_last() + (seq![s.last()] + t) =~= s + t);
        }
    }
}

/// Escaped text holds no markup: a browser that reads it as HTML sees no tag, no end of an
/// attribute and no entity but the four, and shows exactly the text that was escaped.
pub proof fn html_escape_shows_the_text(s: Seq<char>)
    ensures
        html_read(html_escaped(s)) == Some(s),
{
    html_read_front(s, Seq::empty());
    assert(html_escaped(s) + Seq::<char>::empty() =~= html_escaped(s));
    assert(s + Seq::<char>::empty() =~= s);
}

proof fn json_read_front(s: Seq<char>, rest: Seq<char>)
    ensures
        json_read(json_escaped(s) + rest) == preceded(s, json_read(rest)),
    decreases s.len(),
{
    if s.len() == 0 {
        assert(json_escaped(s) + rest =~= rest);
        assert(json_read(rest) matches Some(t) ==> s + t =~= t);
    } else {
        let form = json_form(s.last());
        let tail = form + rest;
        assert(json_escaped(s) + rest =~= json_escaped(s.drop_last()) + tail);
        json_read_front(s.drop_last(), tail);
        assert(tail.skip(form.len() as int) =~= rest);
        assert(json_read(tail) == prefixed(s.last(), json_read(rest)));
        if let Some(t) = json_read(rest) {
            assert(s.drop_last() + (seq![s.last()] + t) =~= s + t);
        }
    }
}

/// Escaped text cannot end the JSON string it is placed in: a reader gets to its end and finds
/// exactly the text that was escaped.
pub proof fn json_escape_reads_back(s: Seq<char>)
    ensures
        json_read(json_escaped(s)) == Some(s),
{
    json_read_front(s, Seq::empty());
    assert(json_escaped(s) + Seq::<char>::empty() =~= json_escaped(s));
    assert(s + Seq::<char>::empty() =~= s);
}

proof fn escaped_one(c: char)
    ensures
        html_escaped(seq![c]) == html_form(c),
        json_escaped(seq![c]) == json_form(c),
{
    let one = seq![c];
    assert(one.drop_last() =~= Seq::<char>::empty());
    assert(html_escaped(one.drop_last()) + html_form(c) =~= html_form(c));
    assert(json_escaped(one.drop_last()) + json_form(c) =~= json_form(c));
}

/// Text is escaped character by character: what stands before or behind a part of it makes no
/// difference to how the part is written.
pub proof fn parts_are_escaped_apart(a: Seq<char>, b: Seq<char>)
    ensures
        html_escaped(a + b) == html_escaped(a) + html_escaped(b),
        json_escaped(a + b) == json_escaped(a) + json_escaped(b),
    decreases b.len(),
{
    if b.len() == 0 {
        assert(a + b =~= a);
        assert(html_escaped(a) + html_escaped(b) =~= html_escaped(a));
        assert(json_escaped(a) + json_escaped(b) =~= json_escaped(a));
    } else {
        parts_are_escaped_apart(a, b.drop_last());
        assert((a + b).drop_last() =~= a + b.drop_last());
        assert(html_escaped(a + b) =~= html_escaped(a) + html_escaped(b));
        assert(json_escaped(a + b) =~= json_escaped(a) + json_escaped(b));
    }
}

/// The four characters that are markup in HTML become the entities of the standard, the two that
/// are special in a JSON string get a backslash, and no other character changes.
pub proof fn characters_are_escaped(c: char)
    ensures
        html_escaped(seq!['&']) == "&amp;"@,
        html_escaped(seq!['<']) == "&lt;"@,
        html_escaped(seq!['>']) == "&gt;"@,
        html_escaped(seq!['"']) == "&quot;"@,
        c != '&' && c != '<' && c != '>' && c != '"' ==> html_escaped(seq![c]) == seq![c],
        json_escaped(seq!['"']) == seq!['\\', '"'],
        json_escaped(seq!['\\']) == seq!['\\', '\\'],
        c != '"' && c != '\\' ==> json_escaped(seq![c]) == seq![c],
        html_escaped(Seq::empty()) == Seq::<char>::empty(),
        json_escaped(Seq::empty()) == Seq::<char>::empty(),
{
    escaped_one('&');
    escaped_one('<');
    escaped_one('>');
    escaped_one('"');
    escaped_one('\\');
    escaped_one(c);
}

/// Escaped text stands in its place and no further: a reader that comes to it finds the text that
/// was escaped, and then whatever follows.
pub proof fn escaped_text_ends_where_it_ends(s: Seq<char>, rest: Seq<char>)
    ensures
        html_read(html_escaped(s) + rest) == preceded(s, html_read(rest)),
        json_read(json_escaped(s) + rest) == preceded(s, json_read(rest)),
{
    html_read_front(s, rest);
    json_read_front(s, rest);
}

} // verus!
