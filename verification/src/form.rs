//! Reading of `application/x-www-form-urlencoded` request bodies.

use vstd::hash_map::StringHashMap;
use vstd::prelude::*;
use vstd::utf8::*;

use crate::text::{chars_of, split_on, text_of};

verus! {

/// What `String::from_utf8_lossy` makes of bytes that are not well-formed UTF-8.
pub uninterp spec fn utf8_lossy(bytes: Seq<u8>) -> Seq<char>;

/// The text in `bytes`: decoded as UTF-8, with replacement characters where `bytes` is not
/// well-formed.
pub open spec fn lossy_text(bytes: Seq<u8>) -> Seq<char> {
    if valid_utf8(bytes) {
        decode_utf8(bytes)
    } else {
        utf8_lossy(bytes)
    }
}

/// `String::from_utf8_lossy` of std: decodes well-formed UTF-8 exactly. What it makes of other
/// bytes depends on them alone and is only named: nothing is said of how it treats the well-formed
/// parts of them.
#[verifier::external_body]
fn from_utf8_lossy(bytes: &[u8]) -> (r: String)
    ensures
        r@ == (if valid_utf8(bytes@) {
            decode_utf8(bytes@)
        } else {
            utf8_lossy(bytes@)
        }),
{
    String::from_utf8_lossy(bytes).into_owned()
}

/// The text of a request body: of the bytes that arrived, or empty if the body could not be
/// read to its end.
pub open spec fn body_text(received: Option<Vec<u8>>) -> Seq<char> {
    match received {
        Some(bytes) => lossy_text(bytes@),
        None => Seq::empty(),
    }
}

/// Reads the body of a request as text.
pub fn collect_body(received: Option<Vec<u8>>) -> (r: String)
    ensures
        r@ == body_text(received),
{
    match received {
        Some(bytes) => from_utf8_lossy(bytes.as_slice()),
        None => String::new(),
    }
}

/// The value of a hexadecimal digit of either case.
pub open spec fn hex_value(b: u8) -> Option<u8> {
    if 0x30 <= b <= 0x39 {
        Some((b - 0x30) as u8)
    } else if 0x41 <= b <= 0x46 {
        Some((b - 0x37) as u8)
    } else if 0x61 <= b <= 0x66 {
        Some((b - 0x57) as u8)
    } else {
        None
    }
}

/// The byte that the two characters after a `%` stand for, if both are hexadecimal digits.
pub open spec fn escaped_byte(hi: u8, lo: u8) -> Option<u8> {
    match (hex_value(hi), hex_value(lo)) {
        (Some(h), Some(l)) => Some((16 * h + l) as u8),
        _ => None,
    }
}

/// `bytes` with every `+` read as a space and every `%` escape as the byte that it stands for;
/// a `%` that starts no escape stands for itself.
pub open spec fn unescaped(bytes: Seq<u8>) -> Seq<u8>
    decreases bytes.len(),
{
    if bytes.len() == 0 {
        Seq::empty()
    } else if bytes[0] == 0x2b {
        seq![0x20u8] + unescaped(bytes.skip(1))
    } else if bytes[0] == 0x25 && bytes.len() > 2 && escaped_byte(bytes[1], bytes[2]) is Some {
        seq![escaped_byte(bytes[1], bytes[2])->0] + unescaped(bytes.skip(3))
    } else {
        seq![bytes[0]] + unescaped(bytes.skip(1))
    }
}

/// The text that the component `s` of a form stands for.
pub open spec fn url_decoded(s: Seq<char>) -> Seq<char> {
    lossy_text(unescaped(encode_utf8(s)))
}

fn hex_value_of(b: u8) -> (r: Option<u8>)
    ensures
        r == hex_value(b),
{
    if 0x30 <= b && b <= 0x39 {
        Some(b - 0x30)
    } else if 0x41 <= b && b <= 0x46 {
        Some(b - 0x37)
    } else if 0x61 <= b && b <= 0x66 {
        Some(b - 0x57)
    } else {
        None
    }
}

fn escaped_byte_of(hi: u8, lo: u8) -> (r: Option<u8>)
    ensures
        r == escaped_byte(hi, lo),
{
    match (hex_value_of(hi), hex_value_of(lo)) {
        (Some(h), Some(l)) => Some(16 * h + l),
        _ => None,
    }
}

/// Replaces the escapes in the bytes of a form component.
pub fn unescape(bytes: &[u8]) -> (r: Vec<u8>)
    ensures
        r@ == unescaped(bytes@),
{
    let mut out: Vec<u8> = Vec::with_capacity(bytes.len());
    let mut i: usize = 0;
    proof {
        assert(bytes@.skip(0) =~= bytes@);
        assert(out@ + unescaped(bytes@) =~= unescaped(bytes@));
    }
    while i < bytes.len()
        invariant
            i <= bytes@.len(),
            out@ + unescaped(bytes@.skip(i as int)) == unescaped(bytes@),
        decreases bytes@.len() - i,
    {
        let ghost rest = bytes@.skip(i as int);
        let ghost before = out@;
        let ghost start = i as int;
        let b: u8 = bytes[i];
        let mut escape: Option<u8> = None;
        if b == 0x25 && bytes.len() - i > 2 {
            escape = escaped_byte_of(bytes[i + 1], bytes[i + 2]);
        }
        match escape {
            Some(v) => {
                out.push(v);
                i += 3;
            },
            None => {
                if b == 0x2b {
                    out.push(0x20);
                } else {
                    out.push(b);
                }
                i += 1;
            },
        }
        proof {
            let read = out@.last();
            assert(rest.skip(i - start) =~= bytes@.skip(i as int));
            assert(out@ + unescaped(bytes@.skip(i as int)) =~= before + (seq![read] + unescaped(
                bytes@.skip(i as int),
            )));
        }
    }
    proof {
        assert(bytes@.skip(i as int) =~= Seq::<u8>::empty());
        assert(out@ + Seq::<u8>::empty() =~= out@);
    }
    out
}

/// Decodes one component of a form.
pub fn url_decode(s: &str) -> (r: String)
    ensures
        r@ == url_decoded(s@),
{
    let bytes = unescape(s.as_bytes());
    from_utf8_lossy(bytes.as_slice())
}

/// What stands in `s` before the first `c`: all of `s` where there is none.
pub open spec fn before_first(s: Seq<char>, c: char) -> Seq<char>
    decreases s.len(),
{
    if s.len() == 0 || s[0] == c {
        Seq::empty()
    } else {
        seq![s[0]] + before_first(s.skip(1), c)
    }
}

/// What stands in `s` behind the first `c`: nothing where there is none.
pub open spec fn after_first(s: Seq<char>, c: char) -> Seq<char> {
    let n = before_first(s, c).len() as int;
    if n < s.len() {
        s.skip(n + 1)
    } else {
        Seq::empty()
    }
}

/// The fields that the pieces of a form give: a piece is `key=value`, with an empty value where
/// there is no `=`; empty pieces give none, and the last of several pieces with one key counts.
pub open spec fn fields(list: Seq<Seq<char>>) -> Map<Seq<char>, Seq<char>>
    decreases list.len(),
{
    if list.len() == 0 {
        Map::empty()
    } else {
        let earlier = fields(list.drop_last());
        let piece = list.last();
        if piece.len() == 0 {
            earlier
        } else {
            earlier.insert(
                url_decoded(before_first(piece, '=')),
                url_decoded(after_first(piece, '=')),
            )
        }
    }
}

/// The fields of the form `body`.
pub open spec fn form_fields(body: Seq<char>) -> Map<Seq<char>, Seq<char>> {
    fields(crate::text::pieces(body, '&'))
}

/// Cuts `piece` into what stands before and what stands behind its first `=`.
fn split_field(piece: &str) -> (r: (String, String))
    ensures
        r.0@ == before_first(piece@, '='),
        r.1@ == after_first(piece@, '='),
{
    let chars = chars_of(piece);
    let mut i: usize = 0;
    proof {
        assert(chars@.skip(0) =~= chars@);
        assert(chars@.take(0) + before_first(chars@, '=') =~= before_first(chars@, '='));
    }
    while i < chars.len() && chars[i] != '='
        invariant
            i <= chars@.len(),
            chars@.take(i as int) + before_first(chars@.skip(i as int), '=') == before_first(
                chars@,
                '=',
            ),
        decreases chars@.len() - i,
    {
        proof {
            let rest = chars@.skip(i as int);
            assert(rest.skip(1) =~= chars@.skip(i + 1));
            assert(chars@.take(i as int) + (seq![rest[0]] + before_first(chars@.skip(i + 1), '='))
                =~= chars@.take(i + 1) + before_first(chars@.skip(i + 1), '='));
        }
        i += 1;
    }
    proof {
        assert(chars@.take(i as int) + Seq::<char>::empty() =~= chars@.take(i as int));
        assert(chars@.subrange(0, i as int) =~= chars@.take(i as int));
        assert(before_first(chars@, '=') == chars@.take(i as int));
    }
    let key = text_of(&chars, 0, i);
    let value = if i < chars.len() {
        proof {
            assert(chars@.subrange(i + 1, chars@.len() as int) =~= chars@.skip(i + 1));
        }
        text_of(&chars, i + 1, chars.len())
    } else {
        String::new()
    };
    (key, value)
}

/// Parses an `application/x-www-form-urlencoded` body.
pub fn parse_form(body: &str) -> (r: StringHashMap<String>)
    ensures
        crate::text::text_map(r@) == form_fields(body@),
{
    let list = split_on(body, '&');
    let ghost all = crate::text::pieces(body@, '&');
    let mut form: StringHashMap<String> = StringHashMap::new();
    let mut i: usize = 0;
    proof {
        assert(crate::text::texts(list@).len() == list@.len());
        assert(crate::text::text_map(form@) =~= fields(all.take(0)));
    }
    while i < list.len()
        invariant
            all == crate::text::pieces(body@, '&'),
            crate::text::texts(list@) == all,
            i <= list@.len() == all.len(),
            crate::text::text_map(form@) == fields(all.take(i as int)),
        decreases list@.len() - i,
    {
        let ghost before = form@;
        let piece = list[i].as_str();
        proof {
            assert(piece@ == all[i as int]);
            assert(all.take(i + 1).drop_last() =~= all.take(i as int));
        }
        if !piece.is_empty() {
            let (key, value) = split_field(piece);
            let k = url_decode(key.as_str());
            let v = url_decode(value.as_str());
            let ghost entry = (k@, v@);
            form.insert(k, v);
            proof {
                assert(crate::text::text_map(form@) =~= crate::text::text_map(before).insert(
                    entry.0,
                    entry.1,
                ));
            }
        }
        i += 1;
    }
    proof {
        assert(all.take(i as int) =~= all);
    }
    form
}

} // verus!
