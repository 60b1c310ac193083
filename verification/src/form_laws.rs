//! What the reader of forms gives back of what a browser sends.

use vstd::prelude::*;
use vstd::utf8::*;

verus! {

/// Whether a browser writes the byte `b` of a form component as it is: a letter, a digit, or
/// one of `*`, `-`, `.` and `_`.
pub open spec fn sent_plain(b: u8) -> bool {
    ||| 0x30 <= b <= 0x39
    ||| 0x41 <= b <= 0x5a
    ||| 0x61 <= b <= 0x7a
    ||| b == 0x2a || b == 0x2d || b == 0x2e || b == 0x5f
}

/// The upper-case hexadecimal digit of `d`, in ASCII.
pub open spec fn upper_hex(d: int) -> u8
    recommends
        0 <= d < 16,
{
    if d < 10 {
        (0x30 + d) as u8
    } else {
        (0x37 + d) as u8
    }
}

/// How a browser sends one byte of a form component.
pub open spec fn sent_byte(b: u8) -> Seq<u8> {
    if b == 0x20 {
        seq![0x2bu8]
    } else if sent_plain(b) {
        seq![b]
    } else {
        seq![0x25u8, upper_hex(b as int / 16), upper_hex(b as int % 16)]
    }
}

/// How a browser sends the bytes of a form component.
pub open spec fn sent_bytes(bytes: Seq<u8>) -> Seq<u8>
    decreases bytes.len(),
{
    if bytes.len() == 0 {
        Seq::empty()
    } else {
        sent_byte(bytes[0]) + sent_bytes(bytes.skip(1))
    }
}

/// How a browser sends the text `s` as the key or the value of a form.
pub open spec fn sent(s: Seq<char>) -> Seq<char> {
    sent_bytes(encode_utf8(s)).map_values(|b: u8| b as char)
}

/// The characters that can stand in a sent component.
pub open spec fn sent_char(b: u8) -> bool {
    sent_plain(b) || b == 0x2b || b == 0x25
}

proof fn sent_bytes_are_ascii(bytes: Seq<u8>)
    ensures
        forall|i: int|
            0 <= i < sent_bytes(bytes).len() ==> sent_char(#[trigger] sent_bytes(bytes)[i]),
    decreases bytes.len(),
{
    if bytes.len() > 0 {
        sent_bytes_are_ascii(bytes.skip(1));
        let first = sent_byte(bytes[0]);
        let b = bytes[0];
        assert forall|i: int| 0 <= i < first.len() implies sent_char(#[trigger] first[i]) by {
            assert(0 <= b as int / 16 < 16 && 0 <= b as int % 16 < 16);
        }
        assert forall|i: int| 0 <= i < sent_bytes(bytes).len() implies sent_char(
            #[trigger] sent_bytes(bytes)[i],
        ) by {
            if i < first.len() {
                assert(sent_bytes(bytes)[i] == first[i]);
            } else {
                assert(sent_bytes(bytes)[i] == sent_bytes(bytes.skip(1))[i - first.len()]);
            }
        }
    }
}

proof fn sent_bytes_unescape(bytes: Seq<u8>)
    ensures
        crate::form::unescaped(sent_bytes(bytes)) == bytes,
    decreases bytes.len(),
{
    if bytes.len() > 0 {
        let b = bytes[0];
        let first = sent_byte(b);
        let all = sent_bytes(bytes);
        let rest = sent_bytes(bytes.skip(1));
        sent_bytes_unescape(bytes.skip(1));
        assert(all.skip(first.len() as int) =~= rest);
        assert(all[0] == first[0]);
        if b != 0x20 && !sent_plain(b) {
            assert(all[1] == first[1] && all[2] == first[2]);
            assert(0 <= b as int / 16 < 16 && 0 <= b as int % 16 < 16);
            assert(crate::form::escaped_byte(all[1], all[2]) == Some(b));
        }
        assert(crate::form::unescaped(all) =~= seq![b] + bytes.skip(1));
        assert(seq![b] + bytes.skip(1) =~= bytes);
    }
}

proof fn sent_is_encoded(s: Seq<char>)
    ensures
        is_ascii_chars(sent(s)),
        encode_utf8(sent(s)) == sent_bytes(encode_utf8(s)),
        forall|i: int|
            0 <= i < sent(s).len() ==> #[trigger] sent(s)[i] != '&' && sent(s)[i] != '=',
{
    let bytes = sent_bytes(encode_utf8(s));
    sent_bytes_are_ascii(encode_utf8(s));
    assert forall|i: int| 0 <= i < sent(s).len() implies '\0' <= #[trigger] sent(s)[i] <= '\u{7f}'
        && sent(s)[i] as u8 == bytes[i] && sent(s)[i] != '&' && sent(s)[i] != '=' by {
        assert(sent_char(bytes[i]));
    }
    is_ascii_chars_encode_utf8(sent(s));
    assert(encode_utf8(sent(s)) =~= bytes);
}

/// A component as a browser sends it gives back the text that was sent.
pub proof fn sent_component_decodes(s: Seq<char>)
    ensures
        crate::form::url_decoded(sent(s)) == s,
{
    sent_is_encoded(s);
    sent_bytes_unescape(encode_utf8(s));
    encode_utf8_valid_utf8(s);
    encode_utf8_decode_utf8(s);
}

proof fn plain_bytes_are_sent_plain(bytes: Seq<u8>)
    requires
        forall|i: int| 0 <= i < bytes.len() ==> sent_plain(#[trigger] bytes[i]),
    ensures
        sent_bytes(bytes) == bytes,
    decreases bytes.len(),
{
    if bytes.len() > 0 {
        plain_bytes_are_sent_plain(bytes.skip(1));
        assert(seq![bytes[0]] + bytes.skip(1) =~= bytes);
    }
}

/// Letters and digits are sent as they are.
proof fn sent_as_is(s: Seq<char>)
    requires
        is_ascii_chars(s),
        forall|i: int| 0 <= i < s.len() ==> sent_plain((#[trigger] s[i]) as u8),
    ensures
        sent(s) == s,
{
    is_ascii_chars_encode_utf8(s);
    let bytes = encode_utf8(s);
    assert forall|i: int| 0 <= i < bytes.len() implies sent_plain(#[trigger] bytes[i]) by {
        assert(s[i] as u8 == bytes[i]);
    }
    plain_bytes_are_sent_plain(bytes);
    assert forall|i: int| 0 <= i < s.len() implies #[trigger] sent(s)[i] == s[i] by {
        assert(s[i] as u8 == bytes[i]);
    }
    assert(sent(s) =~= s);
}

proof fn field_parts(key: Seq<char>, value: Seq<char>)
    requires
        forall|i: int| 0 <= i < key.len() ==> #[trigger] key[i] != '=',
    ensures
        crate::form::before_first(key.push('=') + value, '=') == key,
        crate::form::after_first(key.push('=') + value, '=') == value,
    decreases key.len(),
{
    let whole = key.push('=') + value;
    if key.len() > 0 {
        let rest = key.skip(1);
        field_parts(rest, value);
        assert(whole.skip(1) =~= rest.push('=') + value);
        assert(seq![key[0]] + rest =~= key);
    } else {
        assert(key =~= Seq::<char>::empty());
    }
    assert(whole.skip(key.len() as int + 1) =~= value);
}

/// The body that a browser sends for the login form with `user` and `password` filled in.
pub open spec fn login_body(user: Seq<char>, password: Seq<char>) -> Seq<char> {
    ("username"@.push('=') + sent(user)).push('&') + ("password"@.push('=') + sent(password))
}

/// What is typed into the login form is what the server reads: the two fields of the body that a
/// browser sends hold the typed texts exactly.
pub proof fn login_form_arrives(user: Seq<char>, password: Seq<char>)
    ensures
        crate::form::form_fields(login_body(user, password)) == map![
            "username"@ => user,
            "password"@ => password,
        ],
{
    reveal_strlit("username");
    reveal_strlit("password");
    let first = "username"@.push('=') + sent(user);
    let second = "password"@.push('=') + sent(password);
    sent_is_encoded(user);
    sent_is_encoded(password);
    assert forall|i: int| 0 <= i < first.len() implies #[trigger] first[i] != '&' by {
        if i >= 9 {
            assert(first[i] == sent(user)[i - 9]);
        }
    }
    assert forall|i: int| 0 <= i < second.len() implies #[trigger] second[i] != '&' by {
        if i >= 9 {
            assert(second[i] == sent(password)[i - 9]);
        }
    }
    crate::text::pieces_around(first, '&', second);
    crate::text::pieces_of_one(first, '&');
    crate::text::pieces_of_one(second, '&');
    field_parts("username"@, sent(user));
    field_parts("password"@, sent(password));
    sent_as_is("username"@);
    sent_as_is("password"@);
    sent_component_decodes("username"@);
    sent_component_decodes("password"@);
    sent_component_decodes(user);
    sent_component_decodes(password);
    let list = crate::text::pieces(login_body(user, password), '&');
    assert(list =~= seq![first, second]);
    assert(list.drop_last() =~= seq![first]);
    assert(list.drop_last().drop_last() =~= Seq::<Seq<char>>::empty());
    reveal_with_fuel(crate::form::fields, 3);
    assert(crate::form::fields(list) =~= map!["username"@ => user, "password"@ => password]);
}

proof fn bytes_of_char(c: char)
    ensures
        forall|i: int|
            0 <= i < encode_scalar(c as u32).len() ==> (#[trigger] encode_scalar(c as u32)[i])
                == c as u32 || encode_scalar(c as u32)[i] >= 0x80,
{
    let v = c as u32;
    assert(v <= 0x7f ==> (v & 0x7f) as u8 == v) by (bit_vector);
    assert(0xC0 | ((v >> 6) & 0x1F) as u8 >= 0x80) by (bit_vector);
    assert(0xE0 | ((v >> 12) & 0x0F) as u8 >= 0x80) by (bit_vector);
    assert(0xF0 | ((v >> 18) & 0x7) as u8 >= 0x80) by (bit_vector);
    assert(0x80 | (v & 0x3F) as u8 >= 0x80) by (bit_vector);
    assert(0x80 | ((v >> 6) & 0x3F) as u8 >= 0x80) by (bit_vector);
    assert(0x80 | ((v >> 12) & 0x3F) as u8 >= 0x80) by (bit_vector);
}

/// An ASCII byte in the encoding of a text is a character of the text.
proof fn ascii_byte_is_char(s: Seq<char>, b: u8)
    requires
        b < 0x80,
        forall|i: int| 0 <= i < s.len() ==> (#[trigger] s[i]) as u32 != b,
    ensures
        forall|i: int| 0 <= i < encode_utf8(s).len() ==> #[trigger] encode_utf8(s)[i] != b,
    decreases s.len(),
{
    if s.len() > 0 {
        let rest = s.drop_first();
        let first = encode_scalar(s[0] as u32);
        ascii_byte_is_char(rest, b);
        bytes_of_char(s[0]);
        assert forall|i: int| 0 <= i < encode_utf8(s).len() implies #[trigger] encode_utf8(s)[i]
            != b by {
            if i < first.len() {
                assert(encode_utf8(s)[i] == first[i]);
            } else {
                assert(encode_utf8(s)[i] == encode_utf8(rest)[i - first.len()]);
            }
        }
    }
}

proof fn code_points_differ(c: char, d: char)
    ensures
        c != d ==> c as u32 != d as u32,
{
}

/// `s` with a space in place of every `+`.
pub open spec fn plus_as_space(s: Seq<char>) -> Seq<char> {
    s.map_values(|c: char| if c == '+' { ' ' } else { c })
}

/// `bytes` with a space in place of every `+`.
spec fn plus_bytes_as_space(bytes: Seq<u8>) -> Seq<u8> {
    bytes.map_values(|b: u8| if b == 0x2b { 0x20u8 } else { b })
}

proof fn unescape_in_parts(bytes: Seq<u8>, rest: Seq<u8>)
    requires
        forall|i: int| 0 <= i < bytes.len() ==> #[trigger] bytes[i] != 0x25,
    ensures
        crate::form::unescaped(bytes + rest) == plus_bytes_as_space(bytes)
            + crate::form::unescaped(rest),
    decreases bytes.len(),
{
    let whole = bytes + rest;
    if bytes.len() == 0 {
        assert(whole =~= rest);
        assert(plus_bytes_as_space(bytes) + crate::form::unescaped(rest)
            =~= crate::form::unescaped(rest));
    } else {
        unescape_in_parts(bytes.skip(1), rest);
        assert(whole.skip(1) =~= bytes.skip(1) + rest);
        assert(crate::form::unescaped(whole) =~= plus_bytes_as_space(bytes)
            + crate::form::unescaped(rest));
    }
}

proof fn encode_in_parts(a: Seq<char>, b: Seq<char>)
    ensures
        encode_utf8(a + b) == encode_utf8(a) + encode_utf8(b),
    decreases a.len(),
{
    if a.len() == 0 {
        assert(a + b =~= b);
        assert(encode_utf8(a) + encode_utf8(b) =~= encode_utf8(b));
    } else {
        encode_in_parts(a.drop_first(), b);
        assert((a + b).drop_first() =~= a.drop_first() + b);
        assert(encode_utf8(a + b) =~= encode_utf8(a) + encode_utf8(b));
    }
}

proof fn plus_encoded_as_space(s: Seq<char>)
    ensures
        plus_bytes_as_space(encode_utf8(s)) == encode_utf8(plus_as_space(s)),
    decreases s.len(),
{
    if s.len() > 0 {
        let rest = s.drop_first();
        let first = encode_scalar(s[0] as u32);
        plus_encoded_as_space(rest);
        assert(plus_as_space(s).drop_first() =~= plus_as_space(rest));
        if s[0] == '+' {
            assert((0x2bu32 & 0x7f) as u8 == 0x2b && (0x20u32 & 0x7f) as u8 == 0x20)
                by (bit_vector);
            assert(first =~= seq![0x2bu8]);
            assert(encode_scalar(' ' as u32) =~= seq![0x20u8]);
            assert(plus_bytes_as_space(first) =~= encode_scalar(' ' as u32));
        } else {
            bytes_of_char(s[0]);
            code_points_differ(s[0], '+');
            assert(plus_bytes_as_space(first) =~= first);
        }
        assert(plus_bytes_as_space(encode_utf8(s)) =~= plus_bytes_as_space(first)
            + plus_bytes_as_space(encode_utf8(rest)));
    }
}

/// Text before the first `%` of a component decodes apart from what follows: each `+` of it becomes
/// a space, nothing else of it changes, and the bytes that the rest stands for come behind it.
/// Where those bytes are UTF-8, the text that the rest decodes to comes behind it.
pub proof fn text_before_escapes_decodes_apart(a: Seq<char>, b: Seq<char>)
    requires
        forall|i: int| 0 <= i < a.len() ==> #[trigger] a[i] != '%',
    ensures
        crate::form::unescaped(encode_utf8(a + b)) == encode_utf8(plus_as_space(a))
            + crate::form::unescaped(encode_utf8(b)),
        valid_utf8(crate::form::unescaped(encode_utf8(b))) ==> crate::form::url_decoded(a + b)
            == plus_as_space(a) + crate::form::url_decoded(b),
{
    assert forall|i: int| 0 <= i < a.len() implies (#[trigger] a[i]) as u32 != 0x25u8 by {
        code_points_differ(a[i], '%');
    }
    ascii_byte_is_char(a, 0x25);
    encode_in_parts(a, b);
    unescape_in_parts(encode_utf8(a), encode_utf8(b));
    plus_encoded_as_space(a);
    let front = plus_as_space(a);
    let bytes = crate::form::unescaped(encode_utf8(b));
    if valid_utf8(bytes) {
        let back = decode_utf8(bytes);
        decode_utf8_encode_utf8(bytes);
        encode_in_parts(front, back);
        encode_utf8_valid_utf8(front + back);
        encode_utf8_decode_utf8(front + back);
    }
}

/// A component without `%` is changed only in that each `+` becomes a space.
pub proof fn text_without_escapes_keeps_all_but_plus(s: Seq<char>)
    requires
        forall|i: int| 0 <= i < s.len() ==> #[trigger] s[i] != '%',
    ensures
        crate::form::url_decoded(s) == plus_as_space(s),
{
    let nothing = Seq::<char>::empty();
    text_before_escapes_decodes_apart(s, nothing);
    assert(s + nothing =~= s);
    encode_utf8_valid_utf8(nothing);
    encode_utf8_decode_utf8(nothing);
    assert(crate::form::unescaped(encode_utf8(nothing)) =~= encode_utf8(nothing));
    assert(plus_as_space(s) + nothing =~= plus_as_space(s));
}

/// Text that holds neither `%` nor `+` decodes to itself, whatever its characters are.
pub proof fn plain_text_decodes_to_itself(s: Seq<char>)
    requires
        forall|i: int| 0 <= i < s.len() ==> #[trigger] s[i] != '%' && s[i] != '+',
    ensures
        crate::form::url_decoded(s) == s,
{
    text_without_escapes_keeps_all_but_plus(s);
    assert(plus_as_space(s) =~= s);
}

/// Whether the ASCII character `b` is the hexadecimal digit of `d`, in either case.
pub open spec fn writes_hex(b: u8, d: int) -> bool {
    ||| 0 <= d <= 9 && b == 0x30 + d
    ||| 10 <= d <= 15 && (b == 0x41 + d - 10 || b == 0x61 + d - 10)
}

/// A `%` and two hexadecimal digits of either case stand for the byte that they write, whatever
/// follows.
pub proof fn escape_stands_for_its_byte(hi: u8, h: int, lo: u8, l: int, rest: Seq<u8>)
    requires
        writes_hex(hi, h),
        writes_hex(lo, l),
    ensures
        crate::form::unescaped(seq![0x25u8, hi, lo] + rest) == seq![(16 * h + l) as u8]
            + crate::form::unescaped(rest),
{
    let whole = seq![0x25u8, hi, lo] + rest;
    assert(whole.skip(3) =~= rest);
    assert(crate::form::escaped_byte(whole[1], whole[2]) == Some((16 * h + l) as u8));
}

/// A `%` that two hexadecimal digits do not follow stands for itself, whatever follows.
pub proof fn lone_percent_stands_for_itself(rest: Seq<u8>)
    requires
        rest.len() < 2 || (forall|d: int| !#[trigger] writes_hex(rest[0], d)) || (forall|d: int|
            !#[trigger] writes_hex(rest[1], d)),
    ensures
        crate::form::unescaped(seq![0x25u8] + rest) == seq![0x25u8] + crate::form::unescaped(rest),
{
    let whole = seq![0x25u8] + rest;
    assert(whole.skip(1) =~= rest);
    if rest.len() >= 2 {
        let a = rest[0];
        let b = rest[1];
        assert(whole[1] == a && whole[2] == b);
        if let Some(h) = crate::form::hex_value(a) {
            assert(writes_hex(a, h as int));
        }
        if let Some(l) = crate::form::hex_value(b) {
            assert(writes_hex(b, l as int));
        }
    }
}

/// A `+` stands for a space, any other byte but `%` for itself, and nothing for nothing.
pub proof fn plain_byte_stands_for_itself(b: u8, rest: Seq<u8>)
    requires
        b != 0x25,
    ensures
        crate::form::unescaped(seq![b] + rest) == seq![if b == 0x2b {
            0x20u8
        } else {
            b
        }] + crate::form::unescaped(rest),
        crate::form::unescaped(Seq::empty()) == Seq::<u8>::empty(),
{
    assert((seq![b] + rest).skip(1) =~= rest);
}

/// The text of a component is the one whose UTF-8 encoding its escapes stand for.
pub proof fn component_is_read_as_utf8(s: Seq<char>, text: Seq<char>)
    requires
        crate::form::unescaped(encode_utf8(s)) == encode_utf8(text),
    ensures
        crate::form::url_decoded(s) == text,
{
    encode_utf8_valid_utf8(text);
    encode_utf8_decode_utf8(text);
}

/// A body that arrives is read as the text that was sent in UTF-8; one that does not arrive is
/// read as no text.
pub proof fn body_is_read_as_utf8(received: Vec<u8>, text: Seq<char>)
    requires
        received@ == encode_utf8(text),
    ensures
        crate::form::body_text(Some(received)) == text,
        crate::form::body_text(None) == Seq::<char>::empty(),
{
    encode_utf8_valid_utf8(text);
    encode_utf8_decode_utf8(text);
}

proof fn before_first_all(s: Seq<char>, c: char)
    requires
        forall|i: int| 0 <= i < s.len() ==> #[trigger] s[i] != c,
    ensures
        crate::form::before_first(s, c) == s,
        crate::form::after_first(s, c) == Seq::<char>::empty(),
    decreases s.len(),
{
    if s.len() > 0 {
        before_first_all(s.skip(1), c);
        assert(seq![s[0]] + s.skip(1) =~= s);
    } else {
        assert(s =~= Seq::<char>::empty());
    }
}

proof fn fields_of_one_more(list: Seq<Seq<char>>, piece: Seq<char>)
    ensures
        crate::form::fields(list + seq![piece]) == (if piece.len() == 0 {
            crate::form::fields(list)
        } else {
            crate::form::fields(list).insert(
                crate::form::url_decoded(crate::form::before_first(piece, '=')),
                crate::form::url_decoded(crate::form::after_first(piece, '=')),
            )
        }),
{
    assert((list + seq![piece]).drop_last() =~= list);
}

proof fn nothing_decodes_to_nothing()
    ensures
        crate::form::url_decoded(Seq::empty()) == Seq::<char>::empty(),
{
    text_without_escapes_keeps_all_but_plus(Seq::empty());
    assert(plus_as_space(Seq::empty()) =~= Seq::<char>::empty());
}

/// A form holds the fields that are written in it: none in an empty one, and behind an `&` one
/// more. A field is a key and a value with an `=` between them, of which the value may hold
/// further ones, or a key alone, whose value is empty. The last field with a key counts, and a
/// piece in which nothing stands is no field.
pub proof fn form_holds_its_fields(form: Seq<char>, key: Seq<char>, value: Seq<char>)
    requires
        forall|i: int| 0 <= i < key.len() ==> #[trigger] key[i] != '&' && key[i] != '=',
        forall|i: int| 0 <= i < value.len() ==> #[trigger] value[i] != '&',
    ensures
        crate::form::form_fields(Seq::empty()) == Map::<Seq<char>, Seq<char>>::empty(),
        crate::form::form_fields(form.push('&')) == crate::form::form_fields(form),
        crate::form::form_fields(key.push('=') + value) == Map::<Seq<char>, Seq<char>>::empty().insert(
            crate::form::url_decoded(key),
            crate::form::url_decoded(value),
        ),
        crate::form::form_fields(form.push('&') + (key.push('=') + value))
            == crate::form::form_fields(form).insert(
            crate::form::url_decoded(key),
            crate::form::url_decoded(value),
        ),
        key.len() > 0 ==> crate::form::form_fields(key) == Map::<Seq<char>, Seq<char>>::empty().insert(
            crate::form::url_decoded(key),
            Seq::empty(),
        ),
        key.len() > 0 ==> crate::form::form_fields(form.push('&') + key)
            == crate::form::form_fields(form).insert(crate::form::url_decoded(key), Seq::empty()),
{
    let none = Seq::<char>::empty();
    let nothing = Seq::<Seq<char>>::empty();
    let pair = key.push('=') + value;
    let list = crate::text::pieces(form, '&');
    assert forall|i: int| 0 <= i < pair.len() implies #[trigger] pair[i] != '&' by {
        if i < key.len() {
            assert(pair[i] == key[i]);
        } else if i > key.len() {
            assert(pair[i] == value[i - key.len() - 1]);
        }
    }
    crate::text::pieces_of_one(none, '&');
    crate::text::pieces_of_one(pair, '&');
    crate::text::pieces_of_one(key, '&');
    crate::text::pieces_around(form, '&', none);
    crate::text::pieces_around(form, '&', pair);
    crate::text::pieces_around(form, '&', key);
    assert(form.push('&') + none =~= form.push('&'));
    assert(nothing + seq![none] =~= seq![none]);
    assert(nothing + seq![pair] =~= seq![pair]);
    assert(nothing + seq![key] =~= seq![key]);
    fields_of_one_more(nothing, none);
    fields_of_one_more(nothing, pair);
    fields_of_one_more(nothing, key);
    fields_of_one_more(list, none);
    fields_of_one_more(list, pair);
    fields_of_one_more(list, key);
    assert(crate::form::fields(nothing) =~= Map::<Seq<char>, Seq<char>>::empty());
    field_parts(key, value);
    before_first_all(key, '=');
    nothing_decodes_to_nothing();
}

/// Bytes that are not UTF-8 are read as std reads them, in a component and in a body alike.
pub proof fn other_bytes_are_read_lossily(s: Seq<char>, received: Vec<u8>)
    ensures
        !valid_utf8(crate::form::unescaped(encode_utf8(s))) ==> crate::form::url_decoded(s)
            == crate::form::utf8_lossy(crate::form::unescaped(encode_utf8(s))),
        !valid_utf8(received@) ==> crate::form::body_text(Some(received))
            == crate::form::utf8_lossy(received@),
{
}

} // verus!
