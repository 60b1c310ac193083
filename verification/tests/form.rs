use arti_web_poc::form::{collect_body, parse_form, unescape, url_decode};

#[test]
fn plus_is_a_space() {
    assert_eq!(url_decode("a+b++c"), "a b  c");
}

#[test]
fn escapes_are_decoded_in_either_case() {
    assert_eq!(url_decode("%41%2f%2F%7e"), "A//~");
    assert_eq!(url_decode("caf%c3%A9"), "café");
    assert_eq!(url_decode("%20"), " ");
    assert_eq!(unescape(b"%00%ff+"), vec![0u8, 255, 32]);
}

#[test]
fn a_sign_is_no_hexadecimal_digit() {
    assert_eq!(url_decode("%+5x"), "% 5x");
    assert_eq!(url_decode("%5+x"), "%5 x");
    assert_eq!(url_decode("%-5x"), "%-5x");
    assert_eq!(url_decode("%++x"), "%  x");
    assert_eq!(unescape(b"%+4"), b"% 4".to_vec());
    assert_eq!(parse_form("k=%+4").get("k").unwrap(), "% 4");
}

#[test]
fn percent_without_escape_stands_for_itself() {
    assert_eq!(url_decode("100%"), "100%");
    assert_eq!(url_decode("%4"), "%4");
    assert_eq!(url_decode("%zz"), "%zz");
    assert_eq!(url_decode("%%41"), "%A");
    assert_eq!(url_decode("%4%41"), "%4A");
}

#[test]
fn bytes_that_are_not_utf8_are_replaced() {
    assert_eq!(url_decode("a%ffb"), "a\u{fffd}b");
    assert_eq!(url_decode("%e2%82"), "\u{fffd}");
    assert_eq!(collect_body(Some(vec![0x61, 0xc3])), "a\u{fffd}");
}

#[test]
fn text_without_escapes_is_kept() {
    assert_eq!(url_decode("plain-text_é€😀"), "plain-text_é€😀");
    assert_eq!(url_decode(""), "");
}

#[test]
fn text_before_escapes_decodes_apart() {
    for rest in ["", "%41+%c3%a9", "%", "%+4", "100%25"] {
        assert_eq!(
            url_decode(&format!("a+é€+b{rest}")),
            format!("a é€ b{}", url_decode(rest))
        );
    }
    assert_eq!(url_decode("a%20b%41+%c3%a9"), "a bA é");
    assert_eq!(unescape("é+%ff".as_bytes()), vec![0xc3, 0xa9, 0x20, 0xff]);
}

#[test]
fn text_without_escapes_keeps_all_but_plus() {
    assert_eq!(url_decode("+a=b&c+😀;"), " a=b&c 😀;");
}

#[test]
fn percent_before_any_character_stands_for_itself() {
    for text in ["%é", "%€", "%aé", "%a€", "x%😀"] {
        assert_eq!(url_decode(text), text);
    }
    assert_eq!(url_decode("%41€"), "A€");
    assert_eq!(parse_form("username=%aé").get("username").unwrap(), "%aé");
    let form = parse_form("a=1&b=%€&%a€=2");
    assert_eq!(form.len(), 3);
    assert_eq!(form.get("a").unwrap(), "1");
    assert_eq!(form.get("b").unwrap(), "%€");
    assert_eq!(form.get("%a€").unwrap(), "2");
}

#[test]
fn form_fields_are_read() {
    let form = parse_form("username=agent&password=tor-rocks");
    assert_eq!(form.len(), 2);
    assert_eq!(form.get("username").unwrap(), "agent");
    assert_eq!(form.get("password").unwrap(), "tor-rocks");
    assert!(form.get("other").is_none());
}

#[test]
fn form_edge_cases() {
    let form = parse_form("&&a=b=c&flag&=v&a%26=%3D&");
    assert_eq!(form.len(), 4);
    assert_eq!(form.get("a").unwrap(), "b=c");
    assert_eq!(form.get("flag").unwrap(), "");
    assert_eq!(form.get("").unwrap(), "v");
    assert_eq!(form.get("a&").unwrap(), "=");
    assert_eq!(parse_form("").len(), 0);
}

#[test]
fn last_of_equal_keys_counts() {
    let form = parse_form("k=1&k=2&%6b=3");
    assert_eq!(form.len(), 1);
    assert_eq!(form.get("k").unwrap(), "3");
}

#[test]
fn typed_credentials_arrive() {
    let form = parse_form("username=a%26b+c%3D%25&password=p%C3%A9%2B%F0%9F%98%80");
    assert_eq!(form.get("username").unwrap(), "a&b c=%");
    assert_eq!(form.get("password").unwrap(), "pé+😀");
}

#[test]
fn body_that_was_not_received_is_empty() {
    assert_eq!(collect_body(None), "");
    assert_eq!(collect_body(Some(b"a=b".to_vec())), "a=b");
}
