use arti_web_poc::escape::{html_escape, json_escape};
use arti_web_poc::pages::{login_page, ping_body, restricted_page};
use arti_web_poc::text::{decimal_text, hex_text, replace_all, split_on, strip_prefix, trim};

#[test]
fn html_special_characters_become_entities() {
    assert_eq!(
        html_escape("<a href=\"x\">&amp;'é</a>"),
        "&lt;a href=&quot;x&quot;&gt;&amp;amp;'é&lt;/a&gt;"
    );
    assert_eq!(html_escape(""), "");
    assert_eq!(html_escape("agent"), "agent");
}

#[test]
fn json_quotes_and_backslashes_are_escaped() {
    assert_eq!(json_escape("a\"b\\c\n"), "a\\\"b\\\\c\n");
    assert_eq!(json_escape("\\\""), "\\\\\\\"");
    assert_eq!(json_escape("agent"), "agent");
}

#[test]
fn ping_body_is_json() {
    assert_eq!(
        ping_body("ag\"ent", 12),
        "{\"status\":\"ok\",\"user\":\"ag\\\"ent\",\"message\":\"authenticated request over Tor\",\"count\":12}"
    );
}

#[test]
fn restricted_page_names_the_user_everywhere() {
    assert_eq!(
        restricted_page("<p>__USERNAME__</p>__USERNAME___USERNAME__", "<x>"),
        "<p>&lt;x&gt;</p>&lt;x&gt;_USERNAME__"
    );
    assert_eq!(restricted_page("nobody", "agent"), "nobody");
    assert_eq!(restricted_page("___USERNAME__", "__USERNAME__"), "___USERNAME__");
}

#[test]
fn login_page_shows_the_error_only_after_a_failure() {
    let error = "<p class=\"err\">Invalid username or password.</p>";
    let plain = login_page(false);
    let failed = login_page(true);
    assert!(!plain.contains(error));
    assert!(failed.contains(error));
    assert_eq!(failed.replace(error, ""), plain);
    assert!(plain.starts_with("<!doctype html>\n<html lang=\"en\"><head>\n"));
    assert!(plain.contains("<title>Login — Arti Onion POC</title>"));
    assert!(plain.contains("  :root { color-scheme: dark; }\n"));
    assert!(plain.contains(
        "    <h1>🔒 Restricted area</h1>\n    \n    <form method=\"POST\" action=\"/login\" autocomplete=\"off\">\n"
    ));
    assert!(plain.ends_with("  </div>\n</body></html>"));
}

#[test]
fn text_helpers() {
    assert_eq!(split_on("a;b;;", ';'), vec!["a", "b", "", ""]);
    assert_eq!(split_on("", ';'), vec![""]);
    assert_eq!(trim("\t a b\u{2003} \n"), "a b");
    assert_eq!(trim("   "), "");
    assert_eq!(strip_prefix("session=x", "session="), Some("x".to_string()));
    assert_eq!(strip_prefix("sessio", "session="), None);
    assert_eq!(replace_all("aaa", "aa", "b"), "ba");
    assert_eq!(decimal_text(0), "0");
    assert_eq!(decimal_text(1090), "1090");
    assert_eq!(decimal_text(usize::MAX), usize::MAX.to_string());
    assert_eq!(hex_text(&[0, 9, 10, 0xaf, 0xff]), "00090aafff");
}
