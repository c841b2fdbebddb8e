use vibe_extract::text::{
    contains, decimal_int_text, decimal_text, ends_with, escape_quotes, hex_color, html_escape,
    join, lower_text, replace_all, same, starts_with, take_chars, trim,
};

#[test]
fn searching_agrees_with_str() {
    let hay = "AXGroup→AXButton";
    for needle in ["", "AX", "→AX", "Button", "button", "AXGroup→AXButton!", "n"] {
        assert_eq!(contains(hay, needle), hay.contains(needle));
        assert_eq!(starts_with(hay, needle), hay.starts_with(needle));
        assert_eq!(ends_with(hay, needle), hay.ends_with(needle));
    }
}

#[test]
fn replacing_agrees_with_str() {
    for (text, pat, rep) in [("aaaa", "aa", "b"), ("xaXa", "a", ""), ("__X____X__", "__X__", "é"), ("", "q", "r")] {
        assert_eq!(replace_all(text, pat, rep), text.replace(pat, rep));
    }
}

#[test]
fn escaped_html_is_inert() {
    let out = html_escape("<a href=\"x\">&'é</a>");
    assert_eq!(out, "&lt;a href=&quot;x&quot;&gt;&amp;'é&lt;/a&gt;");
    assert!(!out.contains('<') && !out.contains('>') && !out.contains('"'));
}

#[test]
fn quotes_are_escaped() {
    assert_eq!(escape_quotes("a\"b\\"), "a\\\"b\\");
}

#[test]
fn numbers_are_written_in_decimal() {
    for n in [0u64, 7, 10, 99, 1000, u64::MAX] {
        assert_eq!(decimal_text(n), n.to_string());
    }
    for n in [0i64, -1, 42, i64::MIN, i64::MAX] {
        assert_eq!(decimal_int_text(n), n.to_string());
    }
}

#[test]
fn colours_are_written_in_hexadecimal() {
    assert_eq!(hex_color((0, 255, 16)), "#00ff10");
    assert_eq!(hex_color((171, 205, 9)), "#abcd09");
}

#[test]
fn trimming_agrees_with_str() {
    for s in ["", "   ", " a b ", "\u{2003}x\u{3000}", "\t\r\nq", "\u{200b}z\u{200b}"] {
        assert_eq!(trim(s), s.trim());
    }
}

#[test]
fn joining_taking_and_lowering() {
    let parts = vec!["a".to_string(), "".to_string(), "ç".to_string()];
    assert_eq!(join(&parts, "; "), "a; ; ç");
    assert_eq!(join(&vec![], "; "), "");
    assert_eq!(take_chars("héllo", 2), "hé");
    assert_eq!(take_chars("hé", 9), "hé");
    assert_eq!(lower_text("QtCORE É"), "qtcore É");
}

#[test]
fn escaped_text_reads_back_and_is_made_of_its_parts() {
    for t in ["", "a<b>&\"c\"", "&amp;", "&lt;&quot", "x &amp;amp; y", "é→"] {
        let escaped = html_escape(t);
        let read = escaped
            .replace("&lt;", "<")
            .replace("&gt;", ">")
            .replace("&quot;", "\"")
            .replace("&amp;", "&");
        assert_eq!(read, t);
        for u in ["", "amp;", "<&>"] {
            assert_eq!(html_escape(&format!("{t}{u}")), escaped.clone() + &html_escape(u));
        }
    }
}

#[test]
fn texts_are_the_same_by_their_characters() {
    for a in ["", "a", "ab", "é", "e\u{301}", "AXRow"] {
        for b in ["", "a", "ab", "é", "e\u{301}", "AXRow"] {
            assert_eq!(same(a, b), a == b, "{a:?} {b:?}");
        }
    }
}
