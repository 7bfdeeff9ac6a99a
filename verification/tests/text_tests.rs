use epub_engine::numbers::{i64_text, parse_i32, parse_usize, u64_text};
use epub_engine::paths::{build_epub_uri, join_path, parent_path, resolve_path, strip_fragment};
use epub_engine::text::{
    chars_of, contains_word, contains_word_ignore_case, find_in, replace_chars, split_on,
    split_words, str_eq, string_of, trim_chars,
};
use epub_engine::xml::{build_tree, parse_xml, XmlError, XmlToken};

fn cs(s: &str) -> Vec<char> {
    s.chars().collect()
}

#[test]
fn strings_and_characters_convert_both_ways() {
    assert_eq!(chars_of("h\u{e9}\u{1F600}"), vec!['h', '\u{e9}', '\u{1F600}']);
    assert_eq!(string_of(&vec!['a', '\u{df}', 'c']), "a\u{df}c");
    assert_eq!(string_of(&Vec::new()), "");
    assert!(str_eq("abc", "abc"));
    assert!(!str_eq("abc", "abd"));
    assert!(!str_eq("abc", "ab"));
}

#[test]
fn split_keeps_empty_pieces() {
    assert_eq!(split_on(&cs("a,b,"), ','), vec![cs("a"), cs("b"), cs("")]);
    assert_eq!(split_on(&cs(""), ','), vec![cs("")]);
    assert_eq!(split_on(&cs(",,"), ','), vec![cs(""), cs(""), cs("")]);
    assert_eq!(split_on(&cs("abc"), '/'), vec![cs("abc")]);
}

#[test]
fn replace_is_left_to_right_without_overlap() {
    assert_eq!(replace_chars(&cs("aaaa"), &cs("aa"), &cs("b")), cs("bb"));
    assert_eq!(replace_chars(&cs("aaa"), &cs("aa"), &cs("b")), cs("ba"));
    assert_eq!(replace_chars(&cs("x<br>y<br>"), &cs("<br>"), &cs("\n")), cs("x\ny\n"));
    assert_eq!(replace_chars(&cs("abc"), &cs(""), &cs("z")), cs("abc"));
    assert_eq!(replace_chars(&cs("abc"), &cs("abcd"), &cs("z")), cs("abc"));
}

#[test]
fn find_gives_first_position() {
    assert_eq!(find_in(&cs("abcabc"), &cs("bc"), 0), Some(1));
    assert_eq!(find_in(&cs("abcabc"), &cs("bc"), 2), Some(4));
    assert_eq!(find_in(&cs("abcabc"), &cs("bc"), 5), None);
    assert_eq!(find_in(&cs("abc"), &cs(""), 3), Some(3));
    assert_eq!(find_in(&cs("abc"), &cs(""), 4), None);
    assert_eq!(find_in(&cs("abc"), &cs("abcd"), 0), None);
}

#[test]
fn trim_drops_unicode_white_space() {
    assert_eq!(trim_chars(&cs(" \t a b \u{a0}\u{3000}\n")), cs("a b"));
    assert_eq!(trim_chars(&cs("   ")), cs(""));
    assert_eq!(trim_chars(&cs("")), cs(""));
    assert_eq!(trim_chars(&cs("x")), cs("x"));
    assert_eq!(trim_chars(&cs("\u{200b}x")), cs("\u{200b}x"));
}

#[test]
fn words_are_runs_without_white_space() {
    assert_eq!(split_words(&cs("  nav  cover-image\tx "), true), vec![cs("nav"), cs("cover-image"), cs("x")]);
    assert_eq!(split_words(&cs("a\u{a0}b"), true), vec![cs("a\u{a0}b")]);
    assert_eq!(split_words(&cs("a\u{a0}b"), false), vec![cs("a"), cs("b")]);
    assert!(split_words(&cs(" \n "), false).is_empty());
    assert!(contains_word(&cs("scripted nav"), &cs("nav")));
    assert!(!contains_word(&cs("navigation"), &cs("nav")));
    assert!(contains_word_ignore_case(&cs("frontmatter TOC"), &cs("toc")));
    assert!(!contains_word_ignore_case(&cs("tocs"), &cs("toc")));
}

#[test]
fn decimal_numbers_are_read_as_the_standard_library_reads_them() {
    for s in ["0", "7", "-7", "+7", "007", "2147483647", "-2147483648", "2147483648", "-2147483649", "", "-", "+", "1a", " 1", "1 ", "--1", "99999999999999999999999", "\u{663}"] {
        assert_eq!(parse_i32(&cs(s)), s.parse::<i32>().ok(), "{:?}", s);
    }
    for s in ["0", "12", "+12", "-0", "-1", "", "18446744073709551615", "18446744073709551616", "x", "1_000"] {
        assert_eq!(parse_usize(&cs(s)), s.parse::<usize>().ok(), "{:?}", s);
    }
}

#[test]
fn decimal_numbers_are_written_without_leading_zeros() {
    for n in [0i64, 5, 10, 99, 100, -1, -10, 2147483647, -2147483648, i64::MAX, i64::MIN] {
        assert_eq!(string_of(&i64_text(n)), n.to_string());
    }
    for n in [0u64, 9, 10, 12345678901234567890, u64::MAX] {
        assert_eq!(string_of(&u64_text(n)), n.to_string());
    }
}

#[test]
fn paths_join_and_split() {
    assert_eq!(join_path("OEBPS", "text/ch1.xhtml"), "OEBPS/text/ch1.xhtml");
    assert_eq!(join_path("OEBPS/", "a"), "OEBPS/a");
    assert_eq!(join_path("", "a"), "a");
    assert_eq!(join_path("OEBPS", "/abs"), "/abs");
    assert_eq!(join_path("OEBPS", ""), "OEBPS/");
    assert_eq!(parent_path("OEBPS/content.opf"), "OEBPS");
    assert_eq!(parent_path("content.opf"), "");
    assert_eq!(parent_path("/content.opf"), "/");
    assert_eq!(parent_path("a/b/c"), "a/b");
    assert_eq!(strip_fragment("a.html#x#y"), "a.html");
    assert_eq!(strip_fragment("a.html"), "a.html");
    assert_eq!(strip_fragment("#x"), "");
}

#[test]
fn epub_uri_walks_from_the_document() {
    assert_eq!(build_epub_uri("OEBPS/Text/ch1.xhtml", "../Images/a.png"), "epub://OEBPS/Images/a.png");
    assert_eq!(build_epub_uri("OEBPS/Text/ch1.xhtml", "style.css"), "epub://OEBPS/Text/style.css");
    assert_eq!(build_epub_uri("OEBPS/Text/ch1.xhtml", "./a/./b"), "epub://OEBPS/Text/a/b");
    assert_eq!(build_epub_uri("ch1.xhtml", "../../x"), "epub://x");
    assert_eq!(build_epub_uri("OEBPS/ch1.xhtml", "http://example.org/x"), "http://example.org/x");
    assert_eq!(build_epub_uri("OEBPS/ch1.xhtml", "https://example.org/x"), "https://example.org/x");
    assert_eq!(build_epub_uri("/abs/ch1.xhtml", "a"), "epub:///abs/a");
    assert_eq!(resolve_path("OEBPS/Text/ch1.xhtml", "../css/a.css"), "OEBPS/css/a.css");
    assert_eq!(resolve_path("ch1.xhtml", "a.css"), "a.css");
}

#[test]
fn xml_becomes_a_tree() {
    let root = parse_xml(b"<?xml version=\"1.0\"?><!-- c --><a xmlns:n=\"urn:n\" k=\"v\" n:k=\"w\">one<b>two</b> <n:c/>three<![CDATA[<four>]]></a>").unwrap();
    assert_eq!(root.name.local_name, "a");
    assert_eq!(root.name.namespace, None);
    assert_eq!(root.attrs.len(), 2);
    assert_eq!(root.get_attr("k"), Some("v".to_string()));
    assert_eq!(root.get_attr_ns("k", "urn:n"), Some("w".to_string()));
    assert_eq!(root.get_attr_ns("k", "urn:other"), None);
    assert_eq!(root.get_attr("none"), None);
    assert_eq!(root.children.len(), 2);
    assert_eq!(root.children[0].text, Some("two".to_string()));
    assert_eq!(root.children[1].name.local_name, "c");
    assert_eq!(root.children[1].name.namespace, Some("urn:n".to_string()));
    assert_eq!(root.children[1].text, None);
    assert_eq!(root.text, Some("onethree<four>".to_string()));
    assert!(root.is_named("a"));
}

#[test]
fn xml_find_is_first_in_document_order() {
    let root = parse_xml(b"<r><a><x id=\"1\"/></a><x id=\"2\"/><b><x id=\"3\"/></b></r>").unwrap();
    assert_eq!(root.find("x").unwrap().get_attr("id"), Some("1".to_string()));
    assert_eq!(root.find("b").unwrap().find("x").unwrap().get_attr("id"), Some("3".to_string()));
    assert!(root.find("r").is_none());
    assert!(root.find("y").is_none());
}

#[test]
fn xml_errors() {
    assert!(matches!(parse_xml(b"<a><b></a>"), Err(XmlError::Malformed)));
    assert!(matches!(parse_xml(b"not xml"), Err(XmlError::Malformed)));
    assert!(matches!(parse_xml(b""), Err(XmlError::Malformed) | Err(XmlError::NoContent)));
    assert!(matches!(build_tree(&vec![XmlToken::Other, XmlToken::End]), Err(XmlError::NoContent)));
}

#[test]
fn tree_closes_elements_left_open() {
    let name = |s: &str| epub_engine::xml::XmlName::new(s.to_string(), None);
    let toks = vec![
        XmlToken::Other,
        XmlToken::Start { name: name("a"), attrs: vec![] },
        XmlToken::Text("x".to_string()),
        XmlToken::Start { name: name("b"), attrs: vec![] },
        XmlToken::CData("y".to_string()),
    ];
    let root = build_tree(&toks).unwrap();
    assert_eq!(root.name.local_name, "a");
    assert_eq!(root.text, Some("x".to_string()));
    assert_eq!(root.children.len(), 1);
    assert_eq!(root.children[0].text, Some("y".to_string()));
}
