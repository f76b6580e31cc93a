use win_svg_thumbs::document::{
    apply_rules_to_document, class_list_contains, element_matches, is_valid_css_identifier,
    merged_style, Document, Element,
};
use win_svg_thumbs::parser::parse_css_rules;
use win_svg_thumbs::preprocess::{
    extract_css, is_compressed, prepare, preprocess, raw_holds_marker,
    strip_important_from_inline_styles, strip_important_from_style_text, Prepared,
};
use win_svg_thumbs::style_map::{CssRule, StyleMap};

fn chars(s: &str) -> Vec<char> {
    s.chars().collect()
}

fn element(name: &str, class: Option<&str>, style: Option<&str>, text: &str) -> Element {
    Element {
        name: name.to_string(),
        class: class.map(|c| c.to_string()),
        style: style.map(|s| s.to_string()),
        text: text.to_string(),
    }
}

fn rule(selector: &str, properties: &str) -> CssRule {
    CssRule { selector: selector.to_string(), properties: properties.to_string() }
}

fn styles(doc: &Document) -> Vec<Option<String>> {
    doc.elements.iter().map(|e| e.style.clone()).collect()
}

fn some(s: &str) -> Option<String> {
    Some(s.to_string())
}

#[test]
fn identifiers_start_with_a_letter_or_underscore() {
    assert!(is_valid_css_identifier(&chars("a")));
    assert!(is_valid_css_identifier(&chars("_a")));
    assert!(is_valid_css_identifier(&chars("a-b_c9")));
    assert!(is_valid_css_identifier(&chars("\u{e9}t\u{e9}")));
    assert!(is_valid_css_identifier(&chars("a\u{663}")));
    assert!(!is_valid_css_identifier(&chars("")));
    assert!(!is_valid_css_identifier(&chars("9a")));
    assert!(!is_valid_css_identifier(&chars("-a")));
    assert!(!is_valid_css_identifier(&chars(".a")));
}

#[test]
fn identifiers_hold_nothing_that_could_change_a_query() {
    assert!(!is_valid_css_identifier(&chars("a b")));
    assert!(!is_valid_css_identifier(&chars("a']")));
    assert!(!is_valid_css_identifier(&chars("a'or'1'='1")));
    assert!(!is_valid_css_identifier(&chars("a>b")));
    assert!(!is_valid_css_identifier(&chars("a:hover")));
    assert!(!is_valid_css_identifier(&chars("a.b")));
    assert!(!is_valid_css_identifier(&chars("a#b")));
}

#[test]
fn class_list_is_matched_by_whole_names() {
    assert!(class_list_contains(&chars("foo bar"), &chars("foo")));
    assert!(class_list_contains(&chars("foo bar"), &chars("bar")));
    assert!(class_list_contains(&chars("  a\tfoo\r\nb "), &chars("foo")));
    assert!(class_list_contains(&chars("foo"), &chars("foo")));
    assert!(!class_list_contains(&chars("foobar"), &chars("foo")));
    assert!(!class_list_contains(&chars("barfoo"), &chars("foo")));
    assert!(!class_list_contains(&chars("foo-bar"), &chars("foo")));
    assert!(!class_list_contains(&chars("Foo"), &chars("foo")));
    assert!(!class_list_contains(&chars(""), &chars("foo")));
    assert!(!class_list_contains(&chars("   "), &chars("foo")));
    assert!(!class_list_contains(&chars("foo bar"), &chars("foo bar")));
    assert!(!class_list_contains(&chars("foo"), &chars("")));
}

#[test]
fn class_list_is_split_at_markup_whitespace_only() {
    assert!(!class_list_contains(&chars("a\u{a0}foo"), &chars("foo")));
    assert!(class_list_contains(&chars("a\u{a0}foo"), &chars("a\u{a0}foo")));
}

#[test]
fn class_selector_matches_by_class_and_tag_selector_by_name() {
    let e = element("rect", Some("foo bar"), None, "");
    assert!(element_matches(&chars(".foo"), &e));
    assert!(element_matches(&chars(".bar"), &e));
    assert!(element_matches(&chars("rect"), &e));
    assert!(!element_matches(&chars(".rect"), &e));
    assert!(!element_matches(&chars("foo"), &e));
    assert!(!element_matches(&chars("Rect"), &e));
    assert!(!element_matches(&chars(".fo"), &e));
    let bare = element("g", None, None, "");
    assert!(!element_matches(&chars(".g"), &bare));
    assert!(element_matches(&chars("g"), &bare));
}

#[test]
fn unsafe_selectors_match_nothing() {
    let e = element("rect", Some("a b 1x"), None, "");
    assert!(!element_matches(&chars(".a b"), &e));
    assert!(!element_matches(&chars(".1x"), &e));
    assert!(!element_matches(&chars("."), &e));
    assert!(!element_matches(&chars(""), &e));
    assert!(!element_matches(&chars("*"), &e));
    assert!(!element_matches(&chars("rect.a"), &e));
    assert!(!element_matches(&chars("rect']|//*['"), &e));
}

#[test]
fn merged_style_puts_new_declarations_first() {
    assert_eq!(merged_style("fill:red;", &None), "fill:red;");
    assert_eq!(merged_style("fill:red;", &some("")), "fill:red;");
    assert_eq!(merged_style("fill:red;", &some("fill:blue;")), "fill:red;fill:blue;");
    assert_eq!(merged_style("fill:red;", &some("fill:blue")), "fill:red;fill:blue;");
    assert_eq!(merged_style("", &some("fill:blue")), "fill:blue;");
    assert_eq!(merged_style("", &None), "");
}

#[test]
fn rule_is_inlined_into_an_element_without_style() {
    let mut doc = Document {
        elements: vec![
            element("svg", None, None, ""),
            element("style", None, None, ".foo{fill:red;}"),
            element("rect", Some("foo bar"), None, ""),
        ],
    };
    let rules = parse_css_rules(".foo{fill:red;}");
    apply_rules_to_document(&mut doc, &rules);
    assert_eq!(styles(&doc), vec![None, None, some("fill:red;")]);
}

#[test]
fn inline_declarations_keep_precedence() {
    let mut doc = Document { elements: vec![element("rect", Some("foo bar"), Some("fill:blue;"), "")] };
    let rules = parse_css_rules(".foo{fill:red;}");
    apply_rules_to_document(&mut doc, &rules);
    let style = doc.elements[0].style.clone().unwrap();
    assert_eq!(style, "fill:red;fill:blue;");
    assert!(style.rfind("fill:blue").unwrap() > style.rfind("fill:red").unwrap());
}

#[test]
fn rules_are_applied_in_the_order_of_the_map() {
    let mut doc = Document {
        elements: vec![
            element("rect", Some("a b"), Some("x:0"), ""),
            element("circle", Some("b"), None, ""),
            element("rect", None, None, ""),
        ],
    };
    let rules = vec![rule(".a", "p:1;"), rule("rect", "q:2;"), rule(".b", "r:3;"), rule("a b", "s:4;")];
    apply_rules_to_document(&mut doc, &rules);
    assert_eq!(styles(&doc), vec![some("r:3;q:2;p:1;x:0;"), some("r:3;"), some("q:2;")]);
    assert_eq!(doc.elements[0].class, some("a b"));
    assert_eq!(doc.elements[1].name, "circle");
}

#[test]
fn rule_without_declarations_still_closes_the_style() {
    let mut doc = Document {
        elements: vec![element("rect", None, Some("x:0"), ""), element("rect", None, None, "")],
    };
    apply_rules_to_document(&mut doc, &vec![rule("rect", "")]);
    assert_eq!(styles(&doc), vec![some("x:0;"), some("")]);
}

#[test]
fn no_rules_leave_the_document_as_it_is() {
    let mut doc = Document { elements: vec![element("rect", Some("a"), Some("x:0"), "t")] };
    apply_rules_to_document(&mut doc, &Vec::new());
    assert_eq!(styles(&doc), vec![some("x:0")]);
    assert_eq!(doc.elements[0].text, "t");
}

#[test]
fn style_map_keeps_first_seen_order() {
    let mut map = StyleMap::new();
    assert_eq!(map.len(), 0);
    map.append(&chars(".b"), &chars("x:1;"));
    map.append(&chars(".a"), &chars("y:2;"));
    map.append(&chars(".b"), &chars("z:3;"));
    map.append(&chars(".b"), &chars(""));
    assert_eq!(map.len(), 2);
    let rules = map.into_rules();
    assert_eq!(rules[0].selector, ".b");
    assert_eq!(rules[0].properties, "x:1;z:3;");
    assert_eq!(rules[1].selector, ".a");
    assert_eq!(rules[1].properties, "y:2;");
}

#[test]
fn stylesheet_is_collected_from_style_elements() {
    let doc = Document {
        elements: vec![
            element("svg", None, None, "ignored"),
            element("style", None, None, ".a{x:1 !important}"),
            element("g", None, None, ""),
            element("style", None, None, ".b{y:2}"),
            element("Style", None, None, ".c{z:3}"),
        ],
    };
    assert_eq!(extract_css(&doc), ".a{x:1 }\n.b{y:2}");
    let none = Document { elements: vec![element("svg", None, None, "x")] };
    assert_eq!(extract_css(&none), "");
    let one = Document { elements: vec![element("style", None, None, "a{}")] };
    assert_eq!(extract_css(&one), "a{}");
}

#[test]
fn compressed_input_is_detected_by_its_magic_number() {
    assert!(is_compressed(&[0x1f, 0x8b]));
    assert!(is_compressed(&[0x1f, 0x8b, 0x08, 0x00]));
    assert!(!is_compressed(&[0x1f]));
    assert!(!is_compressed(&[]));
    assert!(!is_compressed(&[0x8b, 0x1f]));
    assert!(!is_compressed(b"<svg/>"));
}

#[test]
fn marker_is_searched_in_the_raw_bytes() {
    assert!(raw_holds_marker(b"<rect style=\"fill:red !important\"/>"));
    assert!(raw_holds_marker(b"!important"));
    assert!(raw_holds_marker(b"\xff\xfe!important\x80"));
    assert!(!raw_holds_marker(b"!importan"));
    assert!(!raw_holds_marker(b"<rect style=\"fill:red &#33;important\"/>"));
    assert!(!raw_holds_marker(b""));
    assert!(!raw_holds_marker(b"!IMPORTANT"));
}

#[test]
fn inline_styles_are_cleaned_and_nothing_else() {
    let mut doc = Document {
        elements: vec![
            element("style", Some("c !important"), Some("a:b !important"), ".a{x:1 !important}"),
            element("text", None, Some("fill:red !important;stroke:blue!important"), "say !important"),
            element("g", None, None, "!important"),
            element("style", None, None, "!important"),
            element("rect", Some("k"), Some("fill:blue"), ""),
        ],
    };
    let before = doc.clone();
    strip_important_from_inline_styles(&mut doc);
    assert_eq!(
        styles(&doc),
        vec![some("a:b "), some("fill:red ;stroke:blue"), None, None, some("fill:blue")]
    );
    assert_eq!(doc.elements.len(), before.elements.len());
    for (after, old) in doc.elements.iter().zip(&before.elements) {
        assert_eq!(after.text, old.text);
        assert_eq!(after.name, old.name);
        assert_eq!(after.class, old.class);
    }
}

#[test]
fn style_text_is_cleaned_and_nothing_else() {
    let mut doc = Document {
        elements: vec![
            element("style", Some("c !important"), Some("a:b !important"), ".a{x:1 !important}"),
            element("text", None, Some("fill:red !important"), "say !important"),
            element("style", None, None, "!important"),
            element("Style", None, None, "!important"),
        ],
    };
    let before = doc.clone();
    strip_important_from_style_text(&mut doc);
    let texts: Vec<&str> = doc.elements.iter().map(|e| e.text.as_str()).collect();
    assert_eq!(texts, vec![".a{x:1 }", "say !important", "", "!important"]);
    for (after, old) in doc.elements.iter().zip(&before.elements) {
        assert_eq!(after.style, old.style);
        assert_eq!(after.name, old.name);
        assert_eq!(after.class, old.class);
    }
}

#[test]
fn preprocess_cleans_styles_and_style_text_of_a_marked_document() {
    let doc = Document {
        elements: vec![
            element("style", None, None, "rect{a:b !important}"),
            element("rect", None, Some("c:d !important"), "label !important"),
        ],
    };
    let out = preprocess(doc, true);
    assert!(out.rewritten);
    assert_eq!(styles(&out.document), vec![None, some("a:b;c:d ;")]);
    assert_eq!(out.document.elements[0].text, "rect{a:b }");
    assert_eq!(out.document.elements[1].text, "label !important");
}

#[test]
fn preprocess_without_marker_leaves_inline_styles_uncleaned() {
    let doc = Document {
        elements: vec![
            element("style", None, None, "rect{a:b}"),
            element("rect", None, Some("c:d !important"), ""),
        ],
    };
    let out = preprocess(doc, false);
    assert!(out.rewritten);
    assert_eq!(styles(&out.document), vec![None, some("a:b;c:d !important;")]);
}

#[test]
fn preprocess_reports_whether_anything_was_done() {
    let plain = Document { elements: vec![element("rect", None, Some("c:d"), "")] };
    let out = preprocess(plain.clone(), false);
    assert!(!out.rewritten);
    assert_eq!(styles(&out.document), vec![some("c:d")]);
    let marked = preprocess(plain, true);
    assert!(marked.rewritten);
    let empty_sheet = Document { elements: vec![element("style", None, None, " /* nothing */ ")] };
    assert!(!preprocess(empty_sheet, false).rewritten);
}

#[test]
fn prepare_passes_compressed_input_on() {
    let doc = Document { elements: vec![element("style", None, None, "rect{a:b}")] };
    assert!(matches!(prepare(&[0x1f, 0x8b, 0x08], Some(doc)), Prepared::Compressed));
    assert!(matches!(prepare(&[0x1f, 0x8b], None), Prepared::Compressed));
}

#[test]
fn prepare_degrades_on_input_that_is_no_markup() {
    assert!(matches!(prepare(b"this is not markup", None), Prepared::ParseDegraded));
    assert!(matches!(prepare(b"", None), Prepared::ParseDegraded));
    assert!(matches!(prepare(b"<svg><unclosed !important", None), Prepared::ParseDegraded));
}

#[test]
fn prepare_leaves_a_document_without_rules_untouched() {
    let doc = Document {
        elements: vec![element("svg", None, None, ""), element("rect", Some("a"), Some("x:0"), "")],
    };
    assert!(matches!(prepare(b"<svg><rect class=\"a\" style=\"x:0\"/></svg>", Some(doc)), Prepared::Untouched));
}

#[test]
fn prepare_inlines_the_stylesheet() {
    let raw = b"<svg><style>.foo{fill:red;}</style><rect class=\"foo bar\"/><rect class=\"foo\" style=\"fill:blue;\"/></svg>";
    let doc = Document {
        elements: vec![
            element("svg", None, None, ".foo{fill:red;}"),
            element("style", None, None, ".foo{fill:red;}"),
            element("rect", Some("foo bar"), None, ""),
            element("rect", Some("foo"), Some("fill:blue;"), ""),
        ],
    };
    match prepare(raw, Some(doc)) {
        Prepared::Rewritten(out) => {
            assert_eq!(styles(&out), vec![None, None, some("fill:red;"), some("fill:red;fill:blue;")]);
            assert_eq!(out.elements[1].text, ".foo{fill:red;}");
        },
        other => panic!("not rewritten: {:?}", other),
    }
}

#[test]
fn prepare_leaves_no_marker_behind() {
    let raw = b"<svg><style>.a{fill:red !impor/**/tant} rect{x:y !important}</style><rect class=\"a\" style=\"s:t !impo!importantrtant\"/></svg>";
    let doc = Document {
        elements: vec![
            element("svg", None, None, ""),
            element("style", None, None, ".a{fill:red !impor/**/tant} rect{x:y !important}"),
            element("rect", Some("a"), Some("s:t !impo!importantrtant"), ""),
        ],
    };
    match prepare(raw, Some(doc)) {
        Prepared::Rewritten(out) => {
            assert_eq!(styles(&out), vec![None, None, some("x:y;fill:red;s:t ;")]);
            assert_eq!(out.elements[1].text, ".a{fill:red !impor/**/tant} rect{x:y }");
            for e in &out.elements {
                if let Some(style) = &e.style {
                    assert!(!style.contains("!important"));
                }
                if e.name == "style" {
                    assert!(!e.text.contains("!important"));
                }
            }
        },
        other => panic!("not rewritten: {:?}", other),
    }
}

#[test]
fn prepare_gives_the_same_document_for_the_same_input() {
    let raw = b"<svg><style>b,.a{p:1}@media x{.a{q:2}}</style><b class=\"a\"/></svg>";
    let doc = Document {
        elements: vec![
            element("style", None, None, "b,.a{p:1}@media x{.a{q:2}}"),
            element("b", Some("a"), None, ""),
        ],
    };
    let first = match prepare(raw, Some(doc.clone())) {
        Prepared::Rewritten(out) => styles(&out),
        other => panic!("not rewritten: {:?}", other),
    };
    let second = match prepare(raw, Some(doc)) {
        Prepared::Rewritten(out) => styles(&out),
        other => panic!("not rewritten: {:?}", other),
    };
    assert_eq!(first, vec![None, some("p:1;q:2;p:1;")]);
    assert_eq!(first, second);
}
