use win_svg_thumbs::css::{
    contains_marker, find_matching_brace, normalize_css_properties, remove_css_comments,
    remove_marker,
};
use win_svg_thumbs::parser::{parse_css_rules, MAX_NESTING_DEPTH};
use win_svg_thumbs::text::{to_chars, to_text, trim_range};

fn chars(s: &str) -> Vec<char> {
    s.chars().collect()
}

fn text(v: Vec<char>) -> String {
    v.into_iter().collect()
}

fn pairs(css: &str) -> Vec<(String, String)> {
    parse_css_rules(css).into_iter().map(|r| (r.selector, r.properties)).collect()
}

fn pair(selector: &str, properties: &str) -> (String, String) {
    (selector.to_string(), properties.to_string())
}

#[test]
fn text_round_trip() {
    let v = to_chars("a\u{e9}\u{1f600}b");
    assert_eq!(v, vec!['a', '\u{e9}', '\u{1f600}', 'b']);
    assert_eq!(to_text(&v), "a\u{e9}\u{1f600}b");
}

#[test]
fn trim_range_drops_unicode_whitespace() {
    let v = chars("x \u{a0}\t ab c \u{2003}\n y");
    assert_eq!(trim_range(&v, 1, 13), (5, 9));
    assert_eq!(trim_range(&v, 1, 14), (5, 14));
    assert_eq!(trim_range(&v, 1, 4), (4, 4));
    assert_eq!(trim_range(&v, 0, v.len()), (0, v.len()));
}

#[test]
fn comments_are_removed() {
    assert_eq!(text(remove_css_comments(&chars("a/* b */c"))), "ac");
    assert_eq!(text(remove_css_comments(&chars("/**/a/***/b"))), "ab");
    assert_eq!(text(remove_css_comments(&chars("a/*/b*/c"))), "ac");
    assert_eq!(text(remove_css_comments(&chars("a/b*c"))), "a/b*c");
    assert_eq!(text(remove_css_comments(&chars(""))), "");
}

#[test]
fn unclosed_comment_runs_to_the_end() {
    assert_eq!(text(remove_css_comments(&chars("a{b}/* c {d}"))), "a{b}");
    assert_eq!(text(remove_css_comments(&chars("a/*"))), "a");
    assert_eq!(text(remove_css_comments(&chars("a/**"))), "a");
}

#[test]
fn comment_opener_in_a_quoted_string_is_kept() {
    assert_eq!(
        text(remove_css_comments(&chars("a{b:\"/* no */\"}/* yes */c"))),
        "a{b:\"/* no */\"}c"
    );
    assert_eq!(text(remove_css_comments(&chars("'/*'/*x*/'*/'"))), "'/*''*/'");
    assert_eq!(text(remove_css_comments(&chars("\"'/*x*/\"/*y*/"))), "\"'/*x*/\"");
}

#[test]
fn quote_inside_a_comment_opens_no_string() {
    assert_eq!(text(remove_css_comments(&chars("a/* ' */b/* c */d"))), "abd");
}

#[test]
fn matching_brace_of_a_plain_block() {
    let s = chars("a{b}c");
    assert_eq!(find_matching_brace(&s, 1), Some(3));
}

#[test]
fn matching_brace_counts_nested_blocks() {
    let s = chars("@m{a{b}c{d}}e{f}");
    assert_eq!(find_matching_brace(&s, 2), Some(11));
    assert_eq!(find_matching_brace(&s, 4), Some(6));
    assert_eq!(find_matching_brace(&s, 13), Some(15));
}

#[test]
fn matching_brace_passes_over_strings_and_escapes() {
    let s = chars("a{b:\"}\";c:'{'}d");
    assert_eq!(find_matching_brace(&s, 1), Some(13));
    let t = chars("a{b\\}c}");
    assert_eq!(find_matching_brace(&t, 1), Some(6));
    let u = chars("a{b:\"\\\"}\"}");
    assert_eq!(find_matching_brace(&u, 1), Some(9));
}

#[test]
fn matching_brace_is_none_where_the_block_is_not_closed() {
    assert_eq!(find_matching_brace(&chars("a{b{c}"), 1), None);
    assert_eq!(find_matching_brace(&chars("a{b:\"}"), 1), None);
    assert_eq!(find_matching_brace(&chars("a{"), 1), None);
    assert_eq!(find_matching_brace(&chars("a{"), 2), None);
    assert_eq!(find_matching_brace(&chars("a{"), 9), None);
}

#[test]
fn declarations_are_normalized() {
    assert_eq!(text(normalize_css_properties(&chars("fill:red"))), "fill:red;");
    assert_eq!(
        text(normalize_css_properties(&chars("  fill : red ;\n stroke:blue  "))),
        "fill : red;stroke:blue;"
    );
    assert_eq!(text(normalize_css_properties(&chars(";;a:b;; ;c:d;"))), "a:b;c:d;");
    assert_eq!(text(normalize_css_properties(&chars(""))), "");
    assert_eq!(text(normalize_css_properties(&chars(" ; \t;"))), "");
}

#[test]
fn marker_is_found() {
    assert!(contains_marker(&chars("fill:red !important;")));
    assert!(contains_marker(&chars("!important")));
    assert!(!contains_marker(&chars("!importan")));
    assert!(!contains_marker(&chars("! important")));
    assert!(!contains_marker(&chars("")));
}

#[test]
fn marker_is_removed() {
    assert_eq!(text(remove_marker(&chars("fill:red !important;"))), "fill:red ;");
    assert_eq!(text(remove_marker(&chars("!important!important"))), "");
    assert_eq!(text(remove_marker(&chars("a!importantb!importantc"))), "abc");
    assert_eq!(text(remove_marker(&chars("!importan t"))), "!importan t");
    assert_eq!(text(remove_marker(&chars(""))), "");
}

#[test]
fn marker_that_forms_around_a_removed_one_is_removed_too() {
    assert_eq!(text(remove_marker(&chars("a!impo!importantrtantb"))), "ab");
    assert_eq!(text(remove_marker(&chars("!!importantimportant!"))), "!");
    let cleaned = remove_marker(&chars("x!im!impo!importantrtantportanty"));
    assert_eq!(text(cleaned.clone()), "xy");
    assert!(!contains_marker(&cleaned));
}

#[test]
fn one_rule() {
    assert_eq!(pairs(".foo{fill:red;}"), vec![pair(".foo", "fill:red;")]);
}

#[test]
fn selector_list_gives_each_selector_the_declarations() {
    assert_eq!(
        pairs(" .a , rect ,\n.b { fill : red ; stroke:blue } "),
        vec![
            pair(".a", "fill : red;stroke:blue;"),
            pair("rect", "fill : red;stroke:blue;"),
            pair(".b", "fill : red;stroke:blue;"),
        ]
    );
}

#[test]
fn empty_selectors_are_passed_over() {
    assert_eq!(pairs(",.a, ,{x:1}"), vec![pair(".a", "x:1;")]);
    assert_eq!(pairs("{x:1}.b{y:2}"), vec![pair(".b", "y:2;")]);
}

#[test]
fn later_declarations_for_a_selector_are_appended() {
    assert_eq!(
        pairs(".a{x:1}.b{y:2}.a{z:3}.a,.b{w:4}"),
        vec![pair(".a", "x:1;z:3;w:4;"), pair(".b", "y:2;w:4;")]
    );
}

#[test]
fn empty_body_gives_an_entry_without_declarations() {
    assert_eq!(pairs(".a{}"), vec![pair(".a", "")]);
    assert_eq!(pairs(".a{}.a{x:1}"), vec![pair(".a", "x:1;")]);
}

#[test]
fn at_rule_body_is_scanned_after_its_block() {
    assert_eq!(
        pairs("@media screen{.a{x:1}} .b{y:2}"),
        vec![pair(".b", "y:2;"), pair(".a", "x:1;")]
    );
}

#[test]
fn later_at_rule_body_is_scanned_first() {
    assert_eq!(
        pairs("@m{.a{x:1}}@n{.b{y:2}}.c{z:3}"),
        vec![pair(".c", "z:3;"), pair(".b", "y:2;"), pair(".a", "x:1;")]
    );
}

#[test]
fn nested_at_rules_are_flattened() {
    assert_eq!(
        pairs("@a{@b{.x{p:1}}.y{q:2}}"),
        vec![pair(".y", "q:2;"), pair(".x", "p:1;")]
    );
}

#[test]
fn at_rule_condition_is_not_evaluated() {
    assert_eq!(pairs("@media (max-width:0px){.a{x:1}}"), vec![pair(".a", "x:1;")]);
    assert_eq!(pairs("  @supports not (x:y) {rect{x:1}}"), vec![pair("rect", "x:1;")]);
}

#[test]
fn scan_ends_at_an_unclosed_block() {
    assert_eq!(pairs(".a{x:1}.b{y:2"), vec![pair(".a", "x:1;")]);
    assert_eq!(pairs(".a{x:1}.b{y:{2}.c{z:3}"), vec![pair(".a", "x:1;")]);
}

#[test]
fn text_behind_the_last_block_is_ignored() {
    assert_eq!(pairs(".a{x:1} .b "), vec![pair(".a", "x:1;")]);
    assert_eq!(pairs("no braces at all"), Vec::<(String, String)>::new());
    assert_eq!(pairs(""), Vec::<(String, String)>::new());
    assert_eq!(pairs(" \n\t "), Vec::<(String, String)>::new());
}

#[test]
fn braces_in_strings_and_escaped_braces_do_not_close_a_block() {
    assert_eq!(
        pairs(".a{content:\"}\";x:1}.b{y:2}"),
        vec![pair(".a", "content:\"}\";x:1;"), pair(".b", "y:2;")]
    );
    assert_eq!(pairs(".a{x:\\};y:2}"), vec![pair(".a", "x:\\};y:2;")]);
}

#[test]
fn comments_are_taken_out_before_the_scan() {
    assert_eq!(pairs("/* .z{q:0} */.a{/* } */x:1}"), vec![pair(".a", "x:1;")]);
    assert_eq!(pairs(".a{x:1}/* .b{y:2}"), vec![pair(".a", "x:1;")]);
}

#[test]
fn stylesheet_is_trimmed_of_unicode_whitespace() {
    assert_eq!(pairs("\u{a0}\u{2003}.a\u{a0}{\u{3000}x:1\u{a0};}\u{2028}"), vec![pair(".a", "x:1;")]);
}

#[test]
fn marker_is_stripped_before_declarations_are_normalized() {
    assert_eq!(pairs(".a{fill:red !important}"), vec![pair(".a", "fill:red;")]);
    assert_eq!(
        pairs(".a{fill:red!important;stroke:blue !important ;}"),
        vec![pair(".a", "fill:red;stroke:blue;")]
    );
    assert_eq!(pairs(".a{!important}"), vec![pair(".a", "")]);
    assert_eq!(pairs(".a{ !important ; x:1; !important}"), vec![pair(".a", "x:1;")]);
}

#[test]
fn marker_that_a_removed_comment_leaves_is_stripped() {
    assert_eq!(pairs(".a{fill:red !impor/* c */tant}"), vec![pair(".a", "fill:red;")]);
}

#[test]
fn declarations_are_trimmed_and_closed() {
    for css in [
        ".a{fill:red !important}",
        ".a{ x : 1 ;; y:2 !important ; }",
        ".a{!important;!important}.a{ z:3 }",
        "@m{.a{p:1 !impo!importantrtant }}",
    ] {
        for (_, properties) in pairs(css) {
            assert!(properties.is_empty() || properties.ends_with(';'));
            for declaration in properties.split_terminator(';') {
                assert!(!declaration.is_empty());
                assert_eq!(declaration.trim(), declaration);
            }
            assert!(!properties.contains("!important"));
        }
    }
}

#[test]
fn sibling_at_rules_are_all_followed() {
    let mut css = String::new();
    for i in 0..300 {
        css.push_str(&format!("@media x{{.c{}{{fill:red}}}}", i));
    }
    css.push_str(".last{y:2}");
    let rules = pairs(&css);
    assert_eq!(rules.len(), 301);
    assert_eq!(rules[0], pair(".last", "y:2;"));
    assert_eq!(rules[1], pair(".c299", "fill:red;"));
    assert_eq!(rules[300], pair(".c0", "fill:red;"));
    for i in 0..300 {
        assert!(rules.contains(&pair(&format!(".c{}", i), "fill:red;")));
    }
}

#[test]
fn nesting_is_followed_to_the_maximum_depth() {
    assert_eq!(MAX_NESTING_DEPTH, 256);
    let nested = |depth: usize| format!("{}.x{{a:b}}{}", "@m{".repeat(depth), "}".repeat(depth));
    assert_eq!(pairs(&nested(0)), vec![pair(".x", "a:b;")]);
    assert_eq!(pairs(&nested(1)), vec![pair(".x", "a:b;")]);
    assert_eq!(pairs(&nested(255)), vec![pair(".x", "a:b;")]);
    assert_eq!(pairs(&nested(256)), vec![pair(".x", "a:b;")]);
    assert_eq!(pairs(&nested(257)), Vec::<(String, String)>::new());
    assert_eq!(pairs(&nested(1000)), Vec::<(String, String)>::new());
}

#[test]
fn rules_deeper_than_the_maximum_depth_are_passed_over() {
    let mut css = String::new();
    for level in 1..=300 {
        css.push_str(&format!("@m{{.l{}{{a:b}}", level));
    }
    css.push_str(&"}".repeat(300));
    css.push_str(".top{c:d}");
    let rules = pairs(&css);
    assert_eq!(rules.len(), 257);
    assert_eq!(rules[0], pair(".top", "c:d;"));
    for level in 1..=256 {
        assert_eq!(rules[level], pair(&format!(".l{}", level), "a:b;"));
    }
}

#[test]
fn many_rules_for_one_selector() {
    let mut css = String::new();
    let mut expected = String::new();
    for i in 0..2000 {
        css.push_str(&format!(".a{{p{}:v}}", i));
        expected.push_str(&format!("p{}:v;", i));
    }
    assert_eq!(pairs(&css), vec![pair(".a", &expected)]);
}

#[test]
fn text_that_is_no_stylesheet_gives_no_rules() {
    assert_eq!(pairs("}}}{{{"), Vec::<(String, String)>::new());
    assert_eq!(pairs("\\{'\"/*"), Vec::<(String, String)>::new());
    assert_eq!(pairs("@@@{{}}"), Vec::<(String, String)>::new());
}

#[test]
fn normalizing_twice_changes_nothing() {
    for s in ["", " ; ", "fill:red", " a : b ;; c:d ;", "x:1;y:2;", "  \u{a0}p : q\u{2003};"] {
        let once = normalize_css_properties(&chars(s));
        let twice = normalize_css_properties(&once);
        assert_eq!(once, twice);
    }
}
