//! The stylesheet inliner as a whole: from a parsed document to the document
//! that the rasterizer is given.

use crate::css::{
    lemma_closing_brace_bounds, lemma_strip_marker_removes_all, marker, matching_brace,
    normalize, normalize_from, remove_marker, strip_comments, strip_marker,
};
use crate::document::{
    apply_rules, apply_rules_to_document, inline_rules, rules_view, terminated, Document,
    ElementModel,
};
use crate::parser::{
    add_selectors_from, drain, is_at_rule, lemma_scan_weight, parse, parse_css_rules,
    pending_weight, scan_block, MAX_NESTING_DEPTH,
};
use crate::style_map::{accumulate, lemma_selector_index, selector_index};
use crate::text::{
    contains, find_char, lemma_find_char, lemma_trim_is_subrange, occurs_at, same_chars,
    to_chars, to_text, trim, trim_front,
};
use vstd::prelude::*;
use vstd::string::StringExecFns;

verus! {

/// Whether the bytes start with the magic number of a gzip container.
pub open spec fn compressed(raw: Seq<u8>) -> bool {
    raw.len() >= 2 && raw[0] == 0x1f && raw[1] == 0x8b
}

/// Tells whether the input is a compressed container. Such input is not
/// text: it goes to the rasterizer as it is.
pub fn is_compressed(raw: &[u8]) -> (b: bool)
    ensures
        b == compressed(raw@),
{
    raw.len() >= 2 && raw[0] == 0x1f && raw[1] == 0x8b
}

/// The forced-priority marker as bytes.
pub open spec fn marker_bytes() -> Seq<u8> {
    seq![0x21u8, 0x69u8, 0x6du8, 0x70u8, 0x6fu8, 0x72u8, 0x74u8, 0x61u8, 0x6eu8, 0x74u8]
}

/// Whether the marker stands in `raw` at index `at`.
pub open spec fn marker_at(raw: Seq<u8>, at: int) -> bool {
    0 <= at && at + 10 <= raw.len() && raw.subrange(at, at + 10) == marker_bytes()
}

/// Whether the marker stands somewhere in `raw`.
pub open spec fn holds_marker(raw: Seq<u8>) -> bool {
    exists|at: int| marker_at(raw, at)
}

/// Tells whether the raw input holds the forced-priority marker anywhere.
/// The marker is plain ASCII, so the answer is the same for the bytes and
/// for the text decoded from them.
pub fn raw_holds_marker(raw: &[u8]) -> (b: bool)
    ensures
        b == holds_marker(raw@),
{
    let m: [u8; 10] = [0x21, 0x69, 0x6d, 0x70, 0x6f, 0x72, 0x74, 0x61, 0x6e, 0x74];
    assert(m@ =~= marker_bytes());
    let n = raw.len();
    if n < 10 {
        assert forall|at: int| !marker_at(raw@, at) by {}
        return false;
    }
    let mut at: usize = 0;
    while at <= n - 10
        invariant
            10 <= n == raw.len(),
            at <= n - 10 + 1,
            m@ == marker_bytes(),
            forall|k: int| 0 <= k < at ==> !marker_at(raw@, k),
        decreases n - at,
    {
        let mut j: usize = 0;
        while j < 10 && raw[at + j] == m[j]
            invariant
                at + 10 <= n == raw.len(),
                j <= 10,
                m@ == marker_bytes(),
                forall|k: int| 0 <= k < j ==> raw@[at + k] == marker_bytes()[k],
            decreases 10 - j,
        {
            j += 1;
        }
        if j == 10 {
            assert(raw@.subrange(at as int, at + 10) =~= marker_bytes());
            assert(marker_at(raw@, at as int));
            return true;
        }
        proof {
            let w = raw@.subrange(at as int, at + 10);
            assert(w[j as int] == raw@[at + j]);
        }
        at += 1;
    }
    assert forall|k: int| !marker_at(raw@, k) by {}
    false
}

/// The tag name of the elements that hold stylesheet text.
pub open spec fn style_tag() -> Seq<char> {
    seq!['s', 't', 'y', 'l', 'e']
}

/// Tells whether an element of this name holds stylesheet text.
pub fn is_style_tag(name: &str) -> (b: bool)
    ensures
        b == (name@ == style_tag()),
{
    let tag: [char; 5] = ['s', 't', 'y', 'l', 'e'];
    assert(tag@ =~= style_tag());
    let chars = to_chars(name);
    same_chars(chars.as_slice(), tag.as_slice())
}

/// The stylesheet texts of the document, in document order, each without
/// the forced-priority marker.
pub open spec fn style_texts(doc: Seq<ElementModel>) -> Seq<Seq<char>>
    decreases doc.len(),
{
    if doc.len() == 0 {
        Seq::empty()
    } else if doc.last().name == style_tag() {
        style_texts(doc.drop_last()).push(strip_marker(doc.last().text))
    } else {
        style_texts(doc.drop_last())
    }
}

/// The texts, separated by newlines.
pub open spec fn join_lines(texts: Seq<Seq<char>>) -> Seq<char>
    decreases texts.len(),
{
    if texts.len() == 0 {
        Seq::empty()
    } else if texts.len() == 1 {
        texts[0]
    } else {
        join_lines(texts.drop_last()).push('\n') + texts.last()
    }
}

/// The stylesheet of the document: the text of its style elements, each
/// without the forced-priority marker, separated by newlines.
pub open spec fn stylesheet(doc: Seq<ElementModel>) -> Seq<char> {
    join_lines(style_texts(doc))
}

/// The element without the forced-priority marker in its inline style.
/// Nothing else of the element changes.
pub open spec fn clean_style(e: ElementModel) -> ElementModel {
    ElementModel {
        style: match e.style {
            Some(s) => Some(strip_marker(s)),
            None => None,
        },
        ..e
    }
}

/// The element without the forced-priority marker in its text, where it is
/// a style element. Every other element stays as it is.
pub open spec fn clean_text(e: ElementModel) -> ElementModel {
    ElementModel {
        text: if e.name == style_tag() {
            strip_marker(e.text)
        } else {
            e.text
        },
        ..e
    }
}

/// The element without the forced-priority marker in its inline style and,
/// for a style element, in its text.
pub open spec fn clean_element(e: ElementModel) -> ElementModel {
    clean_text(clean_style(e))
}

/// The document with the marker taken out where `marked` says that the raw
/// input held it; otherwise the document as it is.
pub open spec fn cleaned(doc: Seq<ElementModel>, marked: bool) -> Seq<ElementModel> {
    if marked {
        Seq::new(doc.len(), |i: int| clean_element(doc[i]))
    } else {
        doc
    }
}

/// The document that the rasterizer is given: the rules of the document's
/// own stylesheet, applied to the cleaned document.
pub open spec fn preprocessed(doc: Seq<ElementModel>, marked: bool) -> Seq<ElementModel> {
    inline_rules(cleaned(doc, marked), parse(stylesheet(doc)))
}

/// Collects the stylesheet of the document.
pub fn extract_css(doc: &Document) -> (css: String)
    ensures
        css@ == stylesheet(doc@),
{
    let mut css = String::new();
    let mut found: usize = 0;
    let n = doc.elements.len();
    let mut i: usize = 0;
    assert(doc@.take(0) =~= Seq::<ElementModel>::empty());
    while i < n
        invariant
            i <= n == doc.elements@.len(),
            found == style_texts(doc@.take(i as int)).len(),
            found <= i,
            css@ == join_lines(style_texts(doc@.take(i as int))),
        decreases n - i,
    {
        proof {
            let t = doc@.take(i as int + 1);
            assert(t.drop_last() == doc@.take(i as int));
            assert(t.last() == doc.elements@[i as int]@);
        }
        if is_style_tag(doc.elements[i].name.as_str()) {
            let text = to_chars(doc.elements[i].text.as_str());
            let clean = remove_marker(text.as_slice());
            let piece = to_text(clean.as_slice());
            let ghost before = style_texts(doc@.take(i as int));
            if found > 0 {
                css.push('\n');
            }
            css.append(piece.as_str());
            proof {
                let after = before.push(piece@);
                assert(after.drop_last() == before);
                if found == 0 {
                    assert(before =~= Seq::<Seq<char>>::empty());
                    assert(css@ =~= after[0]);
                }
            }
            found += 1;
        }
        i += 1;
    }
    assert(doc@.take(n as int) == doc@);
    css
}

/// Takes the forced-priority marker out of every inline style. Elements
/// without a style, every other attribute and all text stay as they are.
pub fn strip_important_from_inline_styles(doc: &mut Document)
    ensures
        final(doc)@.len() == old(doc)@.len(),
        forall|i: int|
            0 <= i < old(doc)@.len() ==> #[trigger] final(doc)@[i] == clean_style(old(doc)@[i]),
{
    let n = doc.elements.len();
    let mut i: usize = 0;
    while i < n
        invariant
            i <= n == doc.elements@.len() == old(doc).elements@.len(),
            forall|k: int|
                0 <= k < i ==> #[trigger] doc.elements@[k]@ == clean_style(
                    old(doc).elements@[k]@,
                ),
            forall|k: int| i <= k < n ==> #[trigger] doc.elements@[k] == old(doc).elements@[k],
        decreases n - i,
    {
        let style: Option<String> = match &doc.elements[i].style {
            Some(s) => {
                let chars = to_chars(s.as_str());
                let clean = remove_marker(chars.as_slice());
                Some(to_text(clean.as_slice()))
            },
            None => None,
        };
        doc.elements[i].style = style;
        i += 1;
    }
}

/// Takes the forced-priority marker out of the text of every style element.
/// Every attribute and the text of every other element stay as they are.
pub fn strip_important_from_style_text(doc: &mut Document)
    ensures
        final(doc)@.len() == old(doc)@.len(),
        forall|i: int|
            0 <= i < old(doc)@.len() ==> #[trigger] final(doc)@[i] == clean_text(old(doc)@[i]),
{
    let n = doc.elements.len();
    let mut i: usize = 0;
    while i < n
        invariant
            i <= n == doc.elements@.len() == old(doc).elements@.len(),
            forall|k: int|
                0 <= k < i ==> #[trigger] doc.elements@[k]@ == clean_text(
                    old(doc).elements@[k]@,
                ),
            forall|k: int| i <= k < n ==> #[trigger] doc.elements@[k] == old(doc).elements@[k],
        decreases n - i,
    {
        if is_style_tag(doc.elements[i].name.as_str()) {
            let text = to_chars(doc.elements[i].text.as_str());
            let clean = remove_marker(text.as_slice());
            doc.elements[i].text = to_text(clean.as_slice());
        }
        i += 1;
    }
}

/// What the inliner hands on.
#[derive(Clone, Debug)]
pub struct Preprocessed {
    /// The document with the stylesheet's rules inlined.
    pub document: Document,
    /// Whether the document has to be written out again. Where it is
    /// `false` nothing was cleaned and no rule was found: the input
    /// bytes go to the rasterizer.
    pub rewritten: bool,
}

/// Inlines the document's own stylesheet. `marked` says whether the raw
/// input held the forced-priority marker: only then are inline styles and
/// stylesheet text in the document cleaned of it.
pub fn preprocess(doc: Document, marked: bool) -> (out: Preprocessed)
    ensures
        out.document@ == preprocessed(doc@, marked),
        out.rewritten == (marked || parse(stylesheet(doc@)).len() > 0),
{
    let css = extract_css(&doc);
    let rules = parse_css_rules(css.as_str());
    assert(rules_view(rules@) =~= parse(stylesheet(doc@)));
    let mut document = doc;
    if marked {
        strip_important_from_inline_styles(&mut document);
        strip_important_from_style_text(&mut document);
        assert(document@ =~= cleaned(doc@, true));
    }
    apply_rules_to_document(&mut document, &rules);
    Preprocessed { document, rewritten: marked || rules.len() > 0 }
}

/// What becomes of the raw input before it goes to the rasterizer.
#[derive(Clone, Debug)]
pub enum Prepared {
    /// The input is a compressed container: it goes on as it is.
    Compressed,
    /// The input could not be parsed: it goes on as it is, and the
    /// rasterizer decides what to make of it.
    ParseDegraded,
    /// Nothing had to be cleaned and the document has no rules of its own:
    /// the input goes on as it is.
    Untouched,
    /// The document with its rules inlined: it is written out again.
    Rewritten(Document),
}

/// Prepares the raw input for the rasterizer. `parsed` is the document
/// parsed from `raw`, or `None` where the parser refused it.
pub fn prepare(raw: &[u8], parsed: Option<Document>) -> (out: Prepared)
    ensures
        compressed(raw@) ==> out is Compressed,
        !compressed(raw@) && parsed is None ==> out is ParseDegraded,
        !compressed(raw@) && parsed is Some && !holds_marker(raw@) && parse(
            stylesheet(parsed->0@),
        ).len() == 0 ==> out is Untouched,
        !compressed(raw@) && parsed is Some && (holds_marker(raw@) || parse(
            stylesheet(parsed->0@),
        ).len() > 0) ==> (out matches Prepared::Rewritten(d) && d@ == preprocessed(
            parsed->0@,
            holds_marker(raw@),
        )),
{
    if is_compressed(raw) {
        return Prepared::Compressed;
    }
    match parsed {
        None => Prepared::ParseDegraded,
        Some(doc) => {
            let marked = raw_holds_marker(raw);
            let done = preprocess(doc, marked);
            if done.rewritten {
                Prepared::Rewritten(done.document)
            } else {
                Prepared::Untouched
            }
        },
    }
}

/// Whether `s` holds no forced-priority marker.
pub open spec fn unmarked(s: Seq<char>) -> bool {
    !contains(s, marker())
}

/// Whether `s` is empty or ends with `;`.
pub open spec fn closed(s: Seq<char>) -> bool {
    s.len() == 0 || s.last() == ';'
}

/// Whether every entry of the map holds declarations without the marker
/// that are empty or end with `;`.
pub open spec fn clean_rules(m: Seq<(Seq<char>, Seq<char>)>) -> bool {
    forall|i: int| 0 <= i < m.len() ==> unmarked((#[trigger] m[i]).1) && closed(m[i].1)
}

/// Normalized declarations are empty or end with `;`.
pub proof fn lemma_normalize_closed(s: Seq<char>, from: int)
    ensures
        closed(normalize_from(s, from)),
    decreases s.len() - from,
{
    if 0 <= from <= s.len() {
        let end = find_char(s, ';', from);
        lemma_find_char(s, ';', from);
        if end < s.len() {
            lemma_normalize_closed(s, end + 1);
            let piece = trim(s.subrange(from, end));
            let head = if piece.len() > 0 {
                piece.push(';')
            } else {
                Seq::<char>::empty()
            };
            let tail = normalize_from(s, end + 1);
            if tail.len() == 0 {
                assert(head + tail =~= head);
            }
        }
    }
}

/// Text without the marker that ends with `;`, followed by text without the
/// marker, holds no marker.
pub proof fn lemma_joined_unmarked(a: Seq<char>, b: Seq<char>)
    requires
        unmarked(a),
        closed(a),
        unmarked(b),
    ensures
        unmarked(a + b),
{
    let m = marker();
    assert(m.len() == 10);
    let s = a + b;
    assert forall|at: int| !occurs_at(s, m, at) by {
        if occurs_at(s, m, at) {
            let w = s.subrange(at, at + 10);
            if at + 10 <= a.len() {
                assert(a.subrange(at, at + 10) =~= w);
                assert(occurs_at(a, m, at));
            } else if at >= a.len() {
                assert(b.subrange(at - a.len(), at - a.len() + 10) =~= w);
                assert(occurs_at(b, m, at - a.len()));
            } else {
                let k = a.len() - 1 - at;
                assert(w[k] == s[a.len() - 1]);
                assert(s[a.len() - 1] == a.last());
                assert(m[k] != ';');
            }
        }
    }
}

/// Closing an inline style with `;` brings no marker into it.
pub proof fn lemma_terminated_unmarked(style: Option<Seq<char>>)
    requires
        style matches Some(s) ==> unmarked(s),
    ensures
        unmarked(terminated(style)),
{
    let m = marker();
    assert(m.len() == 10);
    let t = terminated(style);
    assert forall|at: int| !occurs_at(t, m, at) by {
        if occurs_at(t, m, at) {
            match style {
                None => {},
                Some(s) => {
                    if s.len() > 0 && s.last() != ';' {
                        let w = t.subrange(at, at + 10);
                        if at + 10 <= s.len() {
                            assert(s.subrange(at, at + 10) =~= w);
                            assert(occurs_at(s, m, at));
                        } else {
                            assert(w[9] == t[t.len() - 1]);
                            assert(m[9] == 't');
                        }
                    }
                },
            }
        }
    }
}

/// Giving clean declarations to a selector keeps the map clean.
pub proof fn lemma_accumulate_clean(m: Seq<(Seq<char>, Seq<char>)>, sel: Seq<char>, props: Seq<char>)
    requires
        clean_rules(m),
        unmarked(props),
        closed(props),
    ensures
        clean_rules(accumulate(m, sel, props)),
{
    lemma_selector_index(m, sel);
    let i = selector_index(m, sel);
    let r = accumulate(m, sel, props);
    assert forall|k: int| 0 <= k < r.len() implies unmarked((#[trigger] r[k]).1) && closed(
        r[k].1,
    ) by {
        if i < m.len() {
            if k == i {
                assert(unmarked(m[i].1) && closed(m[i].1));
                lemma_joined_unmarked(m[i].1, props);
                if props.len() == 0 {
                    assert(m[i].1 + props =~= m[i].1);
                }
            } else {
                assert(r[k] == m[k]);
            }
        } else {
            if k < m.len() {
                assert(r[k] == m[k]);
            }
        }
    }
}

/// Giving clean declarations to a list of selectors keeps the map clean.
pub proof fn lemma_add_selectors_clean(
    m: Seq<(Seq<char>, Seq<char>)>,
    sels: Seq<char>,
    from: int,
    props: Seq<char>,
)
    requires
        clean_rules(m),
        unmarked(props),
        closed(props),
    ensures
        clean_rules(add_selectors_from(m, sels, from, props)),
    decreases sels.len() - from,
{
    if 0 <= from <= sels.len() {
        let end = find_char(sels, ',', from);
        lemma_find_char(sels, ',', from);
        let sel = trim(sels.subrange(from, end));
        if sel.len() > 0 {
            lemma_accumulate_clean(m, sel, props);
        }
        let m2 = if sel.len() > 0 {
            accumulate(m, sel, props)
        } else {
            m
        };
        if end < sels.len() {
            lemma_add_selectors_clean(m2, sels, end + 1, props);
        }
    }
}

/// A piece of text without the marker holds no marker.
pub proof fn lemma_subrange_unmarked(s: Seq<char>, from: int, to: int)
    requires
        0 <= from <= to <= s.len(),
        unmarked(s),
    ensures
        unmarked(s.subrange(from, to)),
{
    let m = marker();
    let t = s.subrange(from, to);
    assert forall|at: int| !occurs_at(t, m, at) by {
        if occurs_at(t, m, at) {
            assert(t.subrange(at, at + m.len()) =~= s.subrange(from + at, from + at + m.len()));
            assert(occurs_at(s, m, from + at));
        }
    }
}

/// Normalizing declarations that hold no marker brings none in: each
/// declaration is a piece of the text, and `;` stands between them.
pub proof fn lemma_normalize_unmarked(s: Seq<char>, from: int)
    requires
        unmarked(s),
    ensures
        unmarked(normalize_from(s, from)),
    decreases s.len() - from,
{
    let m = marker();
    assert(m.len() == 10);
    if 0 <= from <= s.len() {
        let end = find_char(s, ';', from);
        lemma_find_char(s, ';', from);
        let part = s.subrange(from, end);
        lemma_subrange_unmarked(s, from, end);
        lemma_trim_is_subrange(part);
        let piece = trim(part);
        let head = if piece.len() > 0 {
            piece.push(';')
        } else {
            Seq::<char>::empty()
        };
        assert(unmarked(piece)) by {
            let a = part.len() - trim_front(part).len();
            lemma_subrange_unmarked(part, a, a + piece.len());
        }
        assert forall|at: int| !occurs_at(head, m, at) by {
            if occurs_at(head, m, at) {
                let w = head.subrange(at, at + 10);
                if at + 10 <= piece.len() {
                    assert(piece.subrange(at, at + 10) =~= w);
                    assert(occurs_at(piece, m, at));
                } else {
                    assert(w[9] == head[head.len() - 1]);
                    assert(m[9] == 't');
                }
            }
        }
        if end < s.len() {
            lemma_normalize_unmarked(s, end + 1);
            lemma_joined_unmarked(head, normalize_from(s, end + 1));
        }
    } else {
        assert forall|at: int| !occurs_at(normalize_from(s, from), m, at) by {}
    }
}

/// A scan keeps the map clean: declarations enter it without the marker.
pub proof fn lemma_scan_block_clean(
    css: Seq<char>,
    cursor: int,
    depth: int,
    pending: Seq<(Seq<char>, int)>,
    m: Seq<(Seq<char>, Seq<char>)>,
)
    requires
        clean_rules(m),
    ensures
        clean_rules(scan_block(css, cursor, depth, pending, m).1),
    decreases css.len() - cursor,
{
    if 0 <= cursor < css.len() {
        let open = find_char(css, '{', cursor);
        lemma_find_char(css, '{', cursor);
        if open < css.len() {
            match matching_brace(css, open) {
                None => {},
                Some(close) => {
                    lemma_closing_brace_bounds(css, open + 1, 1, None, false);
                    let selectors = css.subrange(cursor, open);
                    let body = css.subrange(open + 1, close);
                    if is_at_rule(selectors) {
                        if depth < MAX_NESTING_DEPTH {
                            lemma_scan_block_clean(
                                css,
                                close + 1,
                                depth,
                                pending.push((body, depth + 1)),
                                m,
                            );
                        } else {
                            lemma_scan_block_clean(css, close + 1, depth, pending, m);
                        }
                    } else {
                        let props = normalize(strip_marker(body));
                        lemma_strip_marker_removes_all(body);
                        lemma_normalize_unmarked(strip_marker(body), 0);
                        lemma_normalize_closed(strip_marker(body), 0);
                        lemma_add_selectors_clean(m, selectors, 0, props);
                        lemma_scan_block_clean(
                            css,
                            close + 1,
                            depth,
                            pending,
                            add_selectors_from(m, selectors, 0, props),
                        );
                    }
                },
            }
        }
    }
}

/// Scanning the waiting bodies keeps the map clean.
pub proof fn lemma_drain_clean(pending: Seq<(Seq<char>, int)>, m: Seq<(Seq<char>, Seq<char>)>)
    requires
        clean_rules(m),
    ensures
        clean_rules(drain(pending, m)),
    decreases pending_weight(pending),
{
    if pending.len() > 0 {
        let top = pending.last();
        lemma_scan_weight(top.0, 0, top.1, pending.drop_last(), m);
        lemma_scan_block_clean(top.0, 0, top.1, pending.drop_last(), m);
        let next = scan_block(top.0, 0, top.1, pending.drop_last(), m);
        lemma_drain_clean(next.0, next.1);
    }
}

/// No declarations in a parsed style map hold the forced-priority marker.
pub proof fn lemma_parse_clean(css: Seq<char>)
    ensures
        clean_rules(parse(css)),
{
    lemma_drain_clean(seq![(strip_comments(trim(css)), 0int)], Seq::empty());
}

/// Clean rules bring no marker into an inline style that holds none, and
/// leave name, class and text of the element as they are.
pub proof fn lemma_apply_rules_unmarked(e: ElementModel, rules: Seq<(Seq<char>, Seq<char>)>)
    requires
        clean_rules(rules),
        e.style matches Some(s) ==> unmarked(s),
    ensures
        apply_rules(e, rules).style matches Some(s) ==> unmarked(s),
        apply_rules(e, rules).text == e.text,
        apply_rules(e, rules).name == e.name,
        apply_rules(e, rules).class == e.class,
    decreases rules.len(),
{
    if rules.len() > 0 {
        let head = rules.drop_last();
        assert forall|i: int| 0 <= i < head.len() implies unmarked((#[trigger] head[i]).1)
            && closed(head[i].1) by {
            assert(head[i] == rules[i]);
        }
        lemma_apply_rules_unmarked(e, head);
        let mid = apply_rules(e, head);
        let rule = rules.last();
        assert(unmarked(rule.1) && closed(rule.1));
        lemma_terminated_unmarked(mid.style);
        lemma_joined_unmarked(rule.1, terminated(mid.style));
    }
}

/// Where the raw input held the forced-priority marker, the document that
/// the inliner hands on holds it neither in an inline style nor in the text
/// of a style element.
pub proof fn lemma_preprocessed_holds_no_marker(doc: Seq<ElementModel>, i: int)
    requires
        0 <= i < doc.len(),
    ensures
        preprocessed(doc, true)[i].style matches Some(s) ==> unmarked(s),
        preprocessed(doc, true)[i].name == style_tag() ==> unmarked(preprocessed(doc, true)[i].text),
{
    let rules = parse(stylesheet(doc));
    lemma_parse_clean(stylesheet(doc));
    let e = clean_element(doc[i]);
    match doc[i].style {
        Some(s) => {
            lemma_strip_marker_removes_all(s);
        },
        None => {},
    }
    lemma_strip_marker_removes_all(doc[i].text);
    lemma_apply_rules_unmarked(e, rules);
}

} // verus!
