//! The stylesheet parser: from stylesheet text to the style map.

use crate::css::{
    find_matching_brace, lemma_closing_brace_bounds, matching_brace, normalize,
    normalize_css_properties, remove_css_comments, remove_marker, strip_comments, strip_marker,
};
use crate::style_map::{accumulate, lemma_accumulate, unique_selectors, CssRule, StyleMap};
use crate::text::{copy_range, find_char, lemma_find_char, to_chars, trim, trim_range};
use vstd::prelude::*;

verus! {

/// The deepest nesting of at-rules that is followed. The stylesheet itself
/// lies at depth 0, the body of an at-rule one deeper than the block that
/// holds the at-rule. A body deeper than this is passed over.
pub const MAX_NESTING_DEPTH: usize = 256;

/// The map `m` after each selector of the comma-separated list `sels`, read
/// from index `from` on, has been given `props`. Selectors are trimmed;
/// empty ones are passed over.
pub open spec fn add_selectors_from(
    m: Seq<(Seq<char>, Seq<char>)>,
    sels: Seq<char>,
    from: int,
    props: Seq<char>,
) -> Seq<(Seq<char>, Seq<char>)>
    decreases sels.len() - from,
{
    if from < 0 || from > sels.len() {
        m
    } else {
        let end = find_char(sels, ',', from);
        let sel = trim(sels.subrange(from, end));
        let m2 = if sel.len() > 0 {
            accumulate(m, sel, props)
        } else {
            m
        };
        if end >= sels.len() {
            m2
        } else {
            proof {
                lemma_find_char(sels, ',', from);
            }
            add_selectors_from(m2, sels, end + 1, props)
        }
    }
}

/// Whether the text before a `{` names an at-rule.
pub open spec fn is_at_rule(selectors: Seq<char>) -> bool {
    trim(selectors).len() > 0 && trim(selectors)[0] == '@'
}

/// The waiting bodies and the map after the block `css`, which lies at the
/// nesting depth `depth`, has been scanned from index `cursor` on. Each rule
/// block found gives its declarations, cleaned of the forced-priority marker
/// and then normalized, to its selectors. The body of each at-rule is put on
/// top of the waiting bodies with its own depth, unless it lies deeper than
/// the deepest nesting that is followed. The scan ends where no `{` follows
/// or where a `{` is never closed.
pub open spec fn scan_block(
    css: Seq<char>,
    cursor: int,
    depth: int,
    pending: Seq<(Seq<char>, int)>,
    m: Seq<(Seq<char>, Seq<char>)>,
) -> (Seq<(Seq<char>, int)>, Seq<(Seq<char>, Seq<char>)>)
    decreases css.len() - cursor,
{
    if cursor < 0 || cursor >= css.len() {
        (pending, m)
    } else {
        let open = find_char(css, '{', cursor);
        if open >= css.len() {
            (pending, m)
        } else {
            match matching_brace(css, open) {
                None => (pending, m),
                Some(close) => {
                    proof {
                        lemma_find_char(css, '{', cursor);
                        lemma_closing_brace_bounds(css, open + 1, 1, None, false);
                    }
                    let selectors = css.subrange(cursor, open);
                    let body = css.subrange(open + 1, close);
                    if is_at_rule(selectors) {
                        if depth < MAX_NESTING_DEPTH {
                            scan_block(css, close + 1, depth, pending.push((body, depth + 1)), m)
                        } else {
                            scan_block(css, close + 1, depth, pending, m)
                        }
                    } else {
                        scan_block(
                            css,
                            close + 1,
                            depth,
                            pending,
                            add_selectors_from(m, selectors, 0, normalize(strip_marker(body))),
                        )
                    }
                },
            }
        }
    }
}

/// The characters that wait in `pending`, and one more for each body.
pub open spec fn pending_weight(pending: Seq<(Seq<char>, int)>) -> nat
    decreases pending.len(),
{
    if pending.len() == 0 {
        0
    } else {
        pending_weight(pending.drop_last()) + pending.last().0.len() + 1
    }
}

/// A scan adds to the waiting bodies no more characters than it passes
/// over: each body is shorter than the block it is taken from.
pub proof fn lemma_scan_weight(
    css: Seq<char>,
    cursor: int,
    depth: int,
    pending: Seq<(Seq<char>, int)>,
    m: Seq<(Seq<char>, Seq<char>)>,
)
    requires
        0 <= cursor <= css.len(),
    ensures
        pending_weight(scan_block(css, cursor, depth, pending, m).0) <= pending_weight(pending)
            + css.len() - cursor,
    decreases css.len() - cursor,
{
    if cursor < css.len() {
        let open = find_char(css, '{', cursor);
        lemma_find_char(css, '{', cursor);
        if open < css.len() {
            match matching_brace(css, open) {
                None => {},
                Some(close) => {
                    lemma_closing_brace_bounds(css, open + 1, 1, None, false);
                    let selectors = css.subrange(cursor, open);
                    let body = css.subrange(open + 1, close);
                    if is_at_rule(selectors) {
                        if depth < MAX_NESTING_DEPTH {
                            let p2 = pending.push((body, depth + 1));
                            assert(p2.drop_last() == pending);
                            assert(p2.last() == (body, depth + 1));
                            lemma_scan_weight(css, close + 1, depth, p2, m);
                        } else {
                            lemma_scan_weight(css, close + 1, depth, pending, m);
                        }
                    } else {
                        lemma_scan_weight(
                            css,
                            close + 1,
                            depth,
                            pending,
                            add_selectors_from(m, selectors, 0, normalize(strip_marker(body))),
                        );
                    }
                },
            }
        }
    }
}

/// The map once every waiting body has been scanned, the one on top first.
pub open spec fn drain(pending: Seq<(Seq<char>, int)>, m: Seq<(Seq<char>, Seq<char>)>) -> Seq<
    (Seq<char>, Seq<char>),
>
    decreases pending_weight(pending),
{
    if pending.len() == 0 {
        m
    } else {
        proof {
            lemma_scan_weight(pending.last().0, 0, pending.last().1, pending.drop_last(), m);
        }
        let next = scan_block(pending.last().0, 0, pending.last().1, pending.drop_last(), m);
        drain(next.0, next.1)
    }
}

/// The style map of the stylesheet text `css`: the text is trimmed, its
/// comments are taken out, and its blocks are scanned, the bodies of
/// at-rules after the block that holds them.
pub open spec fn parse(css: Seq<char>) -> Seq<(Seq<char>, Seq<char>)> {
    drain(seq![(strip_comments(trim(css)), 0int)], Seq::empty())
}

/// Giving declarations to a list of selectors keeps the selectors distinct.
pub proof fn lemma_add_selectors_unique(
    m: Seq<(Seq<char>, Seq<char>)>,
    sels: Seq<char>,
    from: int,
    props: Seq<char>,
)
    requires
        unique_selectors(m),
    ensures
        unique_selectors(add_selectors_from(m, sels, from, props)),
    decreases sels.len() - from,
{
    if 0 <= from <= sels.len() {
        let end = find_char(sels, ',', from);
        lemma_find_char(sels, ',', from);
        let sel = trim(sels.subrange(from, end));
        if sel.len() > 0 {
            lemma_accumulate(m, sel, props);
        }
        let m2 = if sel.len() > 0 {
            accumulate(m, sel, props)
        } else {
            m
        };
        if end < sels.len() {
            lemma_add_selectors_unique(m2, sels, end + 1, props);
        }
    }
}

/// A scan keeps the selectors distinct.
pub proof fn lemma_scan_block_unique(
    css: Seq<char>,
    cursor: int,
    depth: int,
    pending: Seq<(Seq<char>, int)>,
    m: Seq<(Seq<char>, Seq<char>)>,
)
    requires
        unique_selectors(m),
    ensures
        unique_selectors(scan_block(css, cursor, depth, pending, m).1),
    decreases css.len() - cursor,
{
    if 0 <= cursor < css.len() {
        let open = find_char(css, '{', cursor);
        lemma_find_char(css, '{', cursor);
        if open < css.len() {
            match matching_brace(css, open) {
                None => {},
                Some(close) => {
                    lemma_closing_brace_bounds(css, open + 1, 1, None, false);
                    let selectors = css.subrange(cursor, open);
                    let body = css.subrange(open + 1, close);
                    if is_at_rule(selectors) {
                        if depth < MAX_NESTING_DEPTH {
                            lemma_scan_block_unique(
                                css,
                                close + 1,
                                depth,
                                pending.push((body, depth + 1)),
                                m,
                            );
                        } else {
                            lemma_scan_block_unique(css, close + 1, depth, pending, m);
                        }
                    } else {
                        let props = normalize(strip_marker(body));
                        lemma_add_selectors_unique(m, selectors, 0, props);
                        lemma_scan_block_unique(
                            css,
                            close + 1,
                            depth,
                            pending,
                            add_selectors_from(m, selectors, 0, props),
                        );
                    }
                },
            }
        }
    }
}

/// Scanning the waiting bodies keeps the selectors distinct.
pub proof fn lemma_drain_unique(pending: Seq<(Seq<char>, int)>, m: Seq<(Seq<char>, Seq<char>)>)
    requires
        unique_selectors(m),
    ensures
        unique_selectors(drain(pending, m)),
    decreases pending_weight(pending),
{
    if pending.len() > 0 {
        let top = pending.last();
        lemma_scan_weight(top.0, 0, top.1, pending.drop_last(), m);
        lemma_scan_block_unique(top.0, 0, top.1, pending.drop_last(), m);
        let next = scan_block(top.0, 0, top.1, pending.drop_last(), m);
        lemma_drain_unique(next.0, next.1);
    }
}

/// Every selector has one entry in a parsed style map, whatever the
/// stylesheet text.
pub proof fn lemma_parse_unique(css: Seq<char>)
    ensures
        unique_selectors(parse(css)),
{
    lemma_drain_unique(seq![(strip_comments(trim(css)), 0int)], Seq::empty());
}

/// A body that waits to be scanned, with its nesting depth.
pub struct PendingBlock {
    pub body: Vec<char>,
    pub depth: usize,
}

/// The bodies and depths that `pending` holds.
pub open spec fn pending_view(pending: Seq<PendingBlock>) -> Seq<(Seq<char>, int)> {
    Seq::new(pending.len(), |i: int| (pending[i].body@, pending[i].depth as int))
}

/// Gives `props` to each selector of the comma-separated list `sels`.
pub fn add_selectors(map: &mut StyleMap, sels: &[char], props: &[char])
    requires
        old(map).wf(),
    ensures
        final(map).wf(),
        final(map)@ == add_selectors_from(old(map)@, sels@, 0, props@),
{
    let n = sels.len();
    let mut from: usize = 0;
    let mut done = false;
    while !done
        invariant
            from <= n == sels.len(),
            map.wf(),
            !done ==> add_selectors_from(old(map)@, sels@, 0, props@) == add_selectors_from(
                map@,
                sels@,
                from as int,
                props@,
            ),
            done ==> add_selectors_from(old(map)@, sels@, 0, props@) == map@,
        decreases (if done {
            0int
        } else {
            1int
        }), n - from,
    {
        let mut end: usize = from;
        while end < n && sels[end] != ','
            invariant
                from <= end <= n == sels.len(),
                find_char(sels@, ',', from as int) == find_char(sels@, ',', end as int),
            decreases n - end,
        {
            end += 1;
        }
        let (a, b) = trim_range(sels, from, end);
        if a < b {
            let sel = copy_range(sels, a, b);
            map.append(sel.as_slice(), props);
        }
        if end >= n {
            done = true;
        } else {
            from = end + 1;
        }
    }
}

/// Scans the block `css`, which lies at the nesting depth `depth`: rules go
/// into `map`, the bodies of at-rules onto `pending`.
pub fn scan_rules(css: &[char], depth: usize, pending: &mut Vec<PendingBlock>, map: &mut StyleMap)
    requires
        old(map).wf(),
    ensures
        final(map).wf(),
        (pending_view(final(pending)@), final(map)@) == scan_block(
            css@,
            0,
            depth as int,
            pending_view(old(pending)@),
            old(map)@,
        ),
{
    let n = css.len();
    let mut cursor: usize = 0;
    let mut scanning = true;
    let ghost goal = scan_block(css@, 0, depth as int, pending_view(pending@), map@);
    while scanning && cursor < n
        invariant
            cursor <= n == css.len(),
            map.wf(),
            scanning ==> goal == scan_block(
                css@,
                cursor as int,
                depth as int,
                pending_view(pending@),
                map@,
            ),
            !scanning ==> goal == (pending_view(pending@), map@),
        decreases (if scanning {
            1int
        } else {
            0int
        }), n - cursor,
    {
        let mut open: usize = cursor;
        while open < n && css[open] != '{'
            invariant
                cursor <= open <= n == css.len(),
                find_char(css@, '{', cursor as int) == find_char(css@, '{', open as int),
            decreases n - open,
        {
            open += 1;
        }
        if open >= n {
            scanning = false;
        } else {
            match find_matching_brace(css, open) {
                None => {
                    scanning = false;
                },
                Some(close) => {
                    let (a, b) = trim_range(css, cursor, open);
                    let at_rule = a < b && css[a] == '@';
                    proof {
                        let t = trim(css@.subrange(cursor as int, open as int));
                        assert(t == css@.subrange(a as int, b as int));
                        if a < b {
                            assert(t[0] == css@[a as int]);
                        }
                    }
                    let body = copy_range(css, open + 1, close);
                    if at_rule {
                        if depth < MAX_NESTING_DEPTH {
                            let ghost before = pending_view(pending@);
                            let ghost chars = body@;
                            pending.push(PendingBlock { body, depth: depth + 1 });
                            assert(pending_view(pending@) =~= before.push((chars, depth + 1)));
                        }
                    } else {
                        let sels = copy_range(css, cursor, open);
                        let unmarked = remove_marker(body.as_slice());
                        let props = normalize_css_properties(unmarked.as_slice());
                        add_selectors(map, sels.as_slice(), props.as_slice());
                    }
                    cursor = close + 1;
                },
            }
        }
    }
}

/// Parses stylesheet text into the style map.
pub fn parse_style_map(css: &[char]) -> (map: StyleMap)
    ensures
        map.wf(),
        map@ == parse(css@),
{
    let (a, b) = trim_range(css, 0, css.len());
    let trimmed = copy_range(css, a, b);
    assert(css@.subrange(0, css.len() as int) == css@);
    let cleaned = remove_css_comments(trimmed.as_slice());
    let mut map = StyleMap::new();
    let mut pending: Vec<PendingBlock> = Vec::new();
    pending.push(PendingBlock { body: cleaned, depth: 0 });
    assert(pending_view(pending@) =~= seq![(strip_comments(trim(css@)), 0int)]);
    while pending.len() > 0
        invariant
            map.wf(),
            parse(css@) == drain(pending_view(pending@), map@),
        decreases pending_weight(pending_view(pending@)),
    {
        let ghost before = pending_view(pending@);
        let ghost m0 = map@;
        let block = pending.pop().unwrap();
        proof {
            assert(pending_view(pending@) =~= before.drop_last());
            assert((block.body@, block.depth as int) == before.last());
            lemma_scan_weight(block.body@, 0, block.depth as int, before.drop_last(), m0);
        }
        scan_rules(block.body.as_slice(), block.depth, &mut pending, &mut map);
    }
    map
}

/// Parses stylesheet text and returns, for each selector, the declarations
/// that the stylesheet gives it, in the order in which the selectors were
/// first seen.
pub fn parse_css_rules(css_content: &str) -> (rules: Vec<CssRule>)
    ensures
        rules@.len() == parse(css_content@).len(),
        forall|i: int|
            0 <= i < rules@.len() ==> (#[trigger] rules@[i]).selector@ == parse(css_content@)[i].0
                && rules@[i].properties@ == parse(css_content@)[i].1,
{
    let chars = to_chars(css_content);
    let map = parse_style_map(chars.as_slice());
    map.into_rules()
}

} // verus!
