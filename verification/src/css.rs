//! Scanning of stylesheet text: comments, brace matching, declarations and
//! the forced-priority marker.

use crate::text::{
    append_chars, contains, copy_range, ends_with, find_char, lemma_find_char, matches_at,
    occurs_at, trim, trim_range,
};
use vstd::prelude::*;

verus! {

/// The forced-priority marker, `!important`.
pub open spec fn marker() -> Seq<char> {
    seq!['!', 'i', 'm', 'p', 'o', 'r', 't', 'a', 'n', 't']
}

/// Whether `c` opens or closes a quoted string.
pub open spec fn is_quote(c: char) -> bool {
    c == '\'' || c == '"'
}

/// The index just behind the first `*/` that starts at or after `i`, or the
/// length of `s` where the comment is never closed.
pub open spec fn comment_end(s: Seq<char>, i: int) -> int
    decreases s.len() - i,
{
    if i >= s.len() {
        s.len() as int
    } else if s[i] == '*' && i + 1 < s.len() && s[i + 1] == '/' {
        i + 2
    } else {
        comment_end(s, i + 1)
    }
}

/// `comment_end` lies between the index it starts from and the end of the
/// text.
pub proof fn lemma_comment_end(s: Seq<char>, i: int)
    requires
        0 <= i,
    ensures
        i <= comment_end(s, i) || s.len() <= comment_end(s, i),
        comment_end(s, i) <= s.len() || comment_end(s, i) <= i,
    decreases s.len() - i,
{
    if i < s.len() && !(s[i] == '*' && i + 1 < s.len() && s[i + 1] == '/') {
        lemma_comment_end(s, i + 1);
    }
}

/// What is left of `s` from index `i` on once block comments are taken out.
/// `quote` is the quote character of the string that index `i` lies in, if
/// it lies in one: inside a quoted string `/*` opens no comment.
pub open spec fn strip_comments_from(s: Seq<char>, i: int, quote: Option<char>) -> Seq<char>
    decreases s.len() - i,
{
    if i < 0 || i >= s.len() {
        Seq::empty()
    } else {
        match quote {
            Some(q) => seq![s[i]] + strip_comments_from(
                s,
                i + 1,
                if s[i] == q {
                    None
                } else {
                    quote
                },
            ),
            None => if s[i] == '/' && i + 1 < s.len() && s[i + 1] == '*' {
                proof {
                    lemma_comment_end(s, i + 2);
                }
                strip_comments_from(s, comment_end(s, i + 2), None)
            } else if is_quote(s[i]) {
                seq![s[i]] + strip_comments_from(s, i + 1, Some(s[i]))
            } else {
                seq![s[i]] + strip_comments_from(s, i + 1, None)
            },
        }
    }
}

/// `s` without its block comments. A comment that is never closed runs to
/// the end of the text.
pub open spec fn strip_comments(s: Seq<char>) -> Seq<char> {
    strip_comments_from(s, 0, None)
}

/// Removes the block comments from stylesheet text.
pub fn remove_css_comments(css: &[char]) -> (out: Vec<char>)
    ensures
        out@ == strip_comments(css@),
{
    let mut out: Vec<char> = Vec::new();
    let mut i: usize = 0;
    let mut quote: Option<char> = None;
    let n = css.len();
    while i < n
        invariant
            i <= n == css.len(),
            strip_comments(css@) == out@ + strip_comments_from(css@, i as int, quote),
        decreases n - i,
    {
        let c = css[i];
        match quote {
            Some(q) => {
                out.push(c);
                if c == q {
                    quote = None;
                }
                i += 1;
            },
            None => {
                if c == '/' && i + 1 < n && css[i + 1] == '*' {
                    let mut j: usize = i + 2;
                    let mut closed = false;
                    while !closed && j < n
                        invariant
                            i + 2 <= j <= n == css.len(),
                            closed ==> j == comment_end(css@, i as int + 2),
                            !closed ==> comment_end(css@, i as int + 2) == comment_end(
                                css@,
                                j as int,
                            ),
                        decreases (if closed {
                            0int
                        } else {
                            1int
                        }), n - j,
                    {
                        if css[j] == '*' && j + 1 < n && css[j + 1] == '/' {
                            j += 2;
                            closed = true;
                        } else {
                            j += 1;
                        }
                    }
                    i = j;
                } else {
                    out.push(c);
                    if c == '\'' || c == '"' {
                        quote = Some(c);
                    }
                    i += 1;
                }
            },
        }
    }
    out
}

/// The index of the `}` that closes the block around index `i`, scanning
/// from `i` with `level` blocks open. A backslash takes the next character
/// out of consideration; braces inside a quoted string do not count.
pub open spec fn closing_brace_from(
    s: Seq<char>,
    i: int,
    level: int,
    quote: Option<char>,
    escaped: bool,
) -> Option<int>
    decreases s.len() - i,
{
    if i < 0 || i >= s.len() {
        None
    } else if escaped {
        closing_brace_from(s, i + 1, level, quote, false)
    } else if s[i] == '\\' {
        closing_brace_from(s, i + 1, level, quote, true)
    } else {
        match quote {
            Some(q) => closing_brace_from(
                s,
                i + 1,
                level,
                if s[i] == q {
                    None
                } else {
                    quote
                },
                false,
            ),
            None => if is_quote(s[i]) {
                closing_brace_from(s, i + 1, level, Some(s[i]), false)
            } else if s[i] == '{' {
                closing_brace_from(s, i + 1, level + 1, None, false)
            } else if s[i] == '}' {
                if level <= 1 {
                    Some(i)
                } else {
                    closing_brace_from(s, i + 1, level - 1, None, false)
                }
            } else {
                closing_brace_from(s, i + 1, level, None, false)
            },
        }
    }
}

/// The index of the `}` that matches the `{` at index `open`.
pub open spec fn matching_brace(s: Seq<char>, open: int) -> Option<int> {
    closing_brace_from(s, open + 1, 1, None, false)
}

/// The closing brace that is found lies at or after the index the scan
/// starts from, and is a `}`.
pub proof fn lemma_closing_brace_bounds(
    s: Seq<char>,
    i: int,
    level: int,
    quote: Option<char>,
    escaped: bool,
)
    ensures
        closing_brace_from(s, i, level, quote, escaped) matches Some(k) ==> 0 <= i <= k < s.len()
            && s[k] == '}',
    decreases s.len() - i,
{
    if 0 <= i < s.len() {
        if escaped {
            lemma_closing_brace_bounds(s, i + 1, level, quote, false);
        } else if s[i] == '\\' {
            lemma_closing_brace_bounds(s, i + 1, level, quote, true);
        } else {
            match quote {
                Some(q) => {
                    lemma_closing_brace_bounds(
                        s,
                        i + 1,
                        level,
                        if s[i] == q {
                            None
                        } else {
                            quote
                        },
                        false,
                    );
                },
                None => {
                    if is_quote(s[i]) {
                        lemma_closing_brace_bounds(s, i + 1, level, Some(s[i]), false);
                    } else if s[i] == '{' {
                        lemma_closing_brace_bounds(s, i + 1, level + 1, None, false);
                    } else if s[i] == '}' {
                        if level > 1 {
                            lemma_closing_brace_bounds(s, i + 1, level - 1, None, false);
                        }
                    } else {
                        lemma_closing_brace_bounds(s, i + 1, level, None, false);
                    }
                },
            }
        }
    }
}

/// Finds the `}` that closes the block opened at index `open`.
pub fn find_matching_brace(s: &[char], open: usize) -> (r: Option<usize>)
    ensures
        match r {
            Some(k) => matching_brace(s@, open as int) == Some(k as int) && open < k < s.len(),
            None => matching_brace(s@, open as int) is None,
        },
{
    let n = s.len();
    if open >= n {
        return None;
    }
    let mut i: usize = open + 1;
    let mut level: usize = 1;
    let mut quote: Option<char> = None;
    let mut escaped = false;
    while i < n
        invariant
            open < i <= n == s.len(),
            1 <= level <= i - open,
            matching_brace(s@, open as int) == closing_brace_from(
                s@,
                i as int,
                level as int,
                quote,
                escaped,
            ),
        decreases n - i,
    {
        let c = s[i];
        if escaped {
            escaped = false;
        } else if c == '\\' {
            escaped = true;
        } else {
            match quote {
                Some(q) => {
                    if c == q {
                        quote = None;
                    }
                },
                None => {
                    if c == '\'' || c == '"' {
                        quote = Some(c);
                    } else if c == '{' {
                        level += 1;
                    } else if c == '}' {
                        if level == 1 {
                            return Some(i);
                        }
                        level -= 1;
                    }
                },
            }
        }
        i += 1;
    }
    None
}

/// The declarations of `s` from index `from` on: the text is cut at each
/// `;`, each piece is trimmed, empty pieces are dropped, and every piece
/// that is left is followed by one `;`.
pub open spec fn normalize_from(s: Seq<char>, from: int) -> Seq<char>
    decreases s.len() - from,
{
    if from < 0 || from > s.len() {
        Seq::empty()
    } else {
        let end = find_char(s, ';', from);
        let piece = trim(s.subrange(from, end));
        let head = if piece.len() > 0 {
            piece.push(';')
        } else {
            Seq::empty()
        };
        if end >= s.len() {
            head
        } else {
            proof {
                lemma_find_char(s, ';', from);
            }
            head + normalize_from(s, end + 1)
        }
    }
}

/// The declarations of a rule body in the form an inline style takes.
pub open spec fn normalize(s: Seq<char>) -> Seq<char> {
    normalize_from(s, 0)
}

/// Puts the declarations of a rule body into the form an inline style takes.
pub fn normalize_css_properties(properties: &[char]) -> (out: Vec<char>)
    ensures
        out@ == normalize(properties@),
{
    let n = properties.len();
    let mut out: Vec<char> = Vec::new();
    let mut from: usize = 0;
    let mut done = false;
    while !done
        invariant
            from <= n == properties.len(),
            !done ==> normalize(properties@) == out@ + normalize_from(properties@, from as int),
            done ==> normalize(properties@) == out@,
        decreases (if done {
            0int
        } else {
            1int
        }), n - from,
    {
        let mut end: usize = from;
        while end < n && properties[end] != ';'
            invariant
                from <= end <= n == properties.len(),
                find_char(properties@, ';', from as int) == find_char(
                    properties@,
                    ';',
                    end as int,
                ),
            decreases n - end,
        {
            end += 1;
        }
        let (a, b) = trim_range(properties, from, end);
        let ghost before = out@;
        if a < b {
            let piece = copy_range(properties, a, b);
            append_chars(&mut out, piece.as_slice());
            out.push(';');
        }
        proof {
            let piece = trim(properties@.subrange(from as int, end as int));
            let head = if piece.len() > 0 {
                piece.push(';')
            } else {
                Seq::empty()
            };
            assert(out@ == before + head);
            if end < n {
                assert(before + (head + normalize_from(properties@, end as int + 1)) == (before
                    + head) + normalize_from(properties@, end as int + 1));
            }
        }
        if end >= n {
            done = true;
        } else {
            from = end + 1;
        }
    }
    out
}

/// `s` with every occurrence of the marker taken out, also those that come
/// about when the text before and behind a removed occurrence meets.
pub open spec fn strip_marker(s: Seq<char>) -> Seq<char>
    decreases s.len(),
{
    if s.len() == 0 {
        s
    } else {
        let o = strip_marker(s.drop_last()).push(s.last());
        if ends_with(o, marker()) {
            o.subrange(0, o.len() - marker().len())
        } else {
            o
        }
    }
}

/// Stripping the marker never makes text longer.
pub proof fn lemma_strip_marker_len(s: Seq<char>)
    ensures
        strip_marker(s).len() <= s.len(),
    decreases s.len(),
{
    if s.len() > 0 {
        lemma_strip_marker_len(s.drop_last());
    }
}

/// The marker as executable characters.
pub fn marker_chars() -> (m: Vec<char>)
    ensures
        m@ == marker(),
{
    let mut m: Vec<char> = Vec::new();
    m.push('!');
    m.push('i');
    m.push('m');
    m.push('p');
    m.push('o');
    m.push('r');
    m.push('t');
    m.push('a');
    m.push('n');
    m.push('t');
    assert(m@ =~= marker());
    m
}

/// Takes every occurrence of the marker out of `s`.
pub fn remove_marker(s: &[char]) -> (out: Vec<char>)
    ensures
        out@ == strip_marker(s@),
{
    let m = marker_chars();
    let mut out: Vec<char> = Vec::new();
    let mut i: usize = 0;
    assert(s@.take(0) =~= Seq::<char>::empty());
    while i < s.len()
        invariant
            i <= s.len(),
            m@ == marker(),
            out@ == strip_marker(s@.take(i as int)),
        decreases s.len() - i,
    {
        proof {
            let t = s@.take(i as int + 1);
            assert(t.drop_last() == s@.take(i as int));
            assert(t.last() == s@[i as int]);
            lemma_strip_marker_len(s@.take(i as int));
        }
        out.push(s[i]);
        if out.len() >= m.len() {
            let at = out.len() - m.len();
            if matches_at(out.as_slice(), m.as_slice(), at) {
                out.truncate(at);
            }
        }
        i += 1;
    }
    assert(s@.take(s.len() as int) == s@);
    out
}

/// Tells whether the marker stands somewhere in `s`.
pub fn contains_marker(s: &[char]) -> (b: bool)
    ensures
        b == contains(s@, marker()),
{
    let m = marker_chars();
    let mut i: usize = 0;
    while i < s.len()
        invariant
            i <= s.len(),
            m@ == marker(),
            forall|k: int| 0 <= k < i ==> !occurs_at(s@, marker(), k),
        decreases s.len() - i,
    {
        if matches_at(s, m.as_slice(), i) {
            return true;
        }
        i += 1;
    }
    proof {
        assert forall|k: int| !occurs_at(s@, marker(), k) by {
            if 0 <= k < s.len() {
            } else {
                assert(marker().len() == 10);
            }
        }
    }
    false
}

/// No occurrence of the marker is left in text that `strip_marker` has
/// cleaned.
pub proof fn lemma_strip_marker_removes_all(s: Seq<char>)
    ensures
        !contains(strip_marker(s), marker()),
    decreases s.len(),
{
    let m = marker();
    assert(m.len() == 10);
    if s.len() == 0 {
        assert forall|at: int| !occurs_at(strip_marker(s), m, at) by {}
    } else {
        lemma_strip_marker_removes_all(s.drop_last());
        let r = strip_marker(s.drop_last());
        let o = r.push(s.last());
        assert forall|at: int| !occurs_at(strip_marker(s), m, at) by {
            if occurs_at(strip_marker(s), m, at) {
                if ends_with(o, m) {
                    let t = o.subrange(0, o.len() - 10);
                    assert(t.subrange(at, at + 10) == r.subrange(at, at + 10));
                    assert(occurs_at(r, m, at));
                } else {
                    if at + 10 <= r.len() {
                        assert(o.subrange(at, at + 10) == r.subrange(at, at + 10));
                        assert(occurs_at(r, m, at));
                    } else {
                        assert(at == o.len() - 10);
                    }
                }
            }
        }
    }
}

/// Text that holds no occurrence of the marker is left as it is.
pub proof fn lemma_strip_marker_keeps_clean(s: Seq<char>)
    requires
        !contains(s, marker()),
    ensures
        strip_marker(s) == s,
    decreases s.len(),
{
    let m = marker();
    assert(m.len() == 10);
    if s.len() > 0 {
        let d = s.drop_last();
        assert forall|at: int| !occurs_at(d, m, at) by {
            if occurs_at(d, m, at) {
                assert(d.subrange(at, at + 10) == s.subrange(at, at + 10));
                assert(occurs_at(s, m, at));
            }
        }
        lemma_strip_marker_keeps_clean(d);
        let o = d.push(s.last());
        assert(o == s);
        assert(!occurs_at(s, m, s.len() - 10));
    }
}

} // verus!
