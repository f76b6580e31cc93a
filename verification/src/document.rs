//! The document as the stylesheet inliner sees it: its elements in document
//! order, each with its tag name, its `class` and `style` attributes and its
//! text.

use crate::style_map::CssRule;
use crate::text::{
    copy_range, letter, letter_or_digit, matches_at, same_chars, to_chars,
};
use vstd::prelude::*;
use vstd::string::StringExecFns;

verus! {

/// One element of the document.
#[derive(Clone, Debug)]
pub struct Element {
    /// The tag name without its namespace prefix.
    pub name: String,
    /// The `class` attribute, where the element has one.
    pub class: Option<String>,
    /// The `style` attribute, where the element has one.
    pub style: Option<String>,
    /// The text that the element holds.
    pub text: String,
}

/// What an `Element` holds, as sequences of characters.
pub struct ElementModel {
    pub name: Seq<char>,
    pub class: Option<Seq<char>>,
    pub style: Option<Seq<char>>,
    pub text: Seq<char>,
}

/// The characters of an attribute that may be absent.
pub open spec fn attribute_view(a: Option<String>) -> Option<Seq<char>> {
    match a {
        Some(s) => Some(s@),
        None => None,
    }
}

impl View for Element {
    type V = ElementModel;

    open spec fn view(&self) -> ElementModel {
        ElementModel {
            name: self.name@,
            class: attribute_view(self.class),
            style: attribute_view(self.style),
            text: self.text@,
        }
    }
}

/// The elements of a document, in document order.
#[derive(Clone, Debug)]
pub struct Document {
    pub elements: Vec<Element>,
}

impl View for Document {
    type V = Seq<ElementModel>;

    open spec fn view(&self) -> Seq<ElementModel> {
        Seq::new(self.elements@.len(), |i: int| self.elements@[i]@)
    }
}

/// The rules of a style map, as pairs of selector and declarations.
pub open spec fn rules_view(rules: Seq<CssRule>) -> Seq<(Seq<char>, Seq<char>)> {
    Seq::new(rules.len(), |i: int| (rules[i].selector@, rules[i].properties@))
}

/// Whether `s` is a name that is safe to match elements by: it starts with a
/// letter or `_`, and goes on with letters, digits, `-` and `_` only.
pub open spec fn valid_identifier(s: Seq<char>) -> bool {
    &&& s.len() > 0
    &&& letter(s[0]) || s[0] == '_'
    &&& forall|k: int|
        1 <= k < s.len() ==> letter_or_digit(#[trigger] s[k]) || s[k] == '-' || s[k] == '_'
}

/// Tells whether `s` is a name that is safe to match elements by.
pub fn is_valid_css_identifier(s: &[char]) -> (b: bool)
    ensures
        b == valid_identifier(s@),
{
    if s.len() == 0 {
        return false;
    }
    if !(s[0].is_alphabetic() || s[0] == '_') {
        return false;
    }
    let mut k: usize = 1;
    while k < s.len()
        invariant
            1 <= k <= s.len(),
            forall|j: int|
                1 <= j < k ==> letter_or_digit(#[trigger] s@[j]) || s@[j] == '-' || s@[j]
                    == '_',
        decreases s.len() - k,
    {
        let c = s[k];
        if !(c.is_alphanumeric() || c == '-' || c == '_') {
            return false;
        }
        k += 1;
    }
    true
}

/// What a selector asks of an element.
pub enum Target {
    /// The element's class list holds this name.
    Class(Seq<char>),
    /// The element's tag name is this name.
    Tag(Seq<char>),
}

/// What the selector `sel` asks of an element: a leading `.` makes it a
/// class selector, all else a tag selector. A selector whose name is no
/// valid identifier asks nothing that can be met: it is never applied.
pub open spec fn selector_target(sel: Seq<char>) -> Option<Target> {
    if sel.len() > 0 && sel[0] == '.' {
        if valid_identifier(sel.drop_first()) {
            Some(Target::Class(sel.drop_first()))
        } else {
            None
        }
    } else if valid_identifier(sel) {
        Some(Target::Tag(sel))
    } else {
        None
    }
}

/// Whether `c` separates the names of a class list.
pub open spec fn is_list_space(c: char) -> bool {
    c == ' ' || c == '\t' || c == '\n' || c == '\r'
}

/// Whether `s[from..to]` is one whole name of the class list `s`.
pub open spec fn is_token(s: Seq<char>, from: int, to: int) -> bool {
    &&& 0 <= from < to <= s.len()
    &&& from == 0 || is_list_space(s[from - 1])
    &&& to == s.len() || is_list_space(s[to])
    &&& forall|k: int| from <= k < to ==> !is_list_space(#[trigger] s[k])
}

/// Whether the class list `class` holds the name `name`.
pub open spec fn has_class(class: Seq<char>, name: Seq<char>) -> bool {
    exists|from: int, to: int| #[trigger]
        is_token(class, from, to) && class.subrange(from, to) == name
}

/// Whether the element `e` meets the selector `sel`.
pub open spec fn selects(sel: Seq<char>, e: ElementModel) -> bool {
    match selector_target(sel) {
        Some(Target::Class(name)) => e.class matches Some(c) && has_class(c, name),
        Some(Target::Tag(name)) => e.name == name,
        None => false,
    }
}

/// An inline style in the form in which more declarations can be put
/// before it: closed by `;` unless it is empty or absent.
pub open spec fn terminated(style: Option<Seq<char>>) -> Seq<char> {
    match style {
        None => Seq::empty(),
        Some(s) => if s.len() > 0 && s.last() != ';' {
            s.push(';')
        } else {
            s
        },
    }
}

/// The element `e` after the rule `rule` has been applied: where the rule
/// selects it, the rule's declarations stand before the element's own, so
/// that the element's own declarations keep precedence.
pub open spec fn apply_rule(e: ElementModel, rule: (Seq<char>, Seq<char>)) -> ElementModel {
    if selects(rule.0, e) {
        ElementModel { style: Some(rule.1 + terminated(e.style)), ..e }
    } else {
        e
    }
}

/// The element `e` after the rules have been applied, the first one first.
pub open spec fn apply_rules(e: ElementModel, rules: Seq<(Seq<char>, Seq<char>)>) -> ElementModel
    decreases rules.len(),
{
    if rules.len() == 0 {
        e
    } else {
        apply_rule(apply_rules(e, rules.drop_last()), rules.last())
    }
}

/// The document after the rules have been applied to each element.
pub open spec fn inline_rules(doc: Seq<ElementModel>, rules: Seq<(Seq<char>, Seq<char>)>) -> Seq<
    ElementModel,
> {
    Seq::new(doc.len(), |i: int| apply_rules(doc[i], rules))
}

/// Tells whether the class list `class` holds the name `name`.
pub fn class_list_contains(class: &[char], name: &[char]) -> (b: bool)
    ensures
        b == has_class(class@, name@),
{
    let n = class.len();
    let mut i: usize = 0;
    while i < n
        invariant
            i <= n == class.len(),
            i == 0 || i == n || is_list_space(class@[i - 1]) || is_list_space(class@[i as int]),
            forall|from: int, to: int|
                from < i && #[trigger] is_token(class@, from, to) ==> class@.subrange(from, to)
                    != name@,
        decreases n - i,
    {
        let c = class[i];
        if c == ' ' || c == '\t' || c == '\n' || c == '\r' {
            proof {
                assert forall|from: int, to: int|
                    from < i + 1 && #[trigger] is_token(class@, from, to) implies class@.subrange(
                    from,
                    to,
                ) != name@ by {
                    if from == i {
                        assert(!is_list_space(class@[from]));
                    }
                }
            }
            i += 1;
        } else {
            let a = i;
            let mut b: usize = i + 1;
            while b < n && !(class[b] == ' ' || class[b] == '\t' || class[b] == '\n' || class[b]
                == '\r')
                invariant
                    a < b <= n == class.len(),
                    forall|k: int| a <= k < b ==> !is_list_space(#[trigger] class@[k]),
                decreases n - b,
            {
                b += 1;
            }
            assert(is_token(class@, a as int, b as int));
            if b - a == name.len() && matches_at(class, name, a) {
                return true;
            }
            proof {
                assert forall|from: int, to: int|
                    from < b && #[trigger] is_token(class@, from, to) implies class@.subrange(
                    from,
                    to,
                ) != name@ by {
                    if from >= a {
                        if from > a {
                            assert(!is_list_space(class@[from - 1]));
                        }
                        if to < b {
                            assert(!is_list_space(class@[to]));
                        }
                        if to > b {
                            assert(!is_list_space(class@[b as int]));
                        }
                        assert(to == b);
                        if class@.subrange(from, to) == name@ {
                            assert(class@.subrange(a as int, b as int).len() == name@.len());
                        }
                    }
                }
            }
            i = b;
        }
    }
    proof {
        assert forall|from: int, to: int| #[trigger]
            is_token(class@, from, to) implies class@.subrange(from, to) != name@ by {}
    }
    false
}

/// Tells whether the element meets the selector.
pub fn element_matches(selector: &[char], element: &Element) -> (b: bool)
    ensures
        b == selects(selector@, element@),
{
    if selector.len() > 0 && selector[0] == '.' {
        let name = copy_range(selector, 1, selector.len());
        assert(name@ == selector@.drop_first());
        if !is_valid_css_identifier(name.as_slice()) {
            return false;
        }
        match &element.class {
            Some(c) => {
                let list = to_chars(c.as_str());
                class_list_contains(list.as_slice(), name.as_slice())
            },
            None => false,
        }
    } else {
        if !is_valid_css_identifier(selector) {
            return false;
        }
        let name = to_chars(element.name.as_str());
        same_chars(name.as_slice(), selector)
    }
}

/// The style that an element gets from declarations put before its own.
pub fn merged_style(properties: &str, existing: &Option<String>) -> (style: String)
    ensures
        style@ == properties@ + terminated(attribute_view(*existing)),
{
    let mut style = String::from_str(properties);
    match existing {
        Some(s) => {
            style.append(s.as_str());
            let chars = to_chars(s.as_str());
            if chars.len() > 0 && chars[chars.len() - 1] != ';' {
                style.push(';');
                assert(style@ =~= properties@ + s@.push(';'));
            }
        },
        None => {
            assert(style@ =~= properties@ + Seq::<char>::empty());
        },
    }
    style
}

/// Applies one rule to every element that it selects.
pub fn apply_rule_to_document(doc: &mut Document, rule: &CssRule)
    ensures
        final(doc)@.len() == old(doc)@.len(),
        forall|i: int|
            0 <= i < old(doc)@.len() ==> #[trigger] final(doc)@[i] == apply_rule(
                old(doc)@[i],
                (rule.selector@, rule.properties@),
            ),
{
    let selector = to_chars(rule.selector.as_str());
    let n = doc.elements.len();
    let mut i: usize = 0;
    while i < n
        invariant
            i <= n == doc.elements@.len() == old(doc).elements@.len(),
            selector@ == rule.selector@,
            forall|k: int|
                0 <= k < i ==> #[trigger] doc.elements@[k]@ == apply_rule(
                    old(doc).elements@[k]@,
                    (rule.selector@, rule.properties@),
                ),
            forall|k: int| i <= k < n ==> #[trigger] doc.elements@[k] == old(doc).elements@[k],
        decreases n - i,
    {
        if element_matches(selector.as_slice(), &doc.elements[i]) {
            let style = merged_style(rule.properties.as_str(), &doc.elements[i].style);
            doc.elements[i].style = Some(style);
        }
        i += 1;
    }
}

/// Applies the rules of a style map to the document: for each element that
/// a rule selects, the rule's declarations are put before the element's own
/// inline style.
pub fn apply_rules_to_document(doc: &mut Document, rules: &Vec<CssRule>)
    ensures
        final(doc)@ == inline_rules(old(doc)@, rules_view(rules@)),
{
    let mut r: usize = 0;
    assert(rules_view(rules@).take(0) =~= Seq::<(Seq<char>, Seq<char>)>::empty());
    assert(doc@ =~= inline_rules(old(doc)@, rules_view(rules@).take(0)));
    while r < rules.len()
        invariant
            r <= rules@.len(),
            doc@ == inline_rules(old(doc)@, rules_view(rules@).take(r as int)),
        decreases rules.len() - r,
    {
        let ghost before = doc@;
        apply_rule_to_document(doc, &rules[r]);
        proof {
            let head = rules_view(rules@).take(r as int);
            let next = rules_view(rules@).take(r as int + 1);
            assert(next.drop_last() == head);
            assert(next.last() == (rules@[r as int].selector@, rules@[r as int].properties@));
            assert(doc@ =~= inline_rules(old(doc)@, next));
        }
        r += 1;
    }
    assert(rules_view(rules@).take(rules@.len() as int) == rules_view(rules@));
}

} // verus!
