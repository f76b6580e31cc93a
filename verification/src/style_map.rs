//! The style map: for each selector the declarations that the stylesheet
//! gives it, in the order in which the selectors were first seen.

use crate::text::to_text;
use vstd::hash_map::StringHashMap;
use vstd::prelude::*;
use vstd::string::StringExecFns;

verus! {

/// One entry of the style map.
#[derive(Clone, Debug)]
pub struct CssRule {
    /// The selector: `.name` for a class, a bare name for a tag.
    pub selector: String,
    /// The declarations, each ended by `;`.
    pub properties: String,
}

/// The first index at which `m` holds the selector `sel`, or the length of
/// `m` where no entry has it.
pub open spec fn selector_index(m: Seq<(Seq<char>, Seq<char>)>, sel: Seq<char>) -> int
    decreases m.len(),
{
    if m.len() == 0 {
        0
    } else {
        let i = selector_index(m.drop_last(), sel);
        if i < m.len() - 1 {
            i
        } else if m.last().0 == sel {
            m.len() - 1
        } else {
            m.len() as int
        }
    }
}

/// The map `m` after `props` has been given to `sel`: appended to the entry
/// that `sel` has, or put into a new last entry.
pub open spec fn accumulate(m: Seq<(Seq<char>, Seq<char>)>, sel: Seq<char>, props: Seq<char>) -> Seq<
    (Seq<char>, Seq<char>),
> {
    let i = selector_index(m, sel);
    if i < m.len() {
        m.update(i, (sel, m[i].1 + props))
    } else {
        m.push((sel, props))
    }
}

/// No selector has two entries.
pub open spec fn unique_selectors(m: Seq<(Seq<char>, Seq<char>)>) -> bool {
    forall|i: int, j: int| 0 <= i < j < m.len() ==> (#[trigger] m[i]).0 != (#[trigger] m[j]).0
}

/// `selector_index` is the first index whose entry has the selector, or
/// the length of the map where there is none.
pub proof fn lemma_selector_index(m: Seq<(Seq<char>, Seq<char>)>, sel: Seq<char>)
    ensures
        0 <= selector_index(m, sel) <= m.len(),
        selector_index(m, sel) < m.len() ==> m[selector_index(m, sel)].0 == sel,
        forall|k: int| 0 <= k < selector_index(m, sel) ==> (#[trigger] m[k]).0 != sel,
    decreases m.len(),
{
    if m.len() > 0 {
        lemma_selector_index(m.drop_last(), sel);
        let i = selector_index(m.drop_last(), sel);
        assert forall|k: int| 0 <= k < selector_index(m, sel) implies (#[trigger] m[k]).0
            != sel by {
            if k < m.len() - 1 {
                assert(m[k] == m.drop_last()[k]);
            }
        }
    }
}

/// Giving declarations to a selector keeps the selectors distinct, keeps
/// every other entry as it was, and creates at most one entry.
pub proof fn lemma_accumulate(m: Seq<(Seq<char>, Seq<char>)>, sel: Seq<char>, props: Seq<char>)
    requires
        unique_selectors(m),
    ensures
        unique_selectors(accumulate(m, sel, props)),
        m.len() <= accumulate(m, sel, props).len() <= m.len() + 1,
        forall|k: int|
            0 <= k < m.len() ==> (#[trigger] accumulate(m, sel, props)[k]).0 == m[k].0,
        forall|k: int|
            0 <= k < m.len() && m[k].0 != sel ==> #[trigger] accumulate(m, sel, props)[k] == m[k],
{
    lemma_selector_index(m, sel);
    let r = accumulate(m, sel, props);
    let i = selector_index(m, sel);
    assert forall|a: int, b: int| 0 <= a < b < r.len() implies (#[trigger] r[a]).0 != (
    #[trigger] r[b]).0 by {
        if i < m.len() {
            assert(r[a].0 == m[a].0);
            assert(r[b].0 == m[b].0);
        } else {
            if b < m.len() {
                assert(r[a] == m[a] && r[b] == m[b]);
            } else {
                assert(r[a] == m[a]);
            }
        }
    }
}

/// The style map. Selectors are unique: declarations seen later for a
/// selector are appended to its entry. A hash index over the selectors
/// finds an entry in constant expected time.
pub struct StyleMap {
    rules: Vec<CssRule>,
    index: StringHashMap<usize>,
}

impl View for StyleMap {
    type V = Seq<(Seq<char>, Seq<char>)>;

    closed spec fn view(&self) -> Seq<(Seq<char>, Seq<char>)> {
        Seq::new(self.rules@.len(), |i: int| (self.rules@[i].selector@, self.rules@[i].properties@))
    }
}

impl StyleMap {
    /// The index agrees with the entries.
    pub closed spec fn wf(&self) -> bool {
        &&& forall|i: int|
            0 <= i < self.rules@.len() ==> self.index@.contains_key(
                #[trigger] self.rules@[i].selector@,
            ) && self.index@[self.rules@[i].selector@] == i
        &&& forall|sel: Seq<char>| #[trigger]
            self.index@.contains_key(sel) ==> 0 <= self.index@[sel] < self.rules@.len()
                && self.rules@[self.index@[sel] as int].selector@ == sel
    }

    /// A well-formed map holds each selector once.
    pub proof fn lemma_wf_unique(&self)
        requires
            self.wf(),
        ensures
            unique_selectors(self@),
    {
        assert forall|i: int, j: int| 0 <= i < j < self@.len() implies (#[trigger] self@[i]).0 != (
        #[trigger] self@[j]).0 by {
            assert(self.index@.contains_key(self.rules@[i].selector@));
            assert(self.index@.contains_key(self.rules@[j].selector@));
        }
    }

    /// The empty style map.
    pub fn new() -> (m: StyleMap)
        ensures
            m.wf(),
            m@ == Seq::<(Seq<char>, Seq<char>)>::empty(),
    {
        let m = StyleMap { rules: Vec::new(), index: StringHashMap::new() };
        assert(m@ =~= Seq::<(Seq<char>, Seq<char>)>::empty());
        m
    }

    /// The number of selectors.
    pub fn len(&self) -> (n: usize)
        ensures
            n == self@.len(),
    {
        self.rules.len()
    }

    /// Gives the declarations `properties` to `selector`.
    pub fn append(&mut self, selector: &[char], properties: &[char])
        requires
            old(self).wf(),
        ensures
            final(self).wf(),
            final(self)@ == accumulate(old(self)@, selector@, properties@),
    {
        let key = to_text(selector);
        let props = to_text(properties);
        let found: Option<usize> = match self.index.get(key.as_str()) {
            Some(i) => Some(*i),
            None => None,
        };
        proof {
            self.lemma_wf_unique();
            lemma_selector_index(self@, selector@);
            if self.index@.contains_key(selector@) {
                let i = self.index@[selector@] as int;
                assert(self@[i].0 == selector@);
                let j = selector_index(self@, selector@);
                if j < i {
                    assert(self.index@.contains_key(self.rules@[j].selector@));
                }
            } else {
                let j = selector_index(self@, selector@);
                if j < self@.len() {
                    assert(self.index@.contains_key(self.rules@[j].selector@));
                }
            }
        }
        match found {
            Some(i) => {
                let ghost before = self.rules@;
                self.rules[i].properties.append(props.as_str());
                proof {
                    assert(self@ =~= accumulate(old(self)@, selector@, properties@));
                    assert forall|k: int| 0 <= k < self.rules@.len() implies self.rules@[k].selector@
                        == before[k].selector@ by {}
                }
            },
            None => {
                let n = self.rules.len();
                let key2 = key.clone();
                self.rules.push(CssRule { selector: key, properties: props });
                self.index.insert(key2, n);
                proof {
                    assert(self@ =~= accumulate(old(self)@, selector@, properties@));
                    assert forall|i: int| 0 <= i < self.rules@.len() implies self.index@.contains_key(
                        #[trigger] self.rules@[i].selector@,
                    ) && self.index@[self.rules@[i].selector@] == i by {
                        if i < n {
                            assert(self.rules@[i] == old(self).rules@[i]);
                            assert(old(self).index@.contains_key(old(self).rules@[i].selector@));
                        }
                    }
                }
            },
        }
    }

    /// The entries, in the order in which their selectors were first seen.
    pub fn into_rules(self) -> (rules: Vec<CssRule>)
        ensures
            rules@.len() == self@.len(),
            forall|i: int|
                0 <= i < rules@.len() ==> (#[trigger] rules@[i]).selector@ == self@[i].0
                    && rules@[i].properties@ == self@[i].1,
    {
        self.rules
    }
}

} // verus!
