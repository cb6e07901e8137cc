//! The elements of a document held by index, and the answers of a selector engine over them.

use vstd::prelude::*;

use crate::declarations::{Decl, DeclarationBlock, pair_views, string_views};
use crate::text::same_text;

verus! {

/// An element as the contracts see it.
pub struct ElementView {
    pub name: Seq<char>,
    pub attributes: Seq<(Seq<char>, Seq<char>)>,
    pub style: Seq<Decl>,
    pub appended: Seq<Seq<char>>,
}

/// One element of a document. Its identity is its index in the document.
#[derive(Clone, Debug)]
pub struct Element {
    /// The tag name as the document has it.
    pub name: String,
    /// The attributes other than `style`, in order; the first entry of a name is its value.
    pub attributes: Vec<(String, String)>,
    /// The declarations of the element's `style` attribute; empty where it has none.
    pub style: DeclarationBlock,
    /// The text of each `<style>` element appended to this element's children, in order.
    pub appended_styles: Vec<String>,
}

impl View for Element {
    type V = ElementView;

    open spec fn view(&self) -> ElementView {
        ElementView {
            name: self.name@,
            attributes: pair_views(self.attributes@),
            style: self.style@,
            appended: string_views(self.appended_styles@),
        }
    }
}

/// The elements of a document, in document order.
#[derive(Clone, Debug)]
pub struct Document {
    pub elements: Vec<Element>,
}

impl View for Document {
    type V = Seq<ElementView>;

    open spec fn view(&self) -> Seq<ElementView> {
        self.elements@.map_values(|e: Element| e@)
    }
}

/// What a selector engine answered for each selector it was asked: the indices of the matching
/// elements in document order, or `None` where it could not parse the selector.
#[derive(Clone, Debug)]
pub struct Selections {
    pub entries: Vec<(String, Option<Vec<usize>>)>,
}

impl View for Selections {
    type V = Seq<(Seq<char>, Option<Seq<usize>>)>;

    open spec fn view(&self) -> Seq<(Seq<char>, Option<Seq<usize>>)> {
        self.entries@.map_values(
            |e: (String, Option<Vec<usize>>)|
                (
                    e.0@,
                    match e.1 {
                        Some(v) => Some(v@),
                        None => None,
                    },
                ),
        )
    }
}

/// The first position of a pair whose first part is `k`, or -1.
pub open spec fn key_position<V>(s: Seq<(Seq<char>, V)>, k: Seq<char>) -> int
    decreases s.len(),
{
    if s.len() == 0 {
        -1
    } else if key_position(s.drop_last(), k) >= 0 {
        key_position(s.drop_last(), k)
    } else if s.last().0 == k {
        s.len() - 1
    } else {
        -1
    }
}

/// The value paired with `k` first in `s`.
pub open spec fn value_of(s: Seq<(Seq<char>, Seq<char>)>, k: Seq<char>) -> Option<Seq<char>> {
    let i = key_position(s, k);
    if i < 0 {
        None
    } else {
        Some(s[i].1)
    }
}

/// `s` with attribute `name` set to `value`: the first entry of that name is replaced, or a
/// new entry goes to the end.
pub open spec fn set_attribute(s: Seq<(Seq<char>, Seq<char>)>, name: Seq<char>, value: Seq<char>) -> Seq<
    (Seq<char>, Seq<char>),
> {
    let i = key_position(s, name);
    if i < 0 {
        s.push((name, value))
    } else {
        s.update(i, (name, value))
    }
}

/// `s` after each write of `ws` in turn.
pub open spec fn apply_writes(
    s: Seq<(Seq<char>, Seq<char>)>,
    ws: Seq<(Seq<char>, Seq<char>)>,
) -> Seq<(Seq<char>, Seq<char>)>
    decreases ws.len(),
{
    if ws.len() == 0 {
        s
    } else {
        let prev = apply_writes(s, ws.drop_last());
        set_attribute(prev, ws.last().0, ws.last().1)
    }
}

/// The answer recorded for selector `s`: its matches, or none where it was not answered or
/// could not be parsed.
pub open spec fn selected(sel: Seq<(Seq<char>, Option<Seq<usize>>)>, s: Seq<char>) -> Seq<usize> {
    let i = key_position(sel, s);
    if i < 0 {
        Seq::empty()
    } else {
        match sel[i].1 {
            Some(ids) => ids,
            None => Seq::empty(),
        }
    }
}

/// `key_position` names the first position of `k`, or -1 exactly where `k` is absent.
pub proof fn lemma_key_position<V>(s: Seq<(Seq<char>, V)>, k: Seq<char>)
    ensures
        key_position(s, k) < 0 <==> forall|j: int| 0 <= j < s.len() ==> #[trigger] s[j].0 != k,
        key_position(s, k) >= 0 ==> {
            &&& 0 <= key_position(s, k) < s.len()
            &&& s[key_position(s, k)].0 == k
            &&& forall|j: int| 0 <= j < key_position(s, k) ==> #[trigger] s[j].0 != k
        },
    decreases s.len(),
{
    if s.len() > 0 {
        lemma_key_position(s.drop_last(), k);
        assert forall|j: int| 0 <= j < s.len() - 1 implies #[trigger] s[j] == s.drop_last()[j] by {}
    }
}

/// A first position of `k` is the one `key_position` names.
pub proof fn lemma_first_key<V>(s: Seq<(Seq<char>, V)>, k: Seq<char>, i: int)
    requires
        0 <= i < s.len(),
        s[i].0 == k,
        forall|j: int| 0 <= j < i ==> #[trigger] s[j].0 != k,
    ensures
        key_position(s, k) == i,
{
    lemma_key_position(s, k);
    let c = key_position(s, k);
    if c < 0 {
        assert(s[i].0 != k);
    } else if c < i {
        assert(s[c].0 != k);
    } else if c > i {
        assert(s[i].0 != k);
    }
}

/// After a write, the name written reads as its new value and every other name as before.
pub proof fn lemma_value_after_set(
    s: Seq<(Seq<char>, Seq<char>)>,
    name: Seq<char>,
    value: Seq<char>,
    k: Seq<char>,
)
    ensures
        value_of(set_attribute(s, name, value), k) == if k == name {
            Some(value)
        } else {
            value_of(s, k)
        },
{
    let r = set_attribute(s, name, value);
    lemma_key_position(s, name);
    lemma_key_position(s, k);
    lemma_key_position(r, k);
    let i = key_position(s, name);
    if k == name {
        if i < 0 {
            lemma_first_key(r, k, s.len() as int);
        } else {
            lemma_first_key(r, k, i);
        }
    } else {
        let c = key_position(s, k);
        if c < 0 {
            assert forall|j: int| 0 <= j < r.len() implies #[trigger] r[j].0 != k by {
                if j < s.len() {
                    assert(s[j].0 != k);
                }
            }
        } else {
            assert forall|j: int| 0 <= j < c implies #[trigger] r[j].0 != k by {
                assert(s[j].0 != k);
            }
            lemma_first_key(r, k, c);
        }
    }
}

impl Element {
    /// The first value of attribute `name`.
    pub fn attribute(&self, name: &str) -> (r: Option<&String>)
        ensures
            match r {
                None => value_of(self@.attributes, name@) is None,
                Some(v) => value_of(self@.attributes, name@) == Some(v@),
            },
    {
        match attribute_position(&self.attributes, name) {
            None => None,
            Some(i) => Some(&self.attributes[i].1),
        }
    }

    /// Sets attribute `name` to `value`, replacing the first entry of that name if any.
    pub fn set_attribute(&mut self, name: String, value: String)
        ensures
            final(self)@ == (ElementView {
                attributes: set_attribute(old(self)@.attributes, name@, value@),
                ..old(self)@
            }),
    {
        let ghost n = name@;
        let ghost v = value@;
        match attribute_position(&self.attributes, name.as_str()) {
            None => {
                self.attributes.push((name, value));
            },
            Some(i) => {
                self.attributes.set(i, (name, value));
            },
        }
        assert(pair_views(self.attributes@) =~= set_attribute(
            pair_views(old(self).attributes@),
            n,
            v,
        ));
    }
}

/// The first position of attribute `name` in `attributes`.
pub fn attribute_position(attributes: &Vec<(String, String)>, name: &str) -> (r: Option<usize>)
    ensures
        match r {
            None => key_position(pair_views(attributes@), name@) < 0,
            Some(i) => i < attributes@.len() && i as int == key_position(
                pair_views(attributes@),
                name@,
            ),
        },
{
    let ghost s = pair_views(attributes@);
    let n = attributes.len();
    let mut i: usize = 0;
    while i < n
        invariant
            n == attributes@.len(),
            s == pair_views(attributes@),
            i <= n,
            forall|j: int| 0 <= j < i ==> #[trigger] s[j].0 != name@,
        decreases n - i,
    {
        assert(s[i as int] == (attributes@[i as int].0@, attributes@[i as int].1@));
        if same_text(attributes[i].0.as_str(), name) {
            proof {
                lemma_first_key(s, name@, i as int);
            }
            return Some(i);
        }
        i += 1;
    }
    proof {
        lemma_key_position(s, name@);
    }
    None
}

} // verus!
