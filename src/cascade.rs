//! The cascade: matching rules merged into one declaration set per element.

use vstd::prelude::*;

use crate::declarations::{
    Decl,
    DeclarationBlock,
    contains_string,
    extend_decls,
    string_views,
    without_importance,
};
use crate::document::{Document, ElementView, Selections, lemma_first_key, lemma_key_position, selected};
use crate::rules::style_views;
use crate::text::{contains_pseudo_marker, has_pseudo_marker, lower_of, lowercase};

verus! {

/// The element named `name` is listed, compared by its lower-cased name.
pub open spec fn listed(list: Seq<Seq<char>>, name: Seq<char>) -> bool {
    list.contains(lower_of(name))
}

/// The set an element starts from: its merged set so far, or else its own inline style.
pub open spec fn seed(merged: Option<Seq<Decl>>, style: Seq<Decl>) -> Seq<Decl> {
    match merged {
        Some(s) => s,
        None => style,
    }
}

/// An index with no element in it.
pub open spec fn empty_index(n: nat) -> Seq<Option<Seq<Decl>>> {
    Seq::new(n, |i: int| None)
}

/// The index after pushing `decls` onto each element of `ids` in turn; an index out of the
/// document, or a non-visual element, is passed over.
pub open spec fn merge_ids(
    doc: Seq<ElementView>,
    index: Seq<Option<Seq<Decl>>>,
    ids: Seq<usize>,
    decls: Seq<Decl>,
    non_visual: Seq<Seq<char>>,
) -> Seq<Option<Seq<Decl>>>
    decreases ids.len(),
{
    if ids.len() == 0 {
        index
    } else {
        let prev = merge_ids(doc, index, ids.drop_last(), decls, non_visual);
        let id = ids.last() as int;
        if id < doc.len() && id < prev.len() && !listed(non_visual, doc[id].name) {
            prev.update(id, Some(extend_decls(seed(prev[id], doc[id].style), decls)))
        } else {
            prev
        }
    }
}

/// The index after each style rule in turn; a rule whose selector holds a pseudo-class or
/// pseudo-element marker is skipped.
pub open spec fn merge_rules(
    doc: Seq<ElementView>,
    index: Seq<Option<Seq<Decl>>>,
    rules: Seq<(Seq<char>, Seq<Decl>)>,
    sel: Seq<(Seq<char>, Option<Seq<usize>>)>,
    non_visual: Seq<Seq<char>>,
) -> Seq<Option<Seq<Decl>>>
    decreases rules.len(),
{
    if rules.len() == 0 {
        index
    } else {
        let prev = merge_rules(doc, index, rules.drop_last(), sel, non_visual);
        let rule = rules.last();
        if has_pseudo_marker(rule.0) {
            prev
        } else {
            merge_ids(doc, prev, selected(sel, rule.0), rule.1, non_visual)
        }
    }
}

/// The merged set of every element that some rule reached, by element index.
pub open spec fn merged_index(
    doc: Seq<ElementView>,
    rules: Seq<(Seq<char>, Seq<Decl>)>,
    sel: Seq<(Seq<char>, Option<Seq<usize>>)>,
    non_visual: Seq<Seq<char>>,
) -> Seq<Option<Seq<Decl>>> {
    merge_rules(doc, empty_index(doc.len()), rules, sel, non_visual)
}

/// The document with each indexed element's style replaced by its merged set, with the
/// important flags cleared unless they are preserved.
pub open spec fn written_styles(
    doc: Seq<ElementView>,
    index: Seq<Option<Seq<Decl>>>,
    preserve_important: bool,
) -> Seq<ElementView> {
    Seq::new(
        doc.len(),
        |i: int|
            match index[i] {
                Some(s) => ElementView {
                    style: if preserve_important {
                        s
                    } else {
                        without_importance(s)
                    },
                    ..doc[i]
                },
                None => doc[i],
            },
    )
}

/// The views of an index.
pub open spec fn index_views(v: Seq<Option<DeclarationBlock>>) -> Seq<Option<Seq<Decl>>> {
    v.map_values(
        |o: Option<DeclarationBlock>|
            match o {
                Some(b) => Some(b@),
                None => None,
            },
    )
}

/// `merge_ids` keeps the index's length.
pub proof fn lemma_merge_ids_len(
    doc: Seq<ElementView>,
    index: Seq<Option<Seq<Decl>>>,
    ids: Seq<usize>,
    decls: Seq<Decl>,
    non_visual: Seq<Seq<char>>,
)
    ensures
        merge_ids(doc, index, ids, decls, non_visual).len() == index.len(),
    decreases ids.len(),
{
    if ids.len() > 0 {
        lemma_merge_ids_len(doc, index, ids.drop_last(), decls, non_visual);
    }
}

/// `merge_rules` keeps the index's length.
pub proof fn lemma_merge_rules_len(
    doc: Seq<ElementView>,
    index: Seq<Option<Seq<Decl>>>,
    rules: Seq<(Seq<char>, Seq<Decl>)>,
    sel: Seq<(Seq<char>, Option<Seq<usize>>)>,
    non_visual: Seq<Seq<char>>,
)
    ensures
        merge_rules(doc, index, rules, sel, non_visual).len() == index.len(),
    decreases rules.len(),
{
    if rules.len() > 0 {
        lemma_merge_rules_len(doc, index, rules.drop_last(), sel, non_visual);
        let prev = merge_rules(doc, index, rules.drop_last(), sel, non_visual);
        lemma_merge_ids_len(doc, prev, selected(sel, rules.last().0), rules.last().1, non_visual);
    }
}

impl Selections {
    /// The matches recorded for `selector`, where it was answered and could be parsed.
    pub fn select(&self, selector: &str) -> (r: Option<&Vec<usize>>)
        ensures
            match r {
                Some(ids) => ids@ == selected(self@, selector@),
                None => selected(self@, selector@) == Seq::<usize>::empty(),
            },
    {
        let n = self.entries.len();
        let mut i: usize = 0;
        while i < n
            invariant
                n == self@.len(),
                i <= n,
                forall|j: int| 0 <= j < i ==> #[trigger] self@[j].0 != selector@,
            decreases n - i,
        {
            assert(self@[i as int].0 == self.entries@[i as int].0@);
            if crate::text::same_text(self.entries[i].0.as_str(), selector) {
                proof {
                    lemma_first_key(self@, selector@, i as int);
                }
                return match &self.entries[i].1 {
                    Some(ids) => Some(ids),
                    None => None,
                };
            }
            i += 1;
        }
        proof {
            lemma_key_position(self@, selector@);
        }
        None
    }
}

/// The cascade over `document`: each style rule in turn, whose selector holds no pseudo-class or
/// pseudo-element marker, is
/// pushed onto every visual element that `selections` records for it; the first time an element
/// is reached its set starts from its inline style. Returns the merged set of each element by
/// index, `None` for the elements that no rule reached.
pub fn merge(
    document: &Document,
    style: &Vec<(String, DeclarationBlock)>,
    selections: &Selections,
    non_visual_elements: &Vec<String>,
) -> (r: Vec<Option<DeclarationBlock>>)
    ensures
        index_views(r@) == merged_index(
            document@,
            style_views(style@),
            selections@,
            string_views(non_visual_elements@),
        ),
        r@.len() == document@.len(),
{
    let ghost doc = document@;
    let ghost rules = style_views(style@);
    let ghost nv = string_views(non_visual_elements@);
    let n = document.elements.len();
    let mut index: Vec<Option<DeclarationBlock>> = Vec::new();
    let mut k: usize = 0;
    while k < n
        invariant
            k <= n,
            index@.len() == k,
            forall|j: int| 0 <= j < k ==> #[trigger] index@[j] is None,
        decreases n - k,
    {
        index.push(None);
        k += 1;
    }
    assert(index_views(index@) =~= empty_index(n as nat));
    let m = style.len();
    let mut i: usize = 0;
    while i < m
        invariant
            m == style@.len(),
            n == doc.len(),
            doc == document@,
            rules == style_views(style@),
            nv == string_views(non_visual_elements@),
            i <= m,
            index@.len() == n,
            index_views(index@) == merge_rules(doc, empty_index(n as nat), rules.subrange(0, i as int), selections@, nv),
        decreases m - i,
    {
        let ghost before = index_views(index@);
        assert(rules.subrange(0, i + 1).drop_last() =~= rules.subrange(0, i as int));
        assert(rules.subrange(0, i + 1).last() == rules[i as int]);
        assert(rules[i as int] == (style@[i as int].0@, style@[i as int].1@));
        let selector = style[i].0.as_str();
        if !contains_pseudo_marker(selector) {
            let ids: &Vec<usize> = match selections.select(selector) {
                Some(ids) => ids,
                None => {
                    i += 1;
                    continue;
                },
            };
            let decls = &style[i].1;
            let ghost rule_ids = ids@;
            let c = ids.len();
            let mut j: usize = 0;
            while j < c
                invariant
                    c == rule_ids.len(),
                    rule_ids == ids@,
                    n == doc.len(),
                    doc == document@,
                    nv == string_views(non_visual_elements@),
                    j <= c,
                    index@.len() == n,
                    index_views(index@) == merge_ids(doc, before, rule_ids.subrange(0, j as int), decls@, nv),
                decreases c - j,
            {
                proof {
                    lemma_merge_ids_len(doc, before, rule_ids.subrange(0, j as int), decls@, nv);
                }
                assert(rule_ids.subrange(0, j + 1).drop_last() =~= rule_ids.subrange(0, j as int));
                let id = ids[j];
                if id < n {
                    let element = &document.elements[id];
                    assert(doc[id as int] == element@);
                    let lowered = lowercase(element.name.as_str());
                    if !contains_string(non_visual_elements, &lowered) {
                        let mut block = match &index[id] {
                            Some(b) => b.duplicate(),
                            None => element.style.duplicate(),
                        };
                        block.extend_from_block(decls);
                        index.set(id, Some(block));
                        assert(index_views(index@) =~= merge_ids(doc, before, rule_ids.subrange(0, j + 1), decls@, nv));
                    }
                }
                j += 1;
            }
            assert(rule_ids.subrange(0, c as int) =~= rule_ids);
        }
        i += 1;
    }
    assert(rules.subrange(0, m as int) =~= rules);
    index
}

} // verus!
