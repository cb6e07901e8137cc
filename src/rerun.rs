//! A second run over a run's own output: what a property holds after pushes, and why the merged
//! sets come out the same.

use vstd::prelude::*;

use crate::declarations::{
    Decl,
    extend_decls,
    is_first_position,
    lemma_extend_unique,
    lemma_first_position,
    lemma_position_of,
    lookup,
    position_of,
    push_decl,
    unique_properties,
    without_importance,
};

use crate::attributes::{size_writes, table_writes, with_size_attributes, with_table_attributes};
use crate::cascade::{empty_index, lemma_merge_rules_len, listed, merge_ids, merge_rules, merged_index, seed, written_styles};
use crate::declarations::{pair_views, string_views};
use crate::document::{ElementView, apply_writes, lemma_value_after_set, selected, value_of};
use crate::eyeliner::inlined;
use crate::options::ConcreteOptions;
use crate::preserved::{insertion_point, lemma_insertion_point_bounds, preserved_text, with_preserved_css};
use crate::rules::{CssRule, collected};
use crate::settings::ConcreteSettings;
use crate::text::has_pseudo_marker;

verus! {

/// What property `p` holds after `d` is pushed, given what it held before.
pub open spec fn step(x: Option<Decl>, d: Decl) -> Option<Decl> {
    match x {
        None => Some(d),
        Some(e) => if e.important && !d.important {
            Some(e)
        } else {
            Some(d)
        },
    }
}

/// What property `p` holds after each of `ds` is pushed, given what it held before.
pub open spec fn fold_property(x: Option<Decl>, ds: Seq<Decl>, p: Seq<char>) -> Option<Decl>
    decreases ds.len(),
{
    if ds.len() == 0 {
        x
    } else {
        let y = fold_property(x, ds.drop_last(), p);
        if ds.last().property == p {
            step(y, ds.last())
        } else {
            y
        }
    }
}

/// The last declaration of `p` in `ds`.
pub open spec fn last_of(ds: Seq<Decl>, p: Seq<char>) -> Option<Decl>
    decreases ds.len(),
{
    if ds.len() == 0 {
        None
    } else if ds.last().property == p {
        Some(ds.last())
    } else {
        last_of(ds.drop_last(), p)
    }
}

/// The last important declaration of `p` in `ds`.
pub open spec fn last_important(ds: Seq<Decl>, p: Seq<char>) -> Option<Decl>
    decreases ds.len(),
{
    if ds.len() == 0 {
        None
    } else if ds.last().property == p && ds.last().important {
        Some(ds.last())
    } else {
        last_important(ds.drop_last(), p)
    }
}

/// The value held is an important one.
pub open spec fn is_important(x: Option<Decl>) -> bool {
    x matches Some(e) && e.important
}

/// `x` with its important flag cleared.
pub open spec fn cleared(x: Option<Decl>) -> Option<Decl> {
    match x {
        Some(e) => Some(Decl { important: false, ..e }),
        None => None,
    }
}

/// `fold_property` in closed form: the last important declaration wins; failing one, an
/// important value held before stays; failing that, the last declaration wins.
pub open spec fn folded(x: Option<Decl>, ds: Seq<Decl>, p: Seq<char>) -> Option<Decl> {
    match last_important(ds, p) {
        Some(d) => Some(d),
        None => match last_of(ds, p) {
            None => x,
            Some(d) => if is_important(x) {
                x
            } else {
                Some(d)
            },
        },
    }
}

/// Where no declaration of `p` is important, the last one is not.
proof fn lemma_last_not_important(ds: Seq<Decl>, p: Seq<char>)
    ensures
        last_important(ds, p) is None ==> match last_of(ds, p) {
            Some(d) => !d.important && d.property == p,
            None => true,
        },
        last_of(ds, p) matches Some(d) ==> d.property == p,
        last_important(ds, p) matches Some(d) ==> d.property == p && d.important,
    decreases ds.len(),
{
    if ds.len() > 0 {
        lemma_last_not_important(ds.drop_last(), p);
    }
}

/// `fold_property` is `folded`.
pub proof fn lemma_folded(x: Option<Decl>, ds: Seq<Decl>, p: Seq<char>)
    ensures
        fold_property(x, ds, p) == folded(x, ds, p),
    decreases ds.len(),
{
    if ds.len() > 0 {
        let rest = ds.drop_last();
        let d = ds.last();
        lemma_folded(x, rest, p);
        lemma_last_not_important(rest, p);
        let y = fold_property(x, rest, p);
        if d.property == p {
            if d.important {
                assert(last_important(ds, p) == Some(d));
            } else {
                assert(last_important(ds, p) == last_important(rest, p));
                assert(last_of(ds, p) == Some(d));
                match last_important(rest, p) {
                    Some(e) => {
                        assert(y == Some(e));
                    },
                    None => {
                        match last_of(rest, p) {
                            None => {
                                assert(y == x);
                            },
                            Some(e) => {
                                assert(!e.important);
                                assert(is_important(y) == is_important(x));
                            },
                        }
                    },
                }
            }
        } else {
            assert(last_important(ds, p) == last_important(rest, p));
            assert(last_of(ds, p) == last_of(rest, p));
        }
    }
}

/// Pushing the same declarations again changes nothing that a property holds.
proof fn lemma_fold_again(x: Option<Decl>, ds: Seq<Decl>, p: Seq<char>)
    ensures
        fold_property(fold_property(x, ds, p), ds, p) == fold_property(x, ds, p),
{
    lemma_folded(x, ds, p);
    lemma_folded(fold_property(x, ds, p), ds, p);
    lemma_last_not_important(ds, p);
}

/// Where the value held at first was not important, clearing the flags and pushing the same
/// declarations again gives back the same value.
proof fn lemma_fold_again_cleared(x: Option<Decl>, ds: Seq<Decl>, p: Seq<char>)
    requires
        !is_important(x),
    ensures
        fold_property(cleared(fold_property(x, ds, p)), ds, p) == fold_property(x, ds, p),
{
    lemma_folded(x, ds, p);
    lemma_folded(cleared(fold_property(x, ds, p)), ds, p);
    lemma_last_not_important(ds, p);
}

/// Two sequences with the same property at each position find a property at the same place.
proof fn lemma_same_positions(a: Seq<Decl>, b: Seq<Decl>, p: Seq<char>)
    requires
        a.len() == b.len(),
        forall|j: int| 0 <= j < a.len() ==> #[trigger] a[j].property == b[j].property,
    ensures
        position_of(a, p) == position_of(b, p),
    decreases a.len(),
{
    if a.len() > 0 {
        lemma_same_positions(a.drop_last(), b.drop_last(), p);
    }
}

/// What a property holds after one push.
proof fn lemma_push_lookup(t: Seq<Decl>, d: Decl, p: Seq<char>)
    ensures
        lookup(push_decl(t, d), p) == if p == d.property {
            step(lookup(t, p), d)
        } else {
            lookup(t, p)
        },
{
    let r = push_decl(t, d);
    lemma_position_of(t, d.property);
    lemma_position_of(t, p);
    lemma_position_of(r, p);
    let i = position_of(t, d.property);
    if i < 0 {
        if p == d.property {
            lemma_first_position(r, p, t.len() as int);
        } else {
            let c = position_of(t, p);
            if c >= 0 {
                lemma_first_position(r, p, c);
            } else {
                assert forall|k: int| 0 <= k < r.len() implies #[trigger] r[k].property != p by {
                    if k < t.len() {
                        assert(t[k].property != p);
                    }
                }
            }
        }
    } else if t[i].important && !d.important {
    } else {
        assert forall|j: int| 0 <= j < t.len() implies #[trigger] t[j].property == r[j].property by {}
        lemma_same_positions(t, r, p);
        if p == d.property {
            assert(position_of(t, p) == i);
        }
    }
}

/// What a property holds after pushes.
pub proof fn lemma_extend_lookup(t: Seq<Decl>, ds: Seq<Decl>, p: Seq<char>)
    ensures
        lookup(extend_decls(t, ds), p) == fold_property(lookup(t, p), ds, p),
    decreases ds.len(),
{
    if ds.len() > 0 {
        lemma_extend_lookup(t, ds.drop_last(), p);
        lemma_push_lookup(extend_decls(t, ds.drop_last()), ds.last(), p);
    }
}

/// Every property declared in `ds` is present after pushing `ds`.
proof fn lemma_extend_has(t: Seq<Decl>, ds: Seq<Decl>, k: int)
    requires
        0 <= k < ds.len(),
    ensures
        lookup(extend_decls(t, ds), ds[k].property) is Some,
    decreases ds.len(),
{
    let p = ds[k].property;
    lemma_extend_lookup(t, ds, p);
    lemma_folded(lookup(t, p), ds, p);
    lemma_last_of_present(ds, k);
}

/// A property declared in `ds` has a last declaration there.
proof fn lemma_last_of_present(ds: Seq<Decl>, k: int)
    requires
        0 <= k < ds.len(),
    ensures
        last_of(ds, ds[k].property) is Some,
    decreases ds.len(),
{
    if k < ds.len() - 1 {
        lemma_last_of_present(ds.drop_last(), k);
    }
}

/// Pushing declarations whose properties are all present keeps the property at each position.
proof fn lemma_extend_keeps_shape(t: Seq<Decl>, ds: Seq<Decl>)
    requires
        forall|k: int| 0 <= k < ds.len() ==> #[trigger] lookup(t, ds[k].property) is Some,
    ensures
        extend_decls(t, ds).len() == t.len(),
        forall|j: int| 0 <= j < t.len() ==> #[trigger] extend_decls(t, ds)[j].property == t[j].property,
    decreases ds.len(),
{
    if ds.len() > 0 {
        assert forall|k: int| 0 <= k < ds.drop_last().len() implies #[trigger] lookup(t, ds.drop_last()[k].property) is Some by {
            assert(ds.drop_last()[k] == ds[k]);
        }
        lemma_extend_keeps_shape(t, ds.drop_last());
        let u = extend_decls(t, ds.drop_last());
        let d = ds.last();
        assert(lookup(t, ds[ds.len() - 1].property) is Some);
        lemma_same_positions(t, u, d.property);
        lemma_position_of(u, d.property);
    }
}

/// Clearing the flags keeps the property at each position, and what each property holds but
/// for its flag.
proof fn lemma_cleared_lookup(t: Seq<Decl>, p: Seq<char>)
    ensures
        without_importance(t).len() == t.len(),
        forall|j: int| 0 <= j < t.len() ==> #[trigger] without_importance(t)[j].property == t[j].property,
        lookup(without_importance(t), p) == cleared(lookup(t, p)),
{
    let u = without_importance(t);
    assert forall|j: int| 0 <= j < t.len() implies #[trigger] u[j].property == t[j].property by {}
    lemma_same_positions(t, u, p);
    lemma_position_of(t, p);
}

/// A sequence with unique properties is fixed by the property at each position and what each
/// property holds.
proof fn lemma_determined(a: Seq<Decl>, b: Seq<Decl>)
    requires
        unique_properties(a),
        a.len() == b.len(),
        forall|j: int| 0 <= j < a.len() ==> #[trigger] a[j].property == b[j].property,
        forall|p: Seq<char>| #[trigger] lookup(a, p) == lookup(b, p),
    ensures
        a == b,
{
    assert forall|j: int| 0 <= j < a.len() implies #[trigger] a[j] == b[j] by {
        let p = a[j].property;
        assert(is_first_position(a, p, j));
        lemma_first_position(a, p, j);
        lemma_same_positions(a, b, p);
        assert(lookup(a, p) == lookup(b, p));
    }
    assert(a =~= b);
}

/// The set merged from a seed of unique properties absorbs the same declarations again: with
/// its flags kept, or with its flags cleared where the seed held nothing important.
pub proof fn lemma_extend_again(s0: Seq<Decl>, c: Seq<Decl>, preserve_important: bool)
    requires
        unique_properties(s0),
        preserve_important || forall|j: int| 0 <= j < s0.len() ==> !(#[trigger] s0[j]).important,
    ensures
        ({
            let t = extend_decls(s0, c);
            extend_decls(if preserve_important { t } else { without_importance(t) }, c) == t
        }),
{
    let t = extend_decls(s0, c);
    let u = if preserve_important { t } else { without_importance(t) };
    let v = extend_decls(u, c);
    lemma_extend_unique(s0, c);
    if !preserve_important {
        assert forall|p: Seq<char>| true implies #[trigger] lookup(u, p) == cleared(lookup(t, p)) by {
            lemma_cleared_lookup(t, p);
        }
        lemma_cleared_lookup(t, Seq::empty());
    }
    assert forall|k: int| 0 <= k < c.len() implies #[trigger] lookup(u, c[k].property) is Some by {
        lemma_extend_has(s0, c, k);
        if !preserve_important {
            lemma_cleared_lookup(t, c[k].property);
        }
    }
    lemma_extend_keeps_shape(u, c);
    assert forall|p: Seq<char>| #[trigger] lookup(t, p) == lookup(v, p) by {
        lemma_extend_lookup(s0, c, p);
        lemma_extend_lookup(u, c, p);
        if preserve_important {
            lemma_fold_again(lookup(s0, p), c, p);
        } else {
            lemma_cleared_lookup(t, p);
            lemma_position_of(s0, p);
            lemma_fold_again_cleared(lookup(s0, p), c, p);
        }
    }
    assert forall|j: int| 0 <= j < t.len() implies #[trigger] t[j].property == v[j].property by {
        if !preserve_important {
            lemma_cleared_lookup(t, Seq::empty());
        }
    }
    lemma_determined(t, v);
}

/// The declarations that pushing `decls` onto each element of `ids` pushes onto element `i`.
pub open spec fn ids_contribution(ids: Seq<usize>, i: int, decls: Seq<Decl>) -> Seq<Decl>
    decreases ids.len(),
{
    if ids.len() == 0 {
        Seq::empty()
    } else {
        ids_contribution(ids.drop_last(), i, decls) + if ids.last() as int == i {
            decls
        } else {
            Seq::empty()
        }
    }
}

/// Element `i` is among `ids`.
pub open spec fn ids_reach(ids: Seq<usize>, i: int) -> bool
    decreases ids.len(),
{
    ids.len() > 0 && (ids.last() as int == i || ids_reach(ids.drop_last(), i))
}

/// The declarations that the style rules push onto element `i`, in order.
pub open spec fn rules_contribution(
    rules: Seq<(Seq<char>, Seq<Decl>)>,
    sel: Seq<(Seq<char>, Option<Seq<usize>>)>,
    i: int,
) -> Seq<Decl>
    decreases rules.len(),
{
    if rules.len() == 0 {
        Seq::empty()
    } else {
        rules_contribution(rules.drop_last(), sel, i) + if has_pseudo_marker(rules.last().0) {
            Seq::empty()
        } else {
            ids_contribution(selected(sel, rules.last().0), i, rules.last().1)
        }
    }
}

/// Some style rule reaches element `i`.
pub open spec fn rules_reach(
    rules: Seq<(Seq<char>, Seq<Decl>)>,
    sel: Seq<(Seq<char>, Option<Seq<usize>>)>,
    i: int,
) -> bool
    decreases rules.len(),
{
    rules.len() > 0 && (rules_reach(rules.drop_last(), sel, i) || (!has_pseudo_marker(rules.last().0)
        && ids_reach(selected(sel, rules.last().0), i)))
}

/// Pushing `a` and then `b` is pushing `a + b`.
pub proof fn lemma_extend_append(s: Seq<Decl>, a: Seq<Decl>, b: Seq<Decl>)
    ensures
        extend_decls(extend_decls(s, a), b) == extend_decls(s, a + b),
    decreases b.len(),
{
    if b.len() == 0 {
        assert(a + b =~= a);
    } else {
        lemma_extend_append(s, a, b.drop_last());
        assert((a + b).drop_last() =~= a + b.drop_last());
        assert((a + b).last() == b.last());
    }
}

/// What pushing onto the elements of `ids` leaves for a visual element `i`.
pub proof fn lemma_merge_ids_at(
    doc: Seq<ElementView>,
    index: Seq<Option<Seq<Decl>>>,
    ids: Seq<usize>,
    decls: Seq<Decl>,
    non_visual: Seq<Seq<char>>,
    i: int,
)
    requires
        0 <= i < doc.len(),
        index.len() == doc.len(),
        !listed(non_visual, doc[i].name),
    ensures
        merge_ids(doc, index, ids, decls, non_visual).len() == index.len(),
        merge_ids(doc, index, ids, decls, non_visual)[i] == if ids_reach(ids, i) {
            Some(extend_decls(seed(index[i], doc[i].style), ids_contribution(ids, i, decls)))
        } else {
            index[i]
        },
        !ids_reach(ids, i) ==> ids_contribution(ids, i, decls) == Seq::<Decl>::empty(),
    decreases ids.len(),
{
    if ids.len() > 0 {
        let rest = ids.drop_last();
        lemma_merge_ids_at(doc, index, rest, decls, non_visual, i);
        let c = ids_contribution(rest, i, decls);
        if ids.last() as int == i {
            if ids_reach(rest, i) {
                lemma_extend_append(seed(index[i], doc[i].style), c, decls);
            } else {
                assert(c + decls =~= decls);
            }
        } else {
            assert(c + Seq::<Decl>::empty() =~= c);
        }
    }
}

/// What the style rules leave for a visual element `i`.
pub proof fn lemma_merge_rules_at(
    doc: Seq<ElementView>,
    index: Seq<Option<Seq<Decl>>>,
    rules: Seq<(Seq<char>, Seq<Decl>)>,
    sel: Seq<(Seq<char>, Option<Seq<usize>>)>,
    non_visual: Seq<Seq<char>>,
    i: int,
)
    requires
        0 <= i < doc.len(),
        index.len() == doc.len(),
        !listed(non_visual, doc[i].name),
    ensures
        merge_rules(doc, index, rules, sel, non_visual).len() == index.len(),
        merge_rules(doc, index, rules, sel, non_visual)[i] == if rules_reach(rules, sel, i) {
            Some(extend_decls(seed(index[i], doc[i].style), rules_contribution(rules, sel, i)))
        } else {
            index[i]
        },
        !rules_reach(rules, sel, i) ==> rules_contribution(rules, sel, i) == Seq::<Decl>::empty(),
    decreases rules.len(),
{
    if rules.len() > 0 {
        let rest = rules.drop_last();
        let rule = rules.last();
        lemma_merge_rules_at(doc, index, rest, sel, non_visual, i);
        let prev = merge_rules(doc, index, rest, sel, non_visual);
        let c = rules_contribution(rest, sel, i);
        if has_pseudo_marker(rule.0) {
            assert(c + Seq::<Decl>::empty() =~= c);
        } else {
            let ids = selected(sel, rule.0);
            lemma_merge_ids_at(doc, prev, ids, rule.1, non_visual, i);
            let more = ids_contribution(ids, i, rule.1);
            if ids_reach(ids, i) {
                if rules_reach(rest, sel, i) {
                    lemma_extend_append(seed(index[i], doc[i].style), c, more);
                } else {
                    assert(c + more =~= more);
                }
            } else {
                assert(c + more =~= c);
            }
        }
    }
}

/// The last value written to `n` by `ws`.
pub open spec fn last_write(ws: Seq<(Seq<char>, Seq<char>)>, n: Seq<char>) -> Option<Seq<char>>
    decreases ws.len(),
{
    if ws.len() == 0 {
        None
    } else if ws.last().0 == n {
        Some(ws.last().1)
    } else {
        last_write(ws.drop_last(), n)
    }
}

/// After writes, a name reads as the last value written to it, or as before.
pub proof fn lemma_value_after_writes(
    a: Seq<(Seq<char>, Seq<char>)>,
    ws: Seq<(Seq<char>, Seq<char>)>,
    n: Seq<char>,
)
    ensures
        value_of(apply_writes(a, ws), n) == match last_write(ws, n) {
            Some(v) => Some(v),
            None => value_of(a, n),
        },
    decreases ws.len(),
{
    if ws.len() > 0 {
        lemma_value_after_writes(a, ws.drop_last(), n);
        lemma_value_after_set(apply_writes(a, ws.drop_last()), ws.last().0, ws.last().1, n);
    }
}

/// Making the same writes again changes no value.
pub proof fn lemma_writes_again(
    a: Seq<(Seq<char>, Seq<char>)>,
    ws: Seq<(Seq<char>, Seq<char>)>,
    n: Seq<char>,
)
    ensures
        value_of(apply_writes(apply_writes(a, ws), ws), n) == value_of(apply_writes(a, ws), n),
{
    lemma_value_after_writes(a, ws, n);
    lemma_value_after_writes(apply_writes(a, ws), ws, n);
}

/// Writes made in two batches are the writes of both in order.
pub proof fn lemma_apply_writes_append(
    a: Seq<(Seq<char>, Seq<char>)>,
    w1: Seq<(Seq<char>, Seq<char>)>,
    w2: Seq<(Seq<char>, Seq<char>)>,
)
    ensures
        apply_writes(apply_writes(a, w1), w2) == apply_writes(a, w1 + w2),
    decreases w2.len(),
{
    if w2.len() == 0 {
        assert(w1 + w2 =~= w1);
    } else {
        lemma_apply_writes_append(a, w1, w2.drop_last());
        assert((w1 + w2).drop_last() =~= w1 + w2.drop_last());
        assert((w1 + w2).last() == w2.last());
    }
}

/// The attribute writes a whole run makes on an element with merged set `merged`.
pub open spec fn run_writes(
    e: ElementView,
    merged: Option<Seq<Decl>>,
    o: ConcreteOptions,
    s: ConcreteSettings,
) -> Seq<(Seq<char>, Seq<char>)> {
    let table = string_views(s.table_elements@);
    match merged {
        None => Seq::empty(),
        Some(m) => (if o.apply_width_attributes {
            size_writes(e, m, "width"@, table)
        } else {
            Seq::empty()
        }) + (if o.apply_height_attributes {
            size_writes(e, m, "height"@, table)
        } else {
            Seq::empty()
        }) + (if o.apply_table_element_attributes && listed(table, e.name) {
            table_writes(m, pair_views(s.style_to_attribute@))
        } else {
            Seq::empty()
        }),
    }
}

/// The merged index of a whole run.
pub open spec fn run_index(
    doc: Seq<ElementView>,
    sheet: Seq<CssRule>,
    sel: Seq<(Seq<char>, Option<Seq<usize>>)>,
    o: ConcreteOptions,
    s: ConcreteSettings,
) -> Seq<Option<Seq<Decl>>> {
    let rules = collected(
        sheet,
        string_views(s.excluded_properties@),
        o.preserve_media_queries,
        o.preserve_font_faces,
    );
    merged_index(doc, rules.style, sel, string_views(s.non_visual_elements@))
}

/// What a whole run makes of element `i`: its name is kept, its style is written from its
/// merged set, and its attributes get `run_writes`.
pub proof fn lemma_inlined_at(
    doc: Seq<ElementView>,
    sheet: Seq<CssRule>,
    sel: Seq<(Seq<char>, Option<Seq<usize>>)>,
    o: ConcreteOptions,
    s: ConcreteSettings,
    i: int,
)
    ensures
        run_index(doc, sheet, sel, o, s).len() == doc.len(),
        inlined(doc, sheet, sel, o, s).len() == doc.len(),
        0 <= i < doc.len() ==> {
            &&& inlined(doc, sheet, sel, o, s)[i].name == doc[i].name
            &&& inlined(doc, sheet, sel, o, s)[i].style == written_styles(
                doc,
                run_index(doc, sheet, sel, o, s),
                o.preserve_important,
            )[i].style
            &&& inlined(doc, sheet, sel, o, s)[i].attributes == apply_writes(
                doc[i].attributes,
                run_writes(doc[i], run_index(doc, sheet, sel, o, s)[i], o, s),
            )
        },
{
    let rules = collected(sheet, string_views(s.excluded_properties@), o.preserve_media_queries, o.preserve_font_faces);
    let nv = string_views(s.non_visual_elements@);
    let index = merged_index(doc, rules.style, sel, nv);
    lemma_merge_rules_len(doc, empty_index(doc.len()), rules.style, sel, nv);
    let table = string_views(s.table_elements@);
    let map = pair_views(s.style_to_attribute@);
    let styled = written_styles(doc, index, o.preserve_important);
    let widths = if o.apply_width_attributes {
        with_size_attributes(styled, index, "width"@, table)
    } else {
        styled
    };
    let heights = if o.apply_height_attributes {
        with_size_attributes(widths, index, "height"@, table)
    } else {
        widths
    };
    let tables = if o.apply_table_element_attributes {
        with_table_attributes(heights, index, table, map)
    } else {
        heights
    };
    let point = insertion_point(doc.len(), string_views(o.insert_preserved_css@), sel);
    lemma_insertion_point_bounds(doc.len(), string_views(o.insert_preserved_css@), sel);
    let fin = with_preserved_css(tables, point, preserved_text(rules.font_face, rules.media));
    reveal(inlined);
    assert(fin == inlined(doc, sheet, sel, o, s));
    assert(fin.len() == doc.len());
    if 0 <= i < doc.len() {
        let empty = Seq::<(Seq<char>, Seq<char>)>::empty();
        let w1 = match index[i] {
            Some(m) => if o.apply_width_attributes { size_writes(doc[i], m, "width"@, table) } else { empty },
            None => empty,
        };
        let w2 = match index[i] {
            Some(m) => if o.apply_height_attributes { size_writes(doc[i], m, "height"@, table) } else { empty },
            None => empty,
        };
        let w3 = match index[i] {
            Some(m) => if o.apply_table_element_attributes && listed(table, doc[i].name) { table_writes(m, map) } else { empty },
            None => empty,
        };
        assert(apply_writes(doc[i].attributes, empty) == doc[i].attributes);
        assert(widths.len() == doc.len());
        assert(widths[i].name == doc[i].name && widths[i].style == styled[i].style);
        assert(widths[i].attributes == apply_writes(doc[i].attributes, w1));
        assert(heights.len() == doc.len());
        assert(heights[i].name == doc[i].name && heights[i].style == styled[i].style);
        assert(apply_writes(widths[i].attributes, empty) == widths[i].attributes);
        assert(heights[i].attributes == apply_writes(widths[i].attributes, w2));
        assert(tables.len() == doc.len());
        assert(tables[i].name == doc[i].name && tables[i].style == styled[i].style);
        assert(apply_writes(heights[i].attributes, empty) == heights[i].attributes);
        assert(tables[i].attributes == apply_writes(heights[i].attributes, w3));
        lemma_apply_writes_append(doc[i].attributes, w1, w2);
        lemma_apply_writes_append(doc[i].attributes, w1 + w2, w3);
        match index[i] {
            Some(m) => {
                assert(run_writes(doc[i], index[i], o, s) == w1 + w2 + w3);
            },
            None => {
                assert(w1 + w2 + w3 =~= empty);
                assert(run_writes(doc[i], index[i], o, s) == w1 + w2 + w3);
            },
        }
        assert(fin[i].name == tables[i].name && fin[i].style == tables[i].style && fin[i].attributes == tables[i].attributes);
    }
}

} // verus!
