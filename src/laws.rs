//! Properties of the cascade that hold for every input.

use vstd::prelude::*;

use crate::cascade::{listed, merge_ids, merge_rules, merged_index, empty_index, written_styles};
use crate::declarations::{Decl, lemma_position_of, lookup, push_decl, without_importance};
use crate::document::{ElementView, selected};
use crate::eyeliner::inlined;
use crate::options::ConcreteOptions;
use crate::rules::{CssRule, collected};
use crate::settings::{ConcreteSettings, default_settings, default_style_to_attribute};
use crate::declarations::{pair_views, string_views};
use crate::attributes::{with_size_attributes, with_table_attributes};
use crate::preserved::{insertion_point, lemma_insertion_point_bounds, preserved_text, with_preserved_css};
use crate::declarations::unique_properties;
use crate::document::value_of;
use crate::attributes::table_writes;
use crate::rerun::{
    last_write,
    lemma_value_after_writes,
    folded,
    lemma_extend_lookup,
    lemma_folded,
    lemma_extend_again,
    lemma_inlined_at,
    lemma_merge_rules_at,
    lemma_writes_again,
    rules_contribution,
    rules_reach,
    run_index,
    run_writes,
};
use crate::text::has_pseudo_marker;

verus! {

/// A declaration pushed after another of the same property takes its place, unless the one
/// held is important and the new one is not: the last rule to declare a property wins.
pub proof fn law_later_declaration_wins(s: Seq<Decl>, d: Decl)
    requires
        d.important || !(lookup(s, d.property) matches Some(e) && e.important),
    ensures
        lookup(push_decl(s, d), d.property) == Some(d),
{
    lemma_position_of(s, d.property);
    let r = push_decl(s, d);
    lemma_position_of(r, d.property);
    let i = crate::declarations::position_of(s, d.property);
    if i < 0 {
        crate::declarations::lemma_first_position(r, d.property, s.len() as int);
    } else {
        crate::declarations::lemma_first_position(r, d.property, i);
    }
}

/// An important declaration is kept against a later declaration of its property that is not
/// important.
pub proof fn law_important_sticks(s: Seq<Decl>, d: Decl)
    requires
        !d.important,
        lookup(s, d.property) matches Some(e) && e.important,
    ensures
        push_decl(s, d) == s,
        lookup(push_decl(s, d), d.property) == lookup(s, d.property),
{
}

/// Clearing the important flags keeps every value where it was.
pub proof fn law_clearing_importance_keeps_values(s: Seq<Decl>, i: int)
    requires
        0 <= i < s.len(),
    ensures
        without_importance(s)[i].property == s[i].property,
        without_importance(s)[i].value == s[i].value,
        !without_importance(s)[i].important,
{
}

/// Pushing onto the elements of `ids` leaves a non-visual element's entry as it was.
proof fn lemma_merge_ids_skips(
    doc: Seq<ElementView>,
    index: Seq<Option<Seq<Decl>>>,
    ids: Seq<usize>,
    decls: Seq<Decl>,
    non_visual: Seq<Seq<char>>,
    i: int,
)
    requires
        0 <= i < doc.len(),
        index.len() == doc.len(),
        listed(non_visual, doc[i].name),
    ensures
        merge_ids(doc, index, ids, decls, non_visual).len() == index.len(),
        merge_ids(doc, index, ids, decls, non_visual)[i] == index[i],
    decreases ids.len(),
{
    if ids.len() > 0 {
        lemma_merge_ids_skips(doc, index, ids.drop_last(), decls, non_visual, i);
    }
}

/// The rules leave a non-visual element's entry as it was.
proof fn lemma_merge_rules_skips(
    doc: Seq<ElementView>,
    index: Seq<Option<Seq<Decl>>>,
    rules: Seq<(Seq<char>, Seq<Decl>)>,
    sel: Seq<(Seq<char>, Option<Seq<usize>>)>,
    non_visual: Seq<Seq<char>>,
    i: int,
)
    requires
        0 <= i < doc.len(),
        index.len() == doc.len(),
        listed(non_visual, doc[i].name),
    ensures
        merge_rules(doc, index, rules, sel, non_visual).len() == index.len(),
        merge_rules(doc, index, rules, sel, non_visual)[i] == index[i],
    decreases rules.len(),
{
    if rules.len() > 0 {
        lemma_merge_rules_skips(doc, index, rules.drop_last(), sel, non_visual, i);
        let prev = merge_rules(doc, index, rules.drop_last(), sel, non_visual);
        lemma_merge_ids_skips(doc, prev, selected(sel, rules.last().0), rules.last().1, non_visual, i);
    }
}

/// A non-visual element never enters the index, and a whole run leaves its style as it was,
/// whatever rules match it.
pub proof fn law_non_visual_untouched(
    doc: Seq<ElementView>,
    sheet: Seq<CssRule>,
    sel: Seq<(Seq<char>, Option<Seq<usize>>)>,
    o: ConcreteOptions,
    s: ConcreteSettings,
    i: int,
)
    requires
        0 <= i < doc.len(),
        listed(string_views(s.non_visual_elements@), doc[i].name),
    ensures
        merged_index(
            doc,
            collected(sheet, string_views(s.excluded_properties@), o.preserve_media_queries, o.preserve_font_faces).style,
            sel,
            string_views(s.non_visual_elements@),
        )[i] is None,
        inlined(doc, sheet, sel, o, s)[i].style == doc[i].style,
        inlined(doc, sheet, sel, o, s)[i].name == doc[i].name,
{
    let rules = collected(sheet, string_views(s.excluded_properties@), o.preserve_media_queries, o.preserve_font_faces);
    let nv = string_views(s.non_visual_elements@);
    lemma_merge_rules_skips(doc, empty_index(doc.len()), rules.style, sel, nv, i);
    let index = merged_index(doc, rules.style, sel, nv);
    let table = string_views(s.table_elements@);
    let styled = written_styles(doc, index, o.preserve_important);
    assert(styled[i] == doc[i]);
    let widths = if o.apply_width_attributes {
        with_size_attributes(styled, index, "width"@, table)
    } else {
        styled
    };
    assert(widths.len() == doc.len());
    assert(widths[i].style == doc[i].style && widths[i].name == doc[i].name);
    let heights = if o.apply_height_attributes {
        with_size_attributes(widths, index, "height"@, table)
    } else {
        widths
    };
    assert(heights.len() == doc.len());
    assert(heights[i].style == doc[i].style && heights[i].name == doc[i].name);
    let tables = if o.apply_table_element_attributes {
        with_table_attributes(heights, index, table, pair_views(s.style_to_attribute@))
    } else {
        heights
    };
    assert(tables.len() == doc.len());
    assert(tables[i].style == doc[i].style && tables[i].name == doc[i].name);
    let point = insertion_point(doc.len(), string_views(o.insert_preserved_css@), sel);
    lemma_insertion_point_bounds(doc.len(), string_views(o.insert_preserved_css@), sel);
    let fin = with_preserved_css(tables, point, preserved_text(rules.font_face, rules.media));
    reveal(inlined);
    assert(fin == inlined(doc, sheet, sel, o, s));
    if let Some(p) = point {
        if p == i {
            assert(fin[i].style == doc[i].style);
        }
    }
    assert(fin[i].style == doc[i].style && fin[i].name == doc[i].name);
}

/// A style rule whose selector holds a pseudo-class or pseudo-element marker (`:` or `::` outside
/// attribute brackets) changes no merged set, wherever it stands among the rules.
pub proof fn law_pseudo_selector_skipped(
    doc: Seq<ElementView>,
    index: Seq<Option<Seq<Decl>>>,
    before: Seq<(Seq<char>, Seq<Decl>)>,
    rule: (Seq<char>, Seq<Decl>),
    after: Seq<(Seq<char>, Seq<Decl>)>,
    sel: Seq<(Seq<char>, Option<Seq<usize>>)>,
    non_visual: Seq<Seq<char>>,
)
    requires
        has_pseudo_marker(rule.0),
    ensures
        merge_rules(doc, index, before.push(rule) + after, sel, non_visual) == merge_rules(
            doc,
            index,
            before + after,
            sel,
            non_visual,
        ),
    decreases after.len(),
{
    if after.len() == 0 {
        assert(before.push(rule) + after =~= before.push(rule));
        assert(before.push(rule).drop_last() =~= before);
        assert(before + after =~= before);
    } else {
        law_pseudo_selector_skipped(doc, index, before, rule, after.drop_last(), sel, non_visual);
        assert((before.push(rule) + after).drop_last() =~= before.push(rule) + after.drop_last());
        assert((before + after).drop_last() =~= before + after.drop_last());
        assert((before.push(rule) + after).last() == after.last());
        assert((before + after).last() == after.last());
    }
}

/// What the cascade leaves for a property of a visual element that some rule reaches: the
/// declarations pushed onto it are those of the matching rules in source order
/// (`rules_contribution`), and the value is `folded` from the element's inline value: the last
/// important declaration wins; failing one, an important inline value stays; failing that, the
/// last declaration wins, whatever the selectors' specificity. Clearing the flags afterwards keeps
/// that value.
pub proof fn law_cascade_precedence(
    doc: Seq<ElementView>,
    rules: Seq<(Seq<char>, Seq<Decl>)>,
    sel: Seq<(Seq<char>, Option<Seq<usize>>)>,
    non_visual: Seq<Seq<char>>,
    i: int,
    p: Seq<char>,
)
    requires
        0 <= i < doc.len(),
        !listed(non_visual, doc[i].name),
        rules_reach(rules, sel, i),
    ensures
        merged_index(doc, rules, sel, non_visual)[i] matches Some(m) && lookup(m, p) == folded(
            lookup(doc[i].style, p),
            rules_contribution(rules, sel, i),
            p,
        ),
        written_styles(doc, merged_index(doc, rules, sel, non_visual), false)[i].style
            == without_importance(merged_index(doc, rules, sel, non_visual)[i]->Some_0),
{
    lemma_merge_rules_at(doc, empty_index(doc.len()), rules, sel, non_visual, i);
    let c = rules_contribution(rules, sel, i);
    lemma_extend_lookup(doc[i].style, c, p);
    lemma_folded(lookup(doc[i].style, p), c, p);
}

/// The last write to attribute `a` among the table writes of `m` is the value of `d`, where `d`
/// is the one declaration of `m` whose property maps to `a`.
proof fn lemma_table_write_of(
    m: Seq<Decl>,
    map: Seq<(Seq<char>, Seq<char>)>,
    d: Decl,
    k: int,
    a: Seq<char>,
)
    requires
        unique_properties(m),
        0 <= k < m.len(),
        m[k] == d,
        value_of(map, d.property) == Some(a),
        forall|j: int| 0 <= j < m.len() && j != k ==> value_of(map, (#[trigger] m[j]).property) != Some(a),
    ensures
        last_write(table_writes(m, map), a) == Some(d.value),
    decreases m.len(),
{
    let rest = m.drop_last();
    let prev = table_writes(rest, map);
    if k == m.len() - 1 {
        assert(table_writes(m, map) == prev.push((a, d.value)));
    } else {
        assert(m.last() == m[m.len() - 1]);
        assert(value_of(map, m[m.len() - 1].property) != Some(a));
        assert forall|x: int, y: int| 0 <= x < rest.len() && 0 <= y < rest.len() && x != y implies #[trigger] rest[x].property
            != #[trigger] rest[y].property by {
            assert(m[x].property != m[y].property);
        }
        assert forall|j: int| 0 <= j < rest.len() && j != k implies value_of(map, (#[trigger] rest[j]).property) != Some(a) by {
            assert(rest[j] == m[j]);
        }
        lemma_table_write_of(rest, map, d, k, a);
        match value_of(map, m.last().property) {
            Some(b) => {
                assert(table_writes(m, map) == prev.push((b, m.last().value)));
                assert(b != a);
                assert(prev.push((b, m.last().value)).drop_last() =~= prev);
            },
            None => {
                assert(table_writes(m, map) == prev);
            },
        }
    }
}

/// On a table element whose merged set declares a property that the property-to-attribute table
/// maps to attribute `a` (say `background-color` to `bgcolor`), and where no other property of
/// the set maps to `a`, the table stage writes `a` with that declaration's value as it is.
pub proof fn law_table_attribute_written(
    doc: Seq<ElementView>,
    index: Seq<Option<Seq<Decl>>>,
    table_elements: Seq<Seq<char>>,
    map: Seq<(Seq<char>, Seq<char>)>,
    i: int,
    k: int,
    a: Seq<char>,
)
    requires
        0 <= i < doc.len(),
        i < index.len(),
        listed(table_elements, doc[i].name),
        index[i] matches Some(m) && {
            &&& unique_properties(m)
            &&& 0 <= k < m.len()
            &&& value_of(map, m[k].property) == Some(a)
            &&& forall|j: int| 0 <= j < m.len() && j != k ==> value_of(map, (#[trigger] m[j]).property) != Some(a)
        },
    ensures
        value_of(with_table_attributes(doc, index, table_elements, map)[i].attributes, a)
            == Some(index[i]->Some_0[k].value),
{
    let m = index[i]->Some_0;
    lemma_table_write_of(m, map, m[k], k, a);
    lemma_value_after_writes(doc[i].attributes, table_writes(m, map), a);
}

/// In the default property-to-attribute table, `background-color` is the one property that
/// becomes `bgcolor`.
proof fn lemma_default_bgcolor(p: Seq<char>)
    ensures
        (value_of(default_style_to_attribute(), p) == Some("bgcolor"@)) == (p == "background-color"@),
{
    reveal_strlit("bgcolor");
    reveal_strlit("background");
    reveal_strlit("align");
    reveal_strlit("valign");
    reveal_strlit("background-color");
    let t = default_style_to_attribute();
    reveal_with_fuel(crate::document::key_position, 5);
    assert(t.drop_last().drop_last().drop_last().drop_last() =~= Seq::<(Seq<char>, Seq<char>)>::empty());
    assert("bgcolor"@.len() != "background"@.len());
    assert("bgcolor"@.len() != "align"@.len());
    assert("bgcolor"@.len() != "valign"@.len());
}

/// With the default settings, a table element whose merged set declares `background-color`
/// gets a `bgcolor` attribute with that value as it is.
pub proof fn law_default_bgcolor(
    doc: Seq<ElementView>,
    index: Seq<Option<Seq<Decl>>>,
    s: ConcreteSettings,
    i: int,
    k: int,
)
    requires
        default_settings(s),
        0 <= i < doc.len(),
        i < index.len(),
        listed(string_views(s.table_elements@), doc[i].name),
        index[i] matches Some(m) && unique_properties(m) && 0 <= k < m.len() && m[k].property
            == "background-color"@,
    ensures
        value_of(
            with_table_attributes(doc, index, string_views(s.table_elements@), pair_views(s.style_to_attribute@))[i].attributes,
            "bgcolor"@,
        ) == Some(index[i]->Some_0[k].value),
{
    let m = index[i]->Some_0;
    let map = pair_views(s.style_to_attribute@);
    lemma_default_bgcolor(m[k].property);
    assert forall|j: int| 0 <= j < m.len() && j != k implies value_of(map, (#[trigger] m[j]).property) != Some("bgcolor"@) by {
        lemma_default_bgcolor(m[j].property);
        assert(m[j].property != m[k].property);
    }
    law_table_attribute_written(doc, index, string_views(s.table_elements@), map, i, k, "bgcolor"@);
}

/// Each inline style of the document holds every property at most once.
pub open spec fn styles_well_formed(doc: Seq<ElementView>) -> bool {
    forall|i: int| 0 <= i < doc.len() ==> unique_properties(#[trigger] doc[i].style)
}

/// No inline declaration of the document is important.
pub open spec fn no_important_inline(doc: Seq<ElementView>) -> bool {
    forall|i: int, j: int|
        0 <= i < doc.len() && 0 <= j < doc[i].style.len() ==> !(#[trigger] doc[i].style[j]).important
}

/// Running the whole pipeline again on its own output, with the same style sheet, selector
/// matches, options and settings, changes no attribute's value and no inline style: a unit
/// stripped once stays stripped. Where important flags are not preserved this needs the input's
/// inline styles to hold nothing important, since such a value loses its flag in the first run
/// and a rule may then override it in the second.
pub proof fn law_second_run_changes_no_attribute(
    doc: Seq<ElementView>,
    sheet: Seq<CssRule>,
    sel: Seq<(Seq<char>, Option<Seq<usize>>)>,
    o: ConcreteOptions,
    s: ConcreteSettings,
)
    requires
        styles_well_formed(doc),
        o.preserve_important || no_important_inline(doc),
    ensures
        ({
            let once = inlined(doc, sheet, sel, o, s);
            let twice = inlined(once, sheet, sel, o, s);
            &&& twice.len() == once.len()
            &&& forall|i: int, n: Seq<char>|
                0 <= i < once.len() ==> #[trigger] value_of(twice[i].attributes, n) == value_of(
                    once[i].attributes,
                    n,
                )
            &&& forall|i: int| 0 <= i < once.len() ==> #[trigger] twice[i].style == once[i].style
        }),
{
    let once = inlined(doc, sheet, sel, o, s);
    let twice = inlined(once, sheet, sel, o, s);
    let rules = collected(sheet, string_views(s.excluded_properties@), o.preserve_media_queries, o.preserve_font_faces).style;
    let nv = string_views(s.non_visual_elements@);
    let i1 = run_index(doc, sheet, sel, o, s);
    let i2 = run_index(once, sheet, sel, o, s);
    lemma_inlined_at(doc, sheet, sel, o, s, 0);
    lemma_inlined_at(once, sheet, sel, o, s, 0);
    assert forall|i: int| 0 <= i < doc.len() implies #[trigger] i2[i] == i1[i] && once[i].name == doc[i].name
        && once[i].style == written_styles(doc, i1, o.preserve_important)[i].style by {
        lemma_inlined_at(doc, sheet, sel, o, s, i);
        if listed(nv, doc[i].name) {
            lemma_merge_rules_skips(doc, empty_index(doc.len()), rules, sel, nv, i);
            lemma_merge_rules_skips(once, empty_index(once.len()), rules, sel, nv, i);
        } else {
            lemma_merge_rules_at(doc, empty_index(doc.len()), rules, sel, nv, i);
            lemma_merge_rules_at(once, empty_index(once.len()), rules, sel, nv, i);
            if rules_reach(rules, sel, i) {
                lemma_extend_again(doc[i].style, rules_contribution(rules, sel, i), o.preserve_important);
            }
        }
    }
    assert forall|i: int, n: Seq<char>| 0 <= i < once.len() implies #[trigger] value_of(twice[i].attributes, n)
        == value_of(once[i].attributes, n) by {
        lemma_inlined_at(doc, sheet, sel, o, s, i);
        lemma_inlined_at(once, sheet, sel, o, s, i);
        assert(i2[i] == i1[i]);
        assert(run_writes(once[i], i2[i], o, s) == run_writes(doc[i], i1[i], o, s));
        lemma_writes_again(doc[i].attributes, run_writes(doc[i], i1[i], o, s), n);
    }
    assert forall|i: int| 0 <= i < once.len() implies #[trigger] twice[i].style == once[i].style by {
        lemma_inlined_at(doc, sheet, sel, o, s, i);
        lemma_inlined_at(once, sheet, sel, o, s, i);
        assert(i2[i] == i1[i]);
    }
}

} // verus!
