//! Legacy presentational attributes derived from the merged styles.

use vstd::prelude::*;

use crate::cascade::{index_views, listed};
use crate::declarations::{Decl, DeclarationBlock, contains_string, lookup, pair_views, string_views};
use crate::document::{Document, ElementView, apply_writes, attribute_position, set_attribute, value_of};
use crate::text::{ends_with_percent, ends_with_px, has_percent_suffix, has_px_suffix, lowercase, strip_px, without_px};

verus! {

/// The write that the declaration of `property` in `merged` makes on element `e`: a pixel
/// value without its unit on any element, a percent value as it is on a table element, and
/// nothing for any other value or where `property` is not declared.
pub open spec fn size_writes(
    e: ElementView,
    merged: Seq<Decl>,
    property: Seq<char>,
    table_elements: Seq<Seq<char>>,
) -> Seq<(Seq<char>, Seq<char>)> {
    match lookup(merged, property) {
        None => Seq::empty(),
        Some(d) => if ends_with_px(d.value) {
            seq![(property, strip_px(d.value))]
        } else if ends_with_percent(d.value) && listed(table_elements, e.name) {
            seq![(property, d.value)]
        } else {
            Seq::empty()
        },
    }
}

/// The writes that the declarations of `merged` make through the property-to-attribute table
/// `map`, in declaration order; a property without an entry writes nothing.
pub open spec fn table_writes(
    merged: Seq<Decl>,
    map: Seq<(Seq<char>, Seq<char>)>,
) -> Seq<(Seq<char>, Seq<char>)>
    decreases merged.len(),
{
    if merged.len() == 0 {
        Seq::empty()
    } else {
        let prev = table_writes(merged.drop_last(), map);
        match value_of(map, merged.last().property) {
            Some(a) => prev.push((a, merged.last().value)),
            None => prev,
        }
    }
}

/// The document after the `property` attribute is derived on each indexed element.
pub open spec fn with_size_attributes(
    doc: Seq<ElementView>,
    index: Seq<Option<Seq<Decl>>>,
    property: Seq<char>,
    table_elements: Seq<Seq<char>>,
) -> Seq<ElementView> {
    Seq::new(
        doc.len(),
        |i: int|
            if i < index.len() && index[i] is Some {
                ElementView {
                    attributes: apply_writes(
                        doc[i].attributes,
                        size_writes(doc[i], index[i]->Some_0, property, table_elements),
                    ),
                    ..doc[i]
                }
            } else {
                doc[i]
            },
    )
}

/// The document after the table attributes are derived on each indexed table element.
pub open spec fn with_table_attributes(
    doc: Seq<ElementView>,
    index: Seq<Option<Seq<Decl>>>,
    table_elements: Seq<Seq<char>>,
    map: Seq<(Seq<char>, Seq<char>)>,
) -> Seq<ElementView> {
    Seq::new(
        doc.len(),
        |i: int|
            if i < index.len() && index[i] is Some && listed(table_elements, doc[i].name) {
                ElementView {
                    attributes: apply_writes(doc[i].attributes, table_writes(index[i]->Some_0, map)),
                    ..doc[i]
                }
            } else {
                doc[i]
            },
    )
}

/// A single write is a `set_attribute`.
pub proof fn lemma_single_write(s: Seq<(Seq<char>, Seq<char>)>, name: Seq<char>, value: Seq<char>)
    ensures
        apply_writes(s, seq![(name, value)]) == set_attribute(s, name, value),
{
    assert(seq![(name, value)].drop_last() =~= Seq::<(Seq<char>, Seq<char>)>::empty());
    assert(apply_writes(s, Seq::<(Seq<char>, Seq<char>)>::empty()) == s);
}

/// Derives attribute `property` (`width` or `height`) on every element of `index` whose merged
/// set declares it: a value in `px` is written without its unit, a value in `%` is written as it
/// is on an element listed in `table_elements`, any other value is left alone.
pub fn apply_size_attributes(
    document: &mut Document,
    index: &Vec<Option<DeclarationBlock>>,
    property: &str,
    table_elements: &Vec<String>,
)
    ensures
        final(document)@ == with_size_attributes(
            old(document)@,
            index_views(index@),
            property@,
            string_views(table_elements@),
        ),
{
    let ghost doc = old(document)@;
    let ghost target = with_size_attributes(doc, index_views(index@), property@, string_views(table_elements@));
    let n = document.elements.len();
    let mut k: usize = 0;
    while k < n
        invariant
            n == doc.len(),
            n == document@.len(),
            k <= n,
            target == with_size_attributes(doc, index_views(index@), property@, string_views(table_elements@)),
            n == document.elements@.len(),
            forall|i: int| 0 <= i < k ==> #[trigger] document.elements@[i]@ == target[i],
            forall|i: int| k <= i < n ==> #[trigger] document.elements@[i]@ == doc[i],
        decreases n - k,
    {
        if k < index.len() {
            if let Some(merged) = &index[k] {
                assert(index_views(index@)[k as int] == Some(merged@));
                if let Some(d) = merged.get(property) {
                    let ghost w = size_writes(doc[k as int], merged@, property@, string_views(table_elements@));
                    if has_px_suffix(d.value.as_str()) {
                        let v = without_px(d.value.as_str());
                        document.elements[k].set_attribute(String::from_str(property), v);
                        proof {
                            lemma_single_write(doc[k as int].attributes, property@, strip_px(d.value@));
                        }
                    } else if has_percent_suffix(d.value.as_str()) {
                        let lowered = lowercase(document.elements[k].name.as_str());
                        if contains_string(table_elements, &lowered) {
                            let v = d.value.clone();
                            document.elements[k].set_attribute(String::from_str(property), v);
                            proof {
                                lemma_single_write(doc[k as int].attributes, property@, d.value@);
                            }
                        }
                    }
                }
            }
        }
        assert(document.elements@[k as int]@ == target[k as int]);
        k += 1;
    }
    assert(document@ =~= target);
}

/// Derives, on every element of `index` listed in `table_elements`, the attribute that
/// `style_to_attribute` names for each property of its merged set, with the value as it is.
pub fn apply_table_attributes(
    document: &mut Document,
    index: &Vec<Option<DeclarationBlock>>,
    table_elements: &Vec<String>,
    style_to_attribute: &Vec<(String, String)>,
)
    ensures
        final(document)@ == with_table_attributes(
            old(document)@,
            index_views(index@),
            string_views(table_elements@),
            pair_views(style_to_attribute@),
        ),
{
    let ghost doc = old(document)@;
    let ghost map = pair_views(style_to_attribute@);
    let ghost target = with_table_attributes(doc, index_views(index@), string_views(table_elements@), map);
    let n = document.elements.len();
    let mut k: usize = 0;
    while k < n
        invariant
            n == doc.len(),
            n == document@.len(),
            k <= n,
            map == pair_views(style_to_attribute@),
            target == with_table_attributes(doc, index_views(index@), string_views(table_elements@), map),
            n == document.elements@.len(),
            forall|i: int| 0 <= i < k ==> #[trigger] document.elements@[i]@ == target[i],
            forall|i: int| k <= i < n ==> #[trigger] document.elements@[i]@ == doc[i],
        decreases n - k,
    {
        if k < index.len() {
            if let Some(merged) = &index[k] {
                assert(index_views(index@)[k as int] == Some(merged@));
                let lowered = lowercase(document.elements[k].name.as_str());
                if contains_string(table_elements, &lowered) {
                    let ghost start = document.elements@;
                    assert(document.elements@[k as int]@ == doc[k as int]);
                    assert(table_writes(merged@.subrange(0, 0), map) =~= Seq::<(Seq<char>, Seq<char>)>::empty());
                    let m = merged.declarations.len();
                    let mut j: usize = 0;
                    while j < m
                        invariant
                            m == merged@.len(),
                            j <= m,
                            n == document@.len(),
                            k < n,
                            map == pair_views(style_to_attribute@),
                            n == document.elements@.len(),
                            start.len() == n,
                            listed(string_views(table_elements@), doc[k as int].name),
                            index_views(index@)[k as int] == Some(merged@),
                            forall|i: int| 0 <= i < n && i != k ==> #[trigger] document.elements@[i] == start[i],
                            document.elements@[k as int]@ == (ElementView {
                                attributes: apply_writes(doc[k as int].attributes, table_writes(merged@.subrange(0, j as int), map)),
                                ..doc[k as int]
                            }),
                        decreases m - j,
                    {
                        let d = &merged.declarations[j];
                        assert(merged@[j as int] == d@);
                        assert(merged@.subrange(0, j + 1).drop_last() =~= merged@.subrange(0, j as int));
                        assert(merged@.subrange(0, j + 1).last() == d@);
                        let ghost prev = table_writes(merged@.subrange(0, j as int), map);
                        match attribute_position(style_to_attribute, d.property.as_str()) {
                            Some(p) => {
                                assert(map[p as int] == (style_to_attribute@[p as int].0@, style_to_attribute@[p as int].1@));
                                let name = style_to_attribute[p].1.clone();
                                document.elements[k].set_attribute(name, d.value.clone());
                                assert(prev.push((map[p as int].1, d.value@)).drop_last() =~= prev);
                            },
                            None => {},
                        }
                        assert(document.elements@[k as int]@ == (ElementView {
                            attributes: apply_writes(doc[k as int].attributes, table_writes(merged@.subrange(0, j + 1), map)),
                            ..doc[k as int]
                        }));
                        j += 1;
                    }
                    assert(merged@.subrange(0, m as int) =~= merged@);
                }
            }
        }
        assert(document.elements@[k as int]@ == target[k as int]);
        k += 1;
    }
    assert(document@ =~= target);
}

} // verus!
