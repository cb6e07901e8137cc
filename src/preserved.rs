//! Preserved `@media` and `@font-face` text put back into the document as one style block.

use vstd::prelude::*;

use crate::declarations::string_views;
use crate::document::{Document, ElementView, selected};

verus! {

/// The parts of `s` joined by line breaks.
pub open spec fn joined(s: Seq<Seq<char>>) -> Seq<char>
    decreases s.len(),
{
    if s.len() == 0 {
        Seq::empty()
    } else if s.len() == 1 {
        s[0]
    } else {
        joined(s.drop_last()) + seq!['\n'] + s.last()
    }
}

/// The text of the preserved block: the font faces, then the media rules, one per line.
pub open spec fn preserved_text(font_face: Seq<Seq<char>>, media: Seq<Seq<char>>) -> Seq<char> {
    joined(font_face + media)
}

/// The element the block goes to: the first element matched by the first of `points` that
/// matches one inside the document, if any.
pub open spec fn insertion_point(
    n: nat,
    points: Seq<Seq<char>>,
    sel: Seq<(Seq<char>, Option<Seq<usize>>)>,
) -> Option<int>
    decreases points.len(),
{
    if points.len() == 0 {
        None
    } else {
        let ids = selected(sel, points[0]);
        if ids.len() > 0 && (ids[0] as int) < n {
            Some(ids[0] as int)
        } else {
            insertion_point(n, points.drop_first(), sel)
        }
    }
}

/// The element chosen lies in the document.
pub proof fn lemma_insertion_point_bounds(
    n: nat,
    points: Seq<Seq<char>>,
    sel: Seq<(Seq<char>, Option<Seq<usize>>)>,
)
    ensures
        insertion_point(n, points, sel) matches Some(i) ==> 0 <= i < n,
    decreases points.len(),
{
    if points.len() > 0 {
        lemma_insertion_point_bounds(n, points.drop_first(), sel);
    }
}

/// The document with a block of `text` appended to the element at `point`, if any.
pub open spec fn with_preserved_css(
    doc: Seq<ElementView>,
    point: Option<int>,
    text: Seq<char>,
) -> Seq<ElementView> {
    match point {
        Some(i) => doc.update(i, ElementView { appended: doc[i].appended.push(text), ..doc[i] }),
        None => doc,
    }
}

/// The parts joined by line breaks.
pub fn join_lines(parts: &Vec<String>) -> (r: String)
    ensures
        r@ == joined(string_views(parts@)),
{
    let ghost s = string_views(parts@);
    let mut r = String::new();
    let n = parts.len();
    let mut i: usize = 0;
    while i < n
        invariant
            n == parts@.len(),
            s == string_views(parts@),
            i <= n,
            r@ == joined(s.subrange(0, i as int)),
        decreases n - i,
    {
        proof {
            reveal_strlit("\n");
        }
        if i > 0 {
            r.append("\n");
        }
        r.append(parts[i].as_str());
        assert(s.subrange(0, i + 1).drop_last() =~= s.subrange(0, i as int));
        assert(s[i as int] == parts@[i as int]@);
        assert(r@ =~= joined(s.subrange(0, i + 1)));
        i += 1;
    }
    assert(s.subrange(0, n as int) =~= s);
    r
}

/// Pushes a copy of each string of `more` onto `parts`.
fn append_copies(parts: &mut Vec<String>, more: &Vec<String>)
    ensures
        string_views(final(parts)@) == string_views(old(parts)@) + string_views(more@),
{
    let ghost start = string_views(parts@);
    let mut k: usize = 0;
    while k < more.len()
        invariant
            k <= more@.len(),
            start == string_views(old(parts)@),
            string_views(parts@) == start + string_views(more@).subrange(0, k as int),
        decreases more@.len() - k,
    {
        let ghost before = parts@;
        let copy = more[k].clone();
        assert(copy@ == more@[k as int]@);
        parts.push(copy);
        assert(parts@ == before.push(copy));
        assert(string_views(parts@) =~= string_views(before).push(copy@));
        assert(string_views(parts@) =~= start + string_views(more@).subrange(0, k + 1));
        k += 1;
    }
    assert(string_views(more@).subrange(0, more@.len() as int) =~= string_views(more@));
}

/// Appends one block holding the font faces and then the media rules, one per line, to the first
/// element matched by the first of `points` that matches an element; nothing is inserted where
/// none does.
pub fn insert_preserved(
    document: &mut Document,
    points: &Vec<String>,
    selections: &crate::document::Selections,
    font_face: &Vec<String>,
    media: &Vec<String>,
)
    ensures
        final(document)@ == with_preserved_css(
            old(document)@,
            insertion_point(old(document)@.len(), string_views(points@), selections@),
            preserved_text(string_views(font_face@), string_views(media@)),
        ),
{
    let ghost doc = old(document)@;
    let ghost all = string_views(points@);
    let n = document.elements.len();
    let c = points.len();
    let mut i: usize = 0;
    assert(all.subrange(0, c as int) =~= all);
    while i < c
        invariant
            c == all.len(),
            all == string_views(points@),
            n == doc.len(),
            doc == old(document)@,
            document@ == doc,
            document.elements@.len() == n,
            i <= c,
            insertion_point(n as nat, all, selections@) == insertion_point(
                n as nat,
                all.subrange(i as int, c as int),
                selections@,
            ),
        decreases c - i,
    {
        let ghost rest = all.subrange(i as int, c as int);
        assert(rest[0] == points@[i as int]@);
        assert(rest.drop_first() =~= all.subrange(i + 1, c as int));
        if let Some(ids) = selections.select(points[i].as_str()) {
            if ids.len() > 0 && ids[0] < n {
                let mut parts: Vec<String> = Vec::new();
                append_copies(&mut parts, font_face);
                append_copies(&mut parts, media);
                assert(string_views(parts@) =~= string_views(font_face@) + string_views(media@));
                let target = ids[0];
                let text = join_lines(&parts);
                assert(selected(selections@, rest[0]) == ids@);
                assert(insertion_point(n as nat, rest, selections@) == Some(target as int));
                let ghost t = text@;
                let ghost before = document.elements@[target as int];
                assert(before@ == doc[target as int]);
                document.elements[target].appended_styles.push(text);
                assert(string_views(document.elements@[target as int].appended_styles@) =~= string_views(before.appended_styles@).push(t));
                assert(document.elements@[target as int]@ == (ElementView { appended: doc[target as int].appended.push(t), ..doc[target as int] }));
                assert(document@ =~= with_preserved_css(
                    doc,
                    Some(target as int),
                    preserved_text(string_views(font_face@), string_views(media@)),
                ));
                return;
            }
        }
        i += 1;
    }
    assert(all.subrange(c as int, c as int).len() == 0);
}

} // verus!
