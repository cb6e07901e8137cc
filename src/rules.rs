//! The rules of a parsed style sheet, and what is collected from them.

use vstd::prelude::*;

use crate::declarations::{Decl, DeclarationBlock, string_views, without_properties};

verus! {

/// A top-level rule of a parsed style sheet.
#[derive(Clone, Debug)]
pub enum CssRule {
    /// A style rule: its selector list as text, and its declarations.
    Style { selectors: String, block: DeclarationBlock },
    /// An `@media` rule, as its own CSS text.
    Media(String),
    /// An `@font-face` rule, as its own CSS text.
    FontFace(String),
    /// Any other kind of rule, which is not inlined.
    Other,
}

/// Data collected from the style sheet.
#[derive(Clone, Debug)]
pub struct Rules {
    /// Style rules: selector text and declarations, in sheet order.
    pub style: Vec<(String, DeclarationBlock)>,
    /// `@media` rules, as text.
    pub media: Vec<String>,
    /// `@font-face` rules, as text.
    pub font_face: Vec<String>,
}

/// Collected rules as the contracts see them.
pub struct RulesView {
    pub style: Seq<(Seq<char>, Seq<Decl>)>,
    pub media: Seq<Seq<char>>,
    pub font_face: Seq<Seq<char>>,
}

/// The views of a sequence of style rules.
pub open spec fn style_views(s: Seq<(String, DeclarationBlock)>) -> Seq<(Seq<char>, Seq<Decl>)> {
    s.map_values(|r: (String, DeclarationBlock)| (r.0@, r.1@))
}

impl View for Rules {
    type V = RulesView;

    open spec fn view(&self) -> RulesView {
        RulesView {
            style: style_views(self.style@),
            media: string_views(self.media@),
            font_face: string_views(self.font_face@),
        }
    }
}

/// What one pass over `sheet` collects: each style rule with the `excluded` properties taken
/// out, and the text of each `@media` and `@font-face` rule where it is preserved; other rules
/// are passed over. Order is kept.
pub open spec fn collected(
    sheet: Seq<CssRule>,
    excluded: Seq<Seq<char>>,
    preserve_media: bool,
    preserve_font_faces: bool,
) -> RulesView
    decreases sheet.len(),
{
    if sheet.len() == 0 {
        RulesView { style: Seq::empty(), media: Seq::empty(), font_face: Seq::empty() }
    } else {
        let prev = collected(sheet.drop_last(), excluded, preserve_media, preserve_font_faces);
        match sheet.last() {
            CssRule::Style { selectors, block } => RulesView {
                style: prev.style.push((selectors@, without_properties(block@, excluded))),
                ..prev
            },
            CssRule::Media(t) => if preserve_media {
                RulesView { media: prev.media.push(t@), ..prev }
            } else {
                prev
            },
            CssRule::FontFace(t) => if preserve_font_faces {
                RulesView { font_face: prev.font_face.push(t@), ..prev }
            } else {
                prev
            },
            CssRule::Other => prev,
        }
    }
}

impl Default for Rules {
    fn default() -> (r: Self)
        ensures
            r@.style.len() == 0,
            r@.media.len() == 0,
            r@.font_face.len() == 0,
    {
        Rules { style: Vec::new(), media: Vec::new(), font_face: Vec::new() }
    }
}

/// Collects the rules of `sheet` in one pass, as `collected` says.
pub fn collect(
    sheet: &Vec<CssRule>,
    excluded_properties: &Vec<String>,
    preserve_media_queries: bool,
    preserve_font_faces: bool,
) -> (r: Rules)
    ensures
        r@ == collected(
            sheet@,
            string_views(excluded_properties@),
            preserve_media_queries,
            preserve_font_faces,
        ),
{
    let ghost excluded = string_views(excluded_properties@);
    let mut r = Rules { style: Vec::new(), media: Vec::new(), font_face: Vec::new() };
    assert(style_views(r.style@) =~= Seq::<(Seq<char>, Seq<Decl>)>::empty());
    assert(string_views(r.media@) =~= Seq::<Seq<char>>::empty());
    assert(string_views(r.font_face@) =~= Seq::<Seq<char>>::empty());
    let n = sheet.len();
    let mut i: usize = 0;
    while i < n
        invariant
            n == sheet@.len(),
            i <= n,
            excluded == string_views(excluded_properties@),
            r@ == collected(
                sheet@.subrange(0, i as int),
                excluded,
                preserve_media_queries,
                preserve_font_faces,
            ),
        decreases n - i,
    {
        let ghost before = r@;
        assert(sheet@.subrange(0, i + 1).drop_last() =~= sheet@.subrange(0, i as int));
        assert(sheet@.subrange(0, i + 1).last() == sheet@[i as int]);
        match &sheet[i] {
            CssRule::Style { selectors, block } => {
                let mut kept = block.duplicate();
                kept.remove_excluded_properties(excluded_properties);
                r.style.push((selectors.clone(), kept));
                assert(r@.style =~= before.style.push((selectors@, without_properties(block@, excluded))));
            },
            CssRule::Media(t) => {
                if preserve_media_queries {
                    r.media.push(t.clone());
                    assert(r@.media =~= before.media.push(t@));
                }
            },
            CssRule::FontFace(t) => {
                if preserve_font_faces {
                    r.font_face.push(t.clone());
                    assert(r@.font_face =~= before.font_face.push(t@));
                }
            },
            CssRule::Other => {},
        }
        i += 1;
    }
    assert(sheet@.subrange(0, n as int) =~= sheet@);
    r
}

} // verus!
