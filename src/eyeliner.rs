//! One run over a document: collect, merge, derive attributes, reinsert preserved CSS.

use vstd::prelude::*;

use crate::attributes::{apply_size_attributes, apply_table_attributes, with_size_attributes, with_table_attributes};
use crate::cascade::{index_views, merge, merged_index, written_styles};
use crate::declarations::{DeclarationBlock, pair_views, string_views};
use crate::document::{Document, ElementView, Selections};
use crate::options::{AbstractOptions, ConcreteOptions, default_options, resolves_options};
use crate::preserved::{insert_preserved, insertion_point, preserved_text, with_preserved_css};
use crate::rules::{CssRule, Rules, RulesView, collect, collected};
use crate::settings::{AbstractSettings, ConcreteSettings, default_settings, resolves_settings};
use crate::traits::{
    ApplyAttributes,
    ApplyHeightAttributes,
    ApplyRules,
    ApplyTableElementAttributes,
    ApplyWidthAttributes,
    CollectRules,
    InsertPreservedCss,
};

verus! {

/// `o` is what the caller's options resolve to.
pub open spec fn given_options(options: Option<AbstractOptions>, o: ConcreteOptions) -> bool {
    match options {
        Some(a) => resolves_options(a, o),
        None => default_options(o),
    }
}

/// `s` is what the caller's settings resolve to.
pub open spec fn given_settings(settings: Option<AbstractSettings>, s: ConcreteSettings) -> bool {
    match settings {
        Some(a) => resolves_settings(a, s),
        None => default_settings(s),
    }
}

/// The document after a whole run with options `o` and settings `s`.
#[verifier::opaque]
pub open spec fn inlined(
    doc: Seq<ElementView>,
    sheet: Seq<CssRule>,
    sel: Seq<(Seq<char>, Option<Seq<usize>>)>,
    o: ConcreteOptions,
    s: ConcreteSettings,
) -> Seq<ElementView> {
    let rules = collected(
        sheet,
        string_views(s.excluded_properties@),
        o.preserve_media_queries,
        o.preserve_font_faces,
    );
    let index = merged_index(doc, rules.style, sel, string_views(s.non_visual_elements@));
    let table = string_views(s.table_elements@);
    let styled = written_styles(doc, index, o.preserve_important);
    let widths = if o.apply_width_attributes {
        with_size_attributes(styled, index, "width"@, table)
    } else {
        styled
    };
    let heights = if o.apply_height_attributes {
        with_size_attributes(widths, index, "height"@, table)
    } else {
        widths
    };
    let tables = if o.apply_table_element_attributes {
        with_table_attributes(heights, index, table, pair_views(s.style_to_attribute@))
    } else {
        heights
    };
    with_preserved_css(
        tables,
        insertion_point(doc.len(), string_views(o.insert_preserved_css@), sel),
        preserved_text(rules.font_face, rules.media),
    )
}

/// The state of one run: the document, the parsed style sheet, the selector engine's answers
/// over the document, the configuration, and what the stages produce.
#[derive(Clone, Debug)]
pub struct Eyeliner {
    /// The document's elements.
    pub document: Document,
    /// The parsed style sheet.
    pub stylesheet: Vec<CssRule>,
    /// The matches of each selector that the run asks for.
    pub selections: Selections,
    /// Options for ways to modify the document.
    pub options: ConcreteOptions,
    /// Settings referenced by features enabled through options.
    pub settings: ConcreteSettings,
    /// The merged declaration set of each element by index; `None` for an element no rule
    /// reached.
    pub node_style_map: Vec<Option<DeclarationBlock>>,
    /// Data collected from the style sheet.
    pub rules: Rules,
}

/// `a` and `b` have the same input and configuration.
pub open spec fn same_setup(a: Eyeliner, b: Eyeliner) -> bool {
    &&& a.stylesheet == b.stylesheet
    &&& a.selections == b.selections
    &&& a.options == b.options
    &&& a.settings == b.settings
}

impl Eyeliner {
    /// A run over `document` and `stylesheet`, with options and settings resolved from those
    /// given; nothing is collected or merged yet.
    pub fn new(
        document: Document,
        stylesheet: Vec<CssRule>,
        selections: Selections,
        options: Option<AbstractOptions>,
        settings: Option<AbstractSettings>,
    ) -> (r: Self)
        ensures
            r.document == document,
            r.stylesheet == stylesheet,
            r.selections == selections,
            given_options(options, r.options),
            given_settings(settings, r.settings),
            r.node_style_map@.len() == 0,
            r.rules@.style.len() == 0,
            r.rules@.media.len() == 0,
            r.rules@.font_face.len() == 0,
    {
        let options = match options {
            Some(o) => ConcreteOptions::from(o),
            None => ConcreteOptions::default(),
        };
        let settings = match settings {
            Some(s) => ConcreteSettings::from(s),
            None => ConcreteSettings::default(),
        };
        Eyeliner {
            document,
            stylesheet,
            selections,
            options,
            settings,
            node_style_map: Vec::new(),
            rules: Rules::default(),
        }
    }
}

impl CollectRules for Eyeliner {
    /// Collects the style sheet's rules once, in order, after those already collected: style
    /// rules without the excluded properties, and the text of `@media` and `@font-face` rules
    /// where the options preserve them.
    fn collect_rules(&mut self)
        ensures
            same_setup(*final(self), *old(self)),
            final(self).document == old(self).document,
            final(self).node_style_map == old(self).node_style_map,
            ({
                let c = collected(
                    old(self).stylesheet@,
                    string_views(old(self).settings.excluded_properties@),
                    old(self).options.preserve_media_queries,
                    old(self).options.preserve_font_faces,
                );
                final(self).rules@ == (RulesView {
                    style: old(self).rules@.style + c.style,
                    media: old(self).rules@.media + c.media,
                    font_face: old(self).rules@.font_face + c.font_face,
                })
            }),
    {
        let ghost before = self.rules@;
        let mut c = collect(
            &self.stylesheet,
            &self.settings.excluded_properties,
            self.options.preserve_media_queries,
            self.options.preserve_font_faces,
        );
        let ghost cv = c@;
        self.rules.style.append(&mut c.style);
        self.rules.media.append(&mut c.media);
        self.rules.font_face.append(&mut c.font_face);
        assert(self.rules@.style =~= before.style + cv.style);
        assert(self.rules@.media =~= before.media + cv.media);
        assert(self.rules@.font_face =~= before.font_face + cv.font_face);
    }
}

impl ApplyRules for Eyeliner {
    /// Merges the collected style rules into one set per element, as `merged_index` says, and
    /// writes each merged set as its element's style, with the important flags cleared unless
    /// the options preserve them.
    fn apply_rules(&mut self)
        ensures
            same_setup(*final(self), *old(self)),
            final(self).rules == old(self).rules,
            index_views(final(self).node_style_map@) == merged_index(
                old(self).document@,
                old(self).rules@.style,
                old(self).selections@,
                string_views(old(self).settings.non_visual_elements@),
            ),
            final(self).document@ == written_styles(
                old(self).document@,
                index_views(final(self).node_style_map@),
                old(self).options.preserve_important,
            ),
    {
        let index = merge(
            &self.document,
            &self.rules.style,
            &self.selections,
            &self.settings.non_visual_elements,
        );
        let ghost doc = self.document@;
        let ghost target = written_styles(doc, index_views(index@), self.options.preserve_important);
        let n = self.document.elements.len();
        let mut k: usize = 0;
        while k < n
            invariant
                n == doc.len(),
                index@.len() == n,
                self.document.elements@.len() == n,
                target == written_styles(doc, index_views(index@), self.options.preserve_important),
                k <= n,
                same_setup(*self, *old(self)),
                self.rules == old(self).rules,
                forall|i: int| 0 <= i < k ==> #[trigger] self.document.elements@[i]@ == target[i],
                forall|i: int| k <= i < n ==> #[trigger] self.document.elements@[i]@ == doc[i],
            decreases n - k,
        {
            assert(self.document.elements@[k as int]@ == doc[k as int]);
            if let Some(merged) = &index[k] {
                assert(index_views(index@)[k as int] == Some(merged@));
                let mut style = merged.duplicate();
                if !self.options.preserve_important {
                    style.remove_importance();
                }
                let ghost sv = style@;
                self.document.elements[k].style = style;
                assert(self.document.elements@[k as int]@ == (ElementView { style: sv, ..doc[k as int] }));
            }
            assert(self.document.elements@[k as int]@ == target[k as int]);
            k += 1;
        }
        assert(self.document@ =~= target);
        self.node_style_map = index;
    }
}

impl ApplyAttributes for Eyeliner {
    /// Derives attribute `property` from the merged sets, as `with_size_attributes` says.
    fn apply_attributes(&mut self, property: &str)
        ensures
            same_setup(*final(self), *old(self)),
            final(self).rules == old(self).rules,
            final(self).node_style_map == old(self).node_style_map,
            final(self).document@ == with_size_attributes(
                old(self).document@,
                index_views(old(self).node_style_map@),
                property@,
                string_views(old(self).settings.table_elements@),
            ),
    {
        apply_size_attributes(
            &mut self.document,
            &self.node_style_map,
            property,
            &self.settings.table_elements,
        );
    }
}

impl ApplyWidthAttributes for Eyeliner {
    /// Derives `width` attributes where the options ask for them.
    fn apply_width_attributes(&mut self)
        ensures
            same_setup(*final(self), *old(self)),
            final(self).rules == old(self).rules,
            final(self).node_style_map == old(self).node_style_map,
            final(self).document@ == if old(self).options.apply_width_attributes {
                with_size_attributes(
                    old(self).document@,
                    index_views(old(self).node_style_map@),
                    "width"@,
                    string_views(old(self).settings.table_elements@),
                )
            } else {
                old(self).document@
            },
    {
        if self.options.apply_width_attributes {
            self.apply_attributes("width");
        }
    }
}

impl ApplyHeightAttributes for Eyeliner {
    /// Derives `height` attributes where the options ask for them.
    fn apply_height_attributes(&mut self)
        ensures
            same_setup(*final(self), *old(self)),
            final(self).rules == old(self).rules,
            final(self).node_style_map == old(self).node_style_map,
            final(self).document@ == if old(self).options.apply_height_attributes {
                with_size_attributes(
                    old(self).document@,
                    index_views(old(self).node_style_map@),
                    "height"@,
                    string_views(old(self).settings.table_elements@),
                )
            } else {
                old(self).document@
            },
    {
        if self.options.apply_height_attributes {
            self.apply_attributes("height");
        }
    }
}

impl ApplyTableElementAttributes for Eyeliner {
    /// Derives the attributes of `style_to_attribute` on table elements where the options ask
    /// for them.
    fn apply_table_element_attributes(&mut self)
        ensures
            same_setup(*final(self), *old(self)),
            final(self).rules == old(self).rules,
            final(self).node_style_map == old(self).node_style_map,
            final(self).document@ == if old(self).options.apply_table_element_attributes {
                with_table_attributes(
                    old(self).document@,
                    index_views(old(self).node_style_map@),
                    string_views(old(self).settings.table_elements@),
                    pair_views(old(self).settings.style_to_attribute@),
                )
            } else {
                old(self).document@
            },
    {
        if self.options.apply_table_element_attributes {
            apply_table_attributes(
                &mut self.document,
                &self.node_style_map,
                &self.settings.table_elements,
                &self.settings.style_to_attribute,
            );
        }
    }
}

impl InsertPreservedCss for Eyeliner {
    /// Appends the preserved font faces and media rules as one block to the first element
    /// matched by the first insertion selector that matches one.
    fn insert_preserved_css(&mut self)
        ensures
            same_setup(*final(self), *old(self)),
            final(self).rules == old(self).rules,
            final(self).node_style_map == old(self).node_style_map,
            final(self).document@ == with_preserved_css(
                old(self).document@,
                insertion_point(
                    old(self).document@.len(),
                    string_views(old(self).options.insert_preserved_css@),
                    old(self).selections@,
                ),
                preserved_text(old(self).rules@.font_face, old(self).rules@.media),
            ),
    {
        insert_preserved(
            &mut self.document,
            &self.options.insert_preserved_css,
            &self.selections,
            &self.rules.font_face,
            &self.rules.media,
        );
    }
}

} // verus!
