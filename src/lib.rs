//! Inlines the rules of a style sheet into the `style` attributes of a document's elements.

use vstd::prelude::*;

pub mod attributes;
pub mod cascade;
pub mod declarations;
pub mod document;
pub mod eyeliner;
pub mod laws;
pub mod options;
pub mod preserved;
pub mod rerun;
pub mod rules;
pub mod settings;
pub mod text;
pub mod traits;

use crate::document::{Document, Selections};
use crate::eyeliner::{Eyeliner, given_options, given_settings, inlined};
use crate::options::{AbstractOptions, ConcreteOptions};
use crate::rules::{CssRule, collected};
use crate::settings::{AbstractSettings, ConcreteSettings};
use crate::traits::{
    ApplyHeightAttributes,
    ApplyRules,
    ApplyTableElementAttributes,
    ApplyWidthAttributes,
    CollectRules,
    InsertPreservedCss,
};
use crate::declarations::string_views;

verus! {

/// Inlines `stylesheet` into `document`: the style rules are merged into each matching visual
/// element's style, `width`, `height` and table attributes are derived from the merged styles,
/// and preserved `@media` and `@font-face` rules are appended as one block at the first
/// insertion point found, each stage as the options ask. `selections` holds the matches of every
/// selector the stylesheet and the options name. Returns the document as `inlined` says, with
/// the options and settings resolved from those given.
pub fn inline(
    document: Document,
    stylesheet: Vec<CssRule>,
    selections: Selections,
    options: Option<AbstractOptions>,
    settings: Option<AbstractSettings>,
) -> (r: Document)
    ensures
        exists|o: ConcreteOptions, s: ConcreteSettings|
            given_options(options, o) && given_settings(settings, s) && r@ == inlined(
                document@,
                stylesheet@,
                selections@,
                o,
                s,
            ),
{
    let mut e = Eyeliner::new(document, stylesheet, selections, options, settings);
    let ghost o = e.options;
    let ghost s = e.settings;
    let ghost c = collected(
        e.stylesheet@,
        string_views(s.excluded_properties@),
        o.preserve_media_queries,
        o.preserve_font_faces,
    );
    e.collect_rules();
    assert(e.rules@.style =~= c.style);
    assert(e.rules@.media =~= c.media);
    assert(e.rules@.font_face =~= c.font_face);
    e.apply_rules();
    e.apply_width_attributes();
    e.apply_height_attributes();
    e.apply_table_element_attributes();
    e.insert_preserved_css();
    assert(given_options(options, o) && given_settings(settings, s));
    assert(e.document@ == inlined(document@, stylesheet@, selections@, o, s)) by {
        reveal(inlined);
    }
    e.document
}

} // verus!
