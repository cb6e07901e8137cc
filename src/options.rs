//! Toggles for the stages of a run, and where preserved CSS goes.

use vstd::prelude::*;

use crate::declarations::string_views;

verus! {

/// Options for ways to modify the document; a field left `None` takes its default.
#[derive(Clone, Debug)]
pub struct AbstractOptions {
    /// Whether attributes named in `style_to_attribute` are applied to table elements.
    /// Defaults to `true`.
    pub apply_table_element_attributes: Option<bool>,
    /// Whether pixel and percent heights become `height` attributes. Defaults to `true`.
    pub apply_height_attributes: Option<bool>,
    /// Whether the CSS of `<style>` elements is inlined. Defaults to `true`.
    pub apply_style_tags: Option<bool>,
    /// Whether pixel and percent widths become `width` attributes. Defaults to `true`.
    pub apply_width_attributes: Option<bool>,
    /// Selectors of the places that preserved `@media` and `@font-face` rules may go to, tried
    /// in order. Defaults to `["head", "body", "html"]`.
    pub insert_preserved_css: Option<Vec<String>>,
    /// Whether `@font-face` rules are preserved. Defaults to `true`.
    pub preserve_font_faces: Option<bool>,
    /// Whether `!important` is kept in the inlined styles. Defaults to `false`.
    pub preserve_important: Option<bool>,
    /// Whether `@media` rules are preserved. Defaults to `true`.
    pub preserve_media_queries: Option<bool>,
    /// Whether `<style>` elements are removed once read. Defaults to `true`.
    pub remove_style_tags: Option<bool>,
}

/// Every option resolved to a value.
#[derive(Clone, Debug)]
pub struct ConcreteOptions {
    pub apply_table_element_attributes: bool,
    pub apply_height_attributes: bool,
    pub apply_style_tags: bool,
    pub apply_width_attributes: bool,
    pub insert_preserved_css: Vec<String>,
    pub preserve_font_faces: bool,
    pub preserve_important: bool,
    pub preserve_media_queries: bool,
    pub remove_style_tags: bool,
}

/// The default places for preserved CSS.
pub open spec fn default_insert_points() -> Seq<Seq<char>> {
    seq!["head"@, "body"@, "html"@]
}

/// `b`, or `default` where `b` is `None`.
pub open spec fn or_default(b: Option<bool>, default: bool) -> bool {
    match b {
        Some(x) => x,
        None => default,
    }
}

/// `c` is what `a` resolves to, field by field.
pub open spec fn resolves_options(a: AbstractOptions, c: ConcreteOptions) -> bool {
    &&& c.apply_table_element_attributes == or_default(a.apply_table_element_attributes, true)
    &&& c.apply_height_attributes == or_default(a.apply_height_attributes, true)
    &&& c.apply_style_tags == or_default(a.apply_style_tags, true)
    &&& c.apply_width_attributes == or_default(a.apply_width_attributes, true)
    &&& string_views(c.insert_preserved_css@) == match a.insert_preserved_css {
        Some(v) => string_views(v@),
        None => default_insert_points(),
    }
    &&& c.preserve_font_faces == or_default(a.preserve_font_faces, true)
    &&& c.preserve_important == or_default(a.preserve_important, false)
    &&& c.preserve_media_queries == or_default(a.preserve_media_queries, true)
    &&& c.remove_style_tags == or_default(a.remove_style_tags, true)
}

/// The resolved options with every field at its default.
pub open spec fn default_options(c: ConcreteOptions) -> bool {
    &&& c.apply_table_element_attributes
    &&& c.apply_height_attributes
    &&& c.apply_style_tags
    &&& c.apply_width_attributes
    &&& string_views(c.insert_preserved_css@) == default_insert_points()
    &&& c.preserve_font_faces
    &&& !c.preserve_important
    &&& c.preserve_media_queries
    &&& c.remove_style_tags
}

/// A bool given, or its default.
fn resolve(b: Option<bool>, default: bool) -> (r: bool)
    ensures
        r == or_default(b, default),
{
    match b {
        Some(x) => x,
        None => default,
    }
}

impl Default for AbstractOptions {
    fn default() -> (r: Self)
        ensures
            r.apply_table_element_attributes is None,
            r.apply_height_attributes is None,
            r.apply_style_tags is None,
            r.apply_width_attributes is None,
            r.insert_preserved_css is None,
            r.preserve_font_faces is None,
            r.preserve_important is None,
            r.preserve_media_queries is None,
            r.remove_style_tags is None,
    {
        AbstractOptions {
            apply_table_element_attributes: None,
            apply_height_attributes: None,
            apply_style_tags: None,
            apply_width_attributes: None,
            insert_preserved_css: None,
            preserve_font_faces: None,
            preserve_important: None,
            preserve_media_queries: None,
            remove_style_tags: None,
        }
    }
}

impl From<ConcreteOptions> for AbstractOptions {
    fn from(c: ConcreteOptions) -> (r: Self) {
        AbstractOptions {
            apply_table_element_attributes: Some(c.apply_table_element_attributes),
            apply_height_attributes: Some(c.apply_height_attributes),
            apply_style_tags: Some(c.apply_style_tags),
            apply_width_attributes: Some(c.apply_width_attributes),
            insert_preserved_css: Some(c.insert_preserved_css),
            preserve_font_faces: Some(c.preserve_font_faces),
            preserve_important: Some(c.preserve_important),
            preserve_media_queries: Some(c.preserve_media_queries),
            remove_style_tags: Some(c.remove_style_tags),
        }
    }
}

impl vstd::std_specs::convert::FromSpecImpl<ConcreteOptions> for AbstractOptions {
    open spec fn obeys_from_spec() -> bool {
        true
    }

    open spec fn from_spec(c: ConcreteOptions) -> AbstractOptions {
        AbstractOptions {
            apply_table_element_attributes: Some(c.apply_table_element_attributes),
            apply_height_attributes: Some(c.apply_height_attributes),
            apply_style_tags: Some(c.apply_style_tags),
            apply_width_attributes: Some(c.apply_width_attributes),
            insert_preserved_css: Some(c.insert_preserved_css),
            preserve_font_faces: Some(c.preserve_font_faces),
            preserve_important: Some(c.preserve_important),
            preserve_media_queries: Some(c.preserve_media_queries),
            remove_style_tags: Some(c.remove_style_tags),
        }
    }
}

impl From<AbstractOptions> for ConcreteOptions {
    /// Takes each option that is set, and the default of each that is not.
    fn from(a: AbstractOptions) -> (r: Self)
        ensures
            resolves_options(a, r),
    {
        let insert_preserved_css = match a.insert_preserved_css {
            Some(v) => v,
            None => {
                let v = vec![
                    String::from_str("head"),
                    String::from_str("body"),
                    String::from_str("html"),
                ];
                assert(string_views(v@) =~= default_insert_points());
                v
            },
        };
        ConcreteOptions {
            apply_table_element_attributes: resolve(a.apply_table_element_attributes, true),
            apply_height_attributes: resolve(a.apply_height_attributes, true),
            apply_style_tags: resolve(a.apply_style_tags, true),
            apply_width_attributes: resolve(a.apply_width_attributes, true),
            insert_preserved_css,
            preserve_font_faces: resolve(a.preserve_font_faces, true),
            preserve_important: resolve(a.preserve_important, false),
            preserve_media_queries: resolve(a.preserve_media_queries, true),
            remove_style_tags: resolve(a.remove_style_tags, true),
        }
    }
}

impl vstd::std_specs::convert::FromSpecImpl<AbstractOptions> for ConcreteOptions {
    /// The default list of places is built afresh, so the result is pinned down by
    /// `resolves_options` rather than by a single value.
    open spec fn obeys_from_spec() -> bool {
        false
    }

    open spec fn from_spec(a: AbstractOptions) -> ConcreteOptions {
        choose|c: ConcreteOptions| resolves_options(a, c)
    }
}

impl Default for ConcreteOptions {
    fn default() -> (r: Self)
        ensures
            default_options(r),
    {
        Self::from(AbstractOptions::default())
    }
}

} // verus!
