//! The stages of a run, each implemented by `Eyeliner`.

use vstd::prelude::*;

verus! {

/// Collect CSS rules from the style sheet for the other stages to use.
pub trait CollectRules {
    fn collect_rules(&mut self);
}

/// Inline the collected style rules into the document.
pub trait ApplyRules {
    fn apply_rules(&mut self);
}

/// Apply a specified CSS property as an attribute to elements.
pub trait ApplyAttributes {
    fn apply_attributes(&mut self, property: &str);
}

/// Apply `width` attributes to elements.
pub trait ApplyWidthAttributes {
    fn apply_width_attributes(&mut self);
}

/// Apply `height` attributes to elements.
pub trait ApplyHeightAttributes {
    fn apply_height_attributes(&mut self);
}

/// Apply table attributes to table elements.
pub trait ApplyTableElementAttributes {
    fn apply_table_element_attributes(&mut self);
}

/// Insert preserved CSS rules as a `<style>` element at a configured place.
pub trait InsertPreservedCss {
    fn insert_preserved_css(&mut self);
}

} // verus!
