//! Lookup data consulted by the stages that options switch on.

use vstd::prelude::*;

use crate::declarations::{pair_views, string_views};

verus! {

/// Settings referenced by the features that options enable; a field left `None` takes its
/// default. Element names in these lists are compared with lower-cased tag names.
#[derive(Clone, Debug)]
pub struct AbstractSettings {
    /// Elements that can receive `width` attributes. Defaults to `table`, `td`, `img`.
    pub width_elements: Option<Vec<String>>,
    /// Elements that can receive `height` attributes. Defaults to `table`, `td`, `img`.
    pub height_elements: Option<Vec<String>>,
    /// Style properties and the attribute each becomes on table elements; the first entry for
    /// a property is the one used. Defaults to `background-color` → `bgcolor`,
    /// `background-image` → `background`, `text-align` → `align`,
    /// `vertical-align` → `valign`.
    pub style_to_attribute: Option<Vec<(String, String)>>,
    /// Table elements that can receive the attributes of `style_to_attribute`, and percent
    /// widths and heights. Defaults to `table`, `td`, `th`, `tr`, `td`, `caption`, `colgroup`,
    /// `col`, `thead`, `tbody`, `tfoot`.
    pub table_elements: Option<Vec<String>>,
    /// Elements that are not rendered and never get inlined styles. Defaults to `head`,
    /// `title`, `base`, `link`, `style`, `meta`, `script`, `noscript`.
    pub non_visual_elements: Option<Vec<String>>,
    /// Style properties that are never inlined; a shorthand listed here excludes each of its
    /// longhands. Defaults to none.
    pub excluded_properties: Option<Vec<String>>,
}

/// Every setting resolved to a value.
#[derive(Clone, Debug)]
pub struct ConcreteSettings {
    pub width_elements: Vec<String>,
    pub height_elements: Vec<String>,
    pub style_to_attribute: Vec<(String, String)>,
    pub table_elements: Vec<String>,
    pub non_visual_elements: Vec<String>,
    pub excluded_properties: Vec<String>,
}

/// The default elements for `width` and `height` attributes.
pub open spec fn default_sized_elements() -> Seq<Seq<char>> {
    seq!["table"@, "td"@, "img"@]
}

/// The default table elements.
pub open spec fn default_table_elements() -> Seq<Seq<char>> {
    seq![
        "table"@,
        "td"@,
        "th"@,
        "tr"@,
        "td"@,
        "caption"@,
        "colgroup"@,
        "col"@,
        "thead"@,
        "tbody"@,
        "tfoot"@,
    ]
}

/// The default non-visual elements.
pub open spec fn default_non_visual_elements() -> Seq<Seq<char>> {
    seq!["head"@, "title"@, "base"@, "link"@, "style"@, "meta"@, "script"@, "noscript"@]
}

/// The default table of properties and attributes.
pub open spec fn default_style_to_attribute() -> Seq<(Seq<char>, Seq<char>)> {
    seq![
        ("background-color"@, "bgcolor"@),
        ("background-image"@, "background"@),
        ("text-align"@, "align"@),
        ("vertical-align"@, "valign"@),
    ]
}

/// A list given, or its default.
pub open spec fn list_or(v: Option<Vec<String>>, default: Seq<Seq<char>>) -> Seq<Seq<char>> {
    match v {
        Some(v) => string_views(v@),
        None => default,
    }
}

/// `c` is what `a` resolves to, field by field.
pub open spec fn resolves_settings(a: AbstractSettings, c: ConcreteSettings) -> bool {
    &&& string_views(c.width_elements@) == list_or(a.width_elements, default_sized_elements())
    &&& string_views(c.height_elements@) == list_or(a.height_elements, default_sized_elements())
    &&& pair_views(c.style_to_attribute@) == match a.style_to_attribute {
        Some(v) => pair_views(v@),
        None => default_style_to_attribute(),
    }
    &&& string_views(c.table_elements@) == list_or(a.table_elements, default_table_elements())
    &&& string_views(c.non_visual_elements@) == list_or(
        a.non_visual_elements,
        default_non_visual_elements(),
    )
    &&& string_views(c.excluded_properties@) == list_or(
        a.excluded_properties,
        Seq::<Seq<char>>::empty(),
    )
}

/// The resolved settings with every field at its default.
pub open spec fn default_settings(c: ConcreteSettings) -> bool {
    &&& string_views(c.width_elements@) == default_sized_elements()
    &&& string_views(c.height_elements@) == default_sized_elements()
    &&& pair_views(c.style_to_attribute@) == default_style_to_attribute()
    &&& string_views(c.table_elements@) == default_table_elements()
    &&& string_views(c.non_visual_elements@) == default_non_visual_elements()
    &&& string_views(c.excluded_properties@) == Seq::<Seq<char>>::empty()
}

fn sized_elements() -> (r: Vec<String>)
    ensures
        string_views(r@) == default_sized_elements(),
{
    let r = vec![String::from_str("table"), String::from_str("td"), String::from_str("img")];
    assert(string_views(r@) =~= default_sized_elements());
    r
}

fn table_elements() -> (r: Vec<String>)
    ensures
        string_views(r@) == default_table_elements(),
{
    let r = vec![
        String::from_str("table"),
        String::from_str("td"),
        String::from_str("th"),
        String::from_str("tr"),
        String::from_str("td"),
        String::from_str("caption"),
        String::from_str("colgroup"),
        String::from_str("col"),
        String::from_str("thead"),
        String::from_str("tbody"),
        String::from_str("tfoot"),
    ];
    assert(string_views(r@) =~= default_table_elements());
    r
}

fn non_visual_elements() -> (r: Vec<String>)
    ensures
        string_views(r@) == default_non_visual_elements(),
{
    let r = vec![
        String::from_str("head"),
        String::from_str("title"),
        String::from_str("base"),
        String::from_str("link"),
        String::from_str("style"),
        String::from_str("meta"),
        String::from_str("script"),
        String::from_str("noscript"),
    ];
    assert(string_views(r@) =~= default_non_visual_elements());
    r
}

fn style_to_attribute() -> (r: Vec<(String, String)>)
    ensures
        pair_views(r@) == default_style_to_attribute(),
{
    let r = vec![
        (String::from_str("background-color"), String::from_str("bgcolor")),
        (String::from_str("background-image"), String::from_str("background")),
        (String::from_str("text-align"), String::from_str("align")),
        (String::from_str("vertical-align"), String::from_str("valign")),
    ];
    assert(pair_views(r@) =~= default_style_to_attribute());
    r
}

impl Default for AbstractSettings {
    fn default() -> (r: Self)
        ensures
            r.width_elements is None,
            r.height_elements is None,
            r.style_to_attribute is None,
            r.table_elements is None,
            r.non_visual_elements is None,
            r.excluded_properties is None,
    {
        AbstractSettings {
            width_elements: None,
            height_elements: None,
            style_to_attribute: None,
            table_elements: None,
            non_visual_elements: None,
            excluded_properties: None,
        }
    }
}

impl From<ConcreteSettings> for AbstractSettings {
    fn from(c: ConcreteSettings) -> (r: Self) {
        AbstractSettings {
            width_elements: Some(c.width_elements),
            height_elements: Some(c.height_elements),
            style_to_attribute: Some(c.style_to_attribute),
            table_elements: Some(c.table_elements),
            non_visual_elements: Some(c.non_visual_elements),
            excluded_properties: Some(c.excluded_properties),
        }
    }
}

impl vstd::std_specs::convert::FromSpecImpl<ConcreteSettings> for AbstractSettings {
    open spec fn obeys_from_spec() -> bool {
        true
    }

    open spec fn from_spec(c: ConcreteSettings) -> AbstractSettings {
        AbstractSettings {
            width_elements: Some(c.width_elements),
            height_elements: Some(c.height_elements),
            style_to_attribute: Some(c.style_to_attribute),
            table_elements: Some(c.table_elements),
            non_visual_elements: Some(c.non_visual_elements),
            excluded_properties: Some(c.excluded_properties),
        }
    }
}

impl From<AbstractSettings> for ConcreteSettings {
    /// Takes each setting that is set, and the default of each that is not.
    fn from(a: AbstractSettings) -> (r: Self)
        ensures
            resolves_settings(a, r),
    {
        let width_elements = match a.width_elements {
            Some(v) => v,
            None => sized_elements(),
        };
        let height_elements = match a.height_elements {
            Some(v) => v,
            None => sized_elements(),
        };
        let style_to_attribute = match a.style_to_attribute {
            Some(v) => v,
            None => style_to_attribute(),
        };
        let table_elements = match a.table_elements {
            Some(v) => v,
            None => table_elements(),
        };
        let non_visual_elements = match a.non_visual_elements {
            Some(v) => v,
            None => non_visual_elements(),
        };
        let excluded_properties = match a.excluded_properties {
            Some(v) => v,
            None => {
                let v: Vec<String> = Vec::new();
                assert(string_views(v@) =~= Seq::<Seq<char>>::empty());
                v
            },
        };
        ConcreteSettings {
            width_elements,
            height_elements,
            style_to_attribute,
            table_elements,
            non_visual_elements,
            excluded_properties,
        }
    }
}

impl vstd::std_specs::convert::FromSpecImpl<AbstractSettings> for ConcreteSettings {
    /// The default lists are built afresh, so the result is pinned down by
    /// `resolves_settings` rather than by a single value.
    open spec fn obeys_from_spec() -> bool {
        false
    }

    open spec fn from_spec(a: AbstractSettings) -> ConcreteSettings {
        choose|c: ConcreteSettings| resolves_settings(a, c)
    }
}

impl Default for ConcreteSettings {
    fn default() -> (r: Self)
        ensures
            default_settings(r),
    {
        Self::from(AbstractSettings::default())
    }
}

} // verus!
