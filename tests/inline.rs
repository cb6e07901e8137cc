use eyeliner::declarations::{Declaration, DeclarationBlock};
use eyeliner::document::{Document, Element, Selections};
use eyeliner::eyeliner::Eyeliner;
use eyeliner::options::{AbstractOptions, ConcreteOptions};
use eyeliner::rules::CssRule;
use eyeliner::settings::{AbstractSettings, ConcreteSettings};
use eyeliner::traits::{ApplyRules, CollectRules};

fn decl(property: &str, value: &str, important: bool) -> Declaration {
    Declaration { property: property.to_string(), value: value.to_string(), important, shorthands: vec![] }
}

fn longhand(property: &str, value: &str, shorthand: &str) -> Declaration {
    Declaration {
        property: property.to_string(),
        value: value.to_string(),
        important: false,
        shorthands: vec![shorthand.to_string()],
    }
}

fn block(decls: Vec<Declaration>) -> DeclarationBlock {
    DeclarationBlock { declarations: decls }
}

fn element(name: &str, attributes: &[(&str, &str)], style: Vec<Declaration>) -> Element {
    Element {
        name: name.to_string(),
        attributes: attributes.iter().map(|(k, v)| (k.to_string(), v.to_string())).collect(),
        style: block(style),
        appended_styles: vec![],
    }
}

fn style_rule(selectors: &str, decls: Vec<Declaration>) -> CssRule {
    CssRule::Style { selectors: selectors.to_string(), block: block(decls) }
}

fn selections(entries: &[(&str, Option<Vec<usize>>)]) -> Selections {
    Selections { entries: entries.iter().map(|(s, ids)| (s.to_string(), ids.clone())).collect() }
}

fn attribute(e: &Element, name: &str) -> Option<String> {
    e.attribute(name).cloned()
}

fn preserving_important() -> AbstractOptions {
    AbstractOptions { preserve_important: Some(true), ..AbstractOptions::default() }
}

/// The document `<html><head></head><body><p class="foo bar">..</p><heart>..</heart></body></html>`.
fn love_document() -> Document {
    Document {
        elements: vec![
            element("html", &[], vec![]),
            element("head", &[], vec![]),
            element("body", &[], vec![]),
            element("p", &[("class", "foo bar")], vec![]),
            element("heart", &[], vec![]),
        ],
    }
}

fn love_sheet() -> Vec<CssRule> {
    vec![
        style_rule(".foo", vec![decl("color", "black", false)]),
        style_rule(".foo.bar,heart", vec![decl("color", "red", false), decl("font-weight", "bold", false)]),
        style_rule(".foo.bar", vec![decl("text-decoration", "underline", true)]),
        style_rule(".foo.bar", vec![decl("text-decoration", "inherit", false)]),
    ]
}

fn love_selections() -> Selections {
    selections(&[
        (".foo", Some(vec![3])),
        (".foo.bar,heart", Some(vec![3, 4])),
        (".foo.bar", Some(vec![3])),
        ("head", Some(vec![1])),
        ("body", Some(vec![2])),
        ("html", Some(vec![0])),
    ])
}

#[test]
fn test() {
    let result = eyeliner::inline(love_document(), love_sheet(), love_selections(), None, None);
    assert_eq!(result.elements[3].style.to_css(), "color: red; font-weight: bold; text-decoration: underline;");
    assert_eq!(result.elements[4].style.to_css(), "color: red; font-weight: bold;");
    let kept = eyeliner::inline(love_document(), love_sheet(), love_selections(), Some(preserving_important()), None);
    assert_eq!(
        kept.elements[3].style.to_css(),
        "color: red; font-weight: bold; text-decoration: underline !important;"
    );
    assert_eq!(kept.elements[4].style.to_css(), "color: red; font-weight: bold;");
}

#[test]
fn later_rule_wins() {
    let doc = Document { elements: vec![element("div", &[("class", "a")], vec![])] };
    let sheet = vec![
        style_rule(".a", vec![decl("color", "red", false)]),
        style_rule(".a", vec![decl("color", "blue", false)]),
    ];
    let result = eyeliner::inline(doc, sheet, selections(&[(".a", Some(vec![0]))]), None, None);
    assert_eq!(result.elements[0].style.to_css(), "color: blue;");
}

#[test]
fn important_value_sticks() {
    let sheet = vec![
        style_rule(".a", vec![decl("color", "red", true)]),
        style_rule(".a", vec![decl("color", "blue", false)]),
    ];
    let doc = Document { elements: vec![element("div", &[("class", "a")], vec![])] };
    let sel = selections(&[(".a", Some(vec![0]))]);
    let kept = eyeliner::inline(doc.clone(), sheet.clone(), sel.clone(), Some(preserving_important()), None);
    assert_eq!(kept.elements[0].style.to_css(), "color: red !important;");
    let dropped = eyeliner::inline(doc, sheet, sel, None, None);
    assert_eq!(dropped.elements[0].style.to_css(), "color: red;");
}

#[test]
fn later_important_replaces_important() {
    let sheet = vec![
        style_rule(".a", vec![decl("color", "red", true)]),
        style_rule(".a", vec![decl("color", "green", true)]),
    ];
    let doc = Document { elements: vec![element("div", &[], vec![])] };
    let result = eyeliner::inline(doc, sheet, selections(&[(".a", Some(vec![0]))]), Some(preserving_important()), None);
    assert_eq!(result.elements[0].style.to_css(), "color: green !important;");
}

#[test]
fn non_visual_elements_untouched() {
    let doc = Document {
        elements: vec![
            element("head", &[], vec![]),
            element("style", &[], vec![decl("display", "none", false)]),
            element("script", &[], vec![]),
            element("div", &[], vec![]),
        ],
    };
    let sheet = vec![style_rule("*", vec![decl("color", "red", false)])];
    let sel = selections(&[("*", Some(vec![0, 1, 2, 3]))]);
    let mut run = Eyeliner::new(doc, sheet, sel, None, None);
    run.collect_rules();
    run.apply_rules();
    assert!(run.node_style_map[0].is_none());
    assert!(run.node_style_map[1].is_none());
    assert!(run.node_style_map[2].is_none());
    assert!(run.node_style_map[3].is_some());
    assert_eq!(run.document.elements[0].style.to_css(), "");
    assert_eq!(run.document.elements[1].style.to_css(), "display: none;");
    assert_eq!(run.document.elements[2].style.to_css(), "");
    assert_eq!(run.document.elements[3].style.to_css(), "color: red;");
}

#[test]
fn upper_case_tag_names_are_lowered() {
    let doc = Document {
        elements: vec![element("HEAD", &[], vec![]), element("TABLE", &[], vec![])],
    };
    let sheet = vec![style_rule("*", vec![decl("width", "50%", false)])];
    let result = eyeliner::inline(doc, sheet, selections(&[("*", Some(vec![0, 1]))]), None, None);
    assert_eq!(result.elements[0].style.to_css(), "");
    assert_eq!(attribute(&result.elements[0], "width"), None);
    assert_eq!(attribute(&result.elements[1], "width"), Some("50%".to_string()));
}

#[test]
fn pseudo_selector_is_skipped() {
    let doc = Document { elements: vec![element("a", &[], vec![])] };
    let sheet = vec![style_rule("a::before", vec![decl("color", "red", false)])];
    let sel = selections(&[("a::before", Some(vec![0]))]);
    let mut run = Eyeliner::new(doc, sheet, sel, None, None);
    run.collect_rules();
    run.apply_rules();
    assert!(run.node_style_map[0].is_none());
    assert_eq!(run.document.elements[0].style.to_css(), "");
}

#[test]
fn unparsable_selector_is_skipped() {
    let doc = Document { elements: vec![element("a", &[], vec![])] };
    let sheet = vec![
        style_rule("a[", vec![decl("color", "red", false)]),
        style_rule("b", vec![decl("color", "red", false)]),
    ];
    let result = eyeliner::inline(doc, sheet, selections(&[("a[", None)]), None, None);
    assert_eq!(result.elements[0].style.to_css(), "");
}

#[test]
fn table_background_becomes_bgcolor() {
    let doc = Document { elements: vec![element("table", &[], vec![])] };
    let sheet = vec![style_rule("table", vec![decl("background-color", "#fff", false)])];
    let result = eyeliner::inline(doc, sheet, selections(&[("table", Some(vec![0]))]), None, None);
    assert_eq!(attribute(&result.elements[0], "bgcolor"), Some("#fff".to_string()));
    assert_eq!(result.elements[0].style.to_css(), "background-color: #fff;");
}

#[test]
fn table_attributes_only_on_table_elements() {
    let doc = Document { elements: vec![element("div", &[], vec![]), element("td", &[], vec![])] };
    let sheet = vec![style_rule(
        "*",
        vec![decl("text-align", "center", false), decl("color", "red", false)],
    )];
    let result = eyeliner::inline(doc, sheet, selections(&[("*", Some(vec![0, 1]))]), None, None);
    assert_eq!(attribute(&result.elements[0], "align"), None);
    assert_eq!(attribute(&result.elements[1], "align"), Some("center".to_string()));
    assert_eq!(attribute(&result.elements[1], "color"), None);
}

#[test]
fn width_and_height_projection() {
    let doc = Document {
        elements: vec![
            element("img", &[], vec![]),
            element("div", &[("width", "1")], vec![]),
            element("td", &[], vec![]),
            element("p", &[], vec![]),
        ],
    };
    let sheet = vec![
        style_rule("img", vec![decl("width", "10px", false), decl("height", "20px", false)]),
        style_rule("div", vec![decl("width", "50%", false)]),
        style_rule("td", vec![decl("width", "50%", false), decl("height", "3em", false)]),
        style_rule("p", vec![decl("width", "12px", false)]),
    ];
    let sel = selections(&[
        ("img", Some(vec![0])),
        ("div", Some(vec![1])),
        ("td", Some(vec![2])),
        ("p", Some(vec![3])),
    ]);
    let result = eyeliner::inline(doc, sheet, sel, None, None);
    assert_eq!(attribute(&result.elements[0], "width"), Some("10".to_string()));
    assert_eq!(attribute(&result.elements[0], "height"), Some("20".to_string()));
    assert_eq!(attribute(&result.elements[1], "width"), Some("1".to_string()));
    assert_eq!(attribute(&result.elements[2], "width"), Some("50%".to_string()));
    assert_eq!(attribute(&result.elements[2], "height"), None);
    assert_eq!(attribute(&result.elements[3], "width"), Some("12".to_string()));
}

#[test]
fn projection_switched_off() {
    let doc = Document { elements: vec![element("table", &[], vec![])] };
    let sheet = vec![style_rule(
        "table",
        vec![decl("width", "10px", false), decl("height", "5px", false), decl("text-align", "left", false)],
    )];
    let options = AbstractOptions {
        apply_width_attributes: Some(false),
        apply_height_attributes: Some(false),
        apply_table_element_attributes: Some(false),
        ..AbstractOptions::default()
    };
    let result = eyeliner::inline(doc, sheet, selections(&[("table", Some(vec![0]))]), Some(options), None);
    assert!(result.elements[0].attributes.is_empty());
}

#[test]
fn running_twice_keeps_attributes() {
    let doc = Document {
        elements: vec![element("table", &[], vec![decl("color", "red", false)]), element("img", &[], vec![])],
    };
    let sheet = vec![
        style_rule("table", vec![decl("width", "100%", false), decl("background-color", "#fff", false)]),
        style_rule("img", vec![decl("width", "10px", true), decl("height", "4px", false)]),
        style_rule("img", vec![decl("width", "20px", false)]),
    ];
    let sel = selections(&[("table", Some(vec![0])), ("img", Some(vec![1])), ("body", None)]);
    let once = eyeliner::inline(doc, sheet.clone(), sel.clone(), None, None);
    let twice = eyeliner::inline(once.clone(), sheet, sel, None, None);
    for k in 0..2 {
        for name in ["width", "height", "bgcolor"] {
            assert_eq!(attribute(&twice.elements[k], name), attribute(&once.elements[k], name));
        }
        assert_eq!(twice.elements[k].style.to_css(), once.elements[k].style.to_css());
    }
    assert_eq!(attribute(&once.elements[1], "width"), Some("10".to_string()));
    assert_eq!(attribute(&once.elements[0], "width"), Some("100%".to_string()));
}

#[test]
fn inline_style_is_the_seed() {
    let doc = Document {
        elements: vec![element("div", &[], vec![decl("color", "green", false), decl("margin", "0", false)])],
    };
    let sheet = vec![style_rule("div", vec![decl("color", "blue", false), decl("padding", "1px", false)])];
    let result = eyeliner::inline(doc, sheet, selections(&[("div", Some(vec![0]))]), None, None);
    assert_eq!(result.elements[0].style.to_css(), "color: blue; margin: 0; padding: 1px;");
}

#[test]
fn unmatched_element_untouched() {
    let doc = Document {
        elements: vec![element("div", &[], vec![decl("color", "green", true)]), element("span", &[], vec![])],
    };
    let sheet = vec![style_rule("span", vec![decl("color", "blue", false)])];
    let mut run = Eyeliner::new(doc, sheet, selections(&[("span", Some(vec![1]))]), None, None);
    run.collect_rules();
    run.apply_rules();
    assert!(run.node_style_map[0].is_none());
    assert_eq!(run.document.elements[0].style.to_css(), "color: green !important;");
}

#[test]
fn excluded_properties_are_dropped() {
    let doc = Document { elements: vec![element("div", &[], vec![])] };
    let sheet = vec![style_rule(
        "div",
        vec![decl("color", "red", false), decl("margin", "0", false), decl("padding", "0", false)],
    )];
    let settings = AbstractSettings {
        excluded_properties: Some(vec!["margin".to_string(), "not-a-property".to_string()]),
        ..AbstractSettings::default()
    };
    let result = eyeliner::inline(doc, sheet, selections(&[("div", Some(vec![0]))]), None, Some(settings));
    assert_eq!(result.elements[0].style.to_css(), "color: red; padding: 0;");
}

#[test]
fn preserved_css_goes_to_body() {
    let sheet = vec![
        style_rule(".foo", vec![decl("color", "black", false)]),
        CssRule::Media("@media print { .a { color: red; } }".to_string()),
        CssRule::Other,
    ];
    let options = AbstractOptions {
        insert_preserved_css: Some(vec!["body".to_string()]),
        ..AbstractOptions::default()
    };
    let result = eyeliner::inline(love_document(), sheet, love_selections(), Some(options), None);
    assert_eq!(result.elements[2].appended_styles, vec!["@media print { .a { color: red; } }".to_string()]);
    let blocks: usize = result.elements.iter().map(|e| e.appended_styles.len()).sum();
    assert_eq!(blocks, 1);
}

#[test]
fn preserved_css_first_matching_point() {
    let sheet = vec![
        CssRule::Media("@media a {}".to_string()),
        CssRule::FontFace("@font-face { font-family: x; }".to_string()),
        CssRule::Media("@media b {}".to_string()),
    ];
    let sel = selections(&[("missing", Some(vec![])), ("head", Some(vec![1])), ("body", Some(vec![2]))]);
    let result = eyeliner::inline(love_document(), sheet.clone(), sel, None, None);
    assert_eq!(
        result.elements[1].appended_styles,
        vec!["@font-face { font-family: x; }\n@media a {}\n@media b {}".to_string()]
    );
    assert!(result.elements[2].appended_styles.is_empty());

    let none = selections(&[("head", Some(vec![])), ("body", None)]);
    let result = eyeliner::inline(love_document(), sheet.clone(), none, None, None);
    assert!(result.elements.iter().all(|e| e.appended_styles.is_empty()));

    let options = AbstractOptions {
        preserve_media_queries: Some(false),
        preserve_font_faces: Some(false),
        ..AbstractOptions::default()
    };
    let result = eyeliner::inline(love_document(), sheet, love_selections(), Some(options), None);
    assert_eq!(result.elements[1].appended_styles, vec!["".to_string()]);
}

#[test]
fn collecting_keeps_order_and_flags() {
    let sheet = vec![
        CssRule::FontFace("f1".to_string()),
        style_rule("a", vec![decl("color", "red", false)]),
        CssRule::Media("m1".to_string()),
        CssRule::Other,
        style_rule("b", vec![decl("color", "blue", false)]),
        CssRule::Media("m2".to_string()),
    ];
    let options = AbstractOptions { preserve_font_faces: Some(false), ..AbstractOptions::default() };
    let mut run = Eyeliner::new(Document { elements: vec![] }, sheet, selections(&[]), Some(options), None);
    run.collect_rules();
    let selectors: Vec<String> = run.rules.style.iter().map(|r| r.0.clone()).collect();
    assert_eq!(selectors, vec!["a".to_string(), "b".to_string()]);
    assert_eq!(run.rules.media, vec!["m1".to_string(), "m2".to_string()]);
    assert!(run.rules.font_face.is_empty());
}

#[test]
fn block_push_and_serialise() {
    let mut b = DeclarationBlock::new();
    b.push(decl("color", "red", true));
    b.push(decl("margin", "0", false));
    b.push(decl("color", "blue", false));
    assert_eq!(b.to_css(), "color: red !important; margin: 0;");
    b.push(decl("color", "green", true));
    b.push(decl("margin", "1px", false));
    assert_eq!(b.to_css(), "color: green !important; margin: 1px;");
    b.remove_importance();
    assert_eq!(b.to_css(), "color: green; margin: 1px;");
    b.remove_excluded_properties(&vec!["color".to_string()]);
    assert_eq!(b.to_css(), "margin: 1px;");
    assert_eq!(DeclarationBlock::new().to_css(), "");
}

#[test]
fn option_defaults() {
    let o = ConcreteOptions::default();
    assert!(o.apply_table_element_attributes);
    assert!(o.apply_height_attributes);
    assert!(o.apply_style_tags);
    assert!(o.apply_width_attributes);
    assert_eq!(o.insert_preserved_css, vec!["head".to_string(), "body".to_string(), "html".to_string()]);
    assert!(o.preserve_font_faces);
    assert!(!o.preserve_important);
    assert!(o.preserve_media_queries);
    assert!(o.remove_style_tags);
    let a = AbstractOptions::from(o);
    assert_eq!(a.preserve_important, Some(false));
    let back = ConcreteOptions::from(AbstractOptions { remove_style_tags: Some(false), ..a });
    assert!(!back.remove_style_tags);
    assert!(back.apply_style_tags);
}

#[test]
fn setting_defaults() {
    let s = ConcreteSettings::default();
    assert_eq!(s.width_elements, vec!["table", "td", "img"]);
    assert_eq!(s.height_elements, vec!["table", "td", "img"]);
    assert_eq!(
        s.table_elements,
        vec!["table", "td", "th", "tr", "td", "caption", "colgroup", "col", "thead", "tbody", "tfoot"]
    );
    assert_eq!(
        s.non_visual_elements,
        vec!["head", "title", "base", "link", "style", "meta", "script", "noscript"]
    );
    assert!(s.excluded_properties.is_empty());
    assert_eq!(s.style_to_attribute.len(), 4);
    assert_eq!(s.style_to_attribute[0], ("background-color".to_string(), "bgcolor".to_string()));
    assert_eq!(s.style_to_attribute[3], ("vertical-align".to_string(), "valign".to_string()));
    let a = AbstractSettings::from(s);
    let back = ConcreteSettings::from(AbstractSettings { table_elements: Some(vec!["td".to_string()]), ..a });
    assert_eq!(back.table_elements, vec!["td"]);
    assert_eq!(back.width_elements, vec!["table", "td", "img"]);
}

#[test]
fn empty_inputs() {
    let result = eyeliner::inline(Document { elements: vec![] }, vec![], selections(&[]), None, None);
    assert!(result.elements.is_empty());
    let doc = Document { elements: vec![element("p", &[("id", "x")], vec![decl("color", "red", false)])] };
    let result = eyeliner::inline(doc.clone(), vec![], selections(&[]), None, None);
    assert_eq!(result.elements[0].style.to_css(), "color: red;");
    assert_eq!(result.elements[0].attributes, doc.elements[0].attributes);
}

#[test]
fn pseudo_class_selector_is_skipped() {
    let doc = Document { elements: vec![element("a", &[("href", "x")], vec![])] };
    let sheet = vec![
        style_rule("a:hover", vec![decl("color", "red", false)]),
        style_rule("a:first-child", vec![decl("margin", "0", false)]),
        style_rule("a[href=\"http://x\"]", vec![decl("color", "blue", false)]),
    ];
    let sel = selections(&[
        ("a:hover", Some(vec![0])),
        ("a:first-child", Some(vec![0])),
        ("a[href=\"http://x\"]", Some(vec![0])),
    ]);
    let result = eyeliner::inline(doc, sheet, sel, None, None);
    assert_eq!(result.elements[0].style.to_css(), "color: blue;");
    assert!(eyeliner::text::contains_pseudo_marker("li:nth-child(2)"));
    assert!(eyeliner::text::contains_pseudo_marker("p::after"));
    assert!(!eyeliner::text::contains_pseudo_marker("a[href=\"a:b\"] span"));
    assert!(eyeliner::text::contains_pseudo_marker("a[href=\"a:b\"]:hover"));
}

#[test]
fn excluding_a_shorthand_drops_its_longhands() {
    let doc = Document { elements: vec![element("div", &[], vec![])] };
    let sheet = vec![style_rule(
        "div",
        vec![
            longhand("margin-top", "1px", "margin"),
            longhand("margin-left", "2px", "margin"),
            decl("color", "red", false),
            longhand("padding-top", "3px", "padding"),
        ],
    )];
    let settings = AbstractSettings {
        excluded_properties: Some(vec!["margin".to_string(), "padding-top".to_string()]),
        ..AbstractSettings::default()
    };
    let result = eyeliner::inline(doc, sheet, selections(&[("div", Some(vec![0]))]), None, Some(settings));
    assert_eq!(result.elements[0].style.to_css(), "color: red;");
}
