use stylist::AtRule;
use stylist::Declaration;
use stylist::Rule;
use stylist::Selector;
use stylist::Sheet;
use stylist::SheetItem;
use stylist::SheetRef;

fn sel(text: &str) -> Selector {
    Selector::from(text)
}

fn decl(key: &str, value: &str) -> Declaration {
    Declaration {
        key: String::from(key),
        value: String::from(value),
    }
}

#[test]
fn test_render_single_rule() {
    let sheet = Sheet {
        items: vec![SheetItem::Rule(Rule {
            selectors: vec![sel(".a")],
            declarations: vec![decl("color", "red")],
        })],
    };

    assert_eq!(sheet.to_style_str("x"), ".x .a {\ncolor: red;\n}\n");
}

#[test]
fn test_render_selector_list_joined() {
    let sheet = Sheet {
        items: vec![SheetItem::Rule(Rule {
            selectors: vec![sel(".a"), sel(":hover"), sel("&.big")],
            declarations: vec![decl("color", "red"), decl("margin", "0")],
        })],
    };

    assert_eq!(
        sheet.to_style_str("x"),
        ".x .a, .x:hover, .x.big {\ncolor: red;\nmargin: 0;\n}\n"
    );
}

#[test]
fn test_render_preserves_rule_order() {
    let sheet = Sheet {
        items: vec![
            SheetItem::Rule(Rule {
                selectors: vec![sel(".a")],
                declarations: vec![decl("color", "red")],
            }),
            SheetItem::Rule(Rule {
                selectors: vec![sel(".a")],
                declarations: vec![decl("color", "blue")],
            }),
        ],
    };

    assert_eq!(
        sheet.to_style_str("x"),
        ".x .a {\ncolor: red;\n}\n.x .a {\ncolor: blue;\n}\n"
    );
}

#[test]
fn test_render_at_rule_recurses() {
    let sheet = Sheet {
        items: vec![SheetItem::AtRule(AtRule {
            condition: String::from("@media screen and (max-width: 500px)"),
            rules: vec![Rule {
                selectors: vec![sel(".a")],
                declarations: vec![decl("color", "red")],
            }],
        })],
    };

    assert_eq!(
        sheet.to_style_str("x"),
        "@media screen and (max-width: 500px) {\n.x .a {\ncolor: red;\n}\n}\n"
    );
}

#[test]
fn test_render_empty_sheet() {
    let sheet = Sheet { items: Vec::new() };

    assert_eq!(sheet.to_style_str("x"), "");
}

#[test]
fn test_shared_handle_clones_render_identically() {
    let sheet = Sheet {
        items: vec![SheetItem::Rule(Rule {
            selectors: vec![sel(".a"), sel("&")],
            declarations: vec![decl("color", "red")],
        })],
    };
    let handle = SheetRef::new(sheet);
    let other = handle.clone();

    assert_eq!(
        handle.to_style_str("stylist-abcdefgh"),
        other.to_style_str("stylist-abcdefgh")
    );
    assert_eq!(
        handle.to_style_str("stylist-abcdefgh"),
        ".stylist-abcdefgh .a, .stylist-abcdefgh {\ncolor: red;\n}\n"
    );
}
