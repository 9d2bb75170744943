use stylist::selector::Selector;

#[test]
fn test_selector_gen_simple() {
    let s: Selector = ".abc".into();

    assert_eq!(s.to_style_str("stylist-abcdefgh"), ".stylist-abcdefgh .abc");
}

#[test]
fn test_selector_pseduo() {
    let s: Selector = ":hover".into();

    assert_eq!(s.to_style_str("stylist-abcdefgh"), ".stylist-abcdefgh:hover");
}

#[test]
fn test_selector_root_pseduo() {
    let s: Selector = ":root.big".into();

    assert_eq!(s.to_style_str("stylist-abcdefgh"), ".stylist-abcdefgh.big");
}

#[test]
fn test_selector_gen_current() {
    let s: Selector = "&.big".into();

    assert_eq!(s.to_style_str("stylist-abcdefgh"), ".stylist-abcdefgh.big");
}

#[test]
fn test_selector_every_occurrence_replaced() {
    let s: Selector = "&.a > &.b".into();

    assert_eq!(
        s.to_style_str("stylist-abcdefgh"),
        ".stylist-abcdefgh.a > .stylist-abcdefgh.b"
    );
}

#[test]
fn test_selector_root_repeated() {
    let s: Selector = ":root :root".into();

    assert_eq!(
        s.to_style_str("stylist-abcdefgh"),
        ".stylist-abcdefgh .stylist-abcdefgh"
    );
}

#[test]
fn test_selector_mixed_anchors() {
    let s: Selector = "&:root".into();

    assert_eq!(
        s.to_style_str("stylist-abcdefgh"),
        ".stylist-abcdefgh.stylist-abcdefgh"
    );
}

#[test]
fn test_selector_precedence_leading_pseudo_with_amp() {
    // A leading pseudo-class does not win over an embedded anchor token:
    // the substitution rule handles the selector, so no descendant prefix
    // and no compounding prefix appears.
    let s: Selector = ":hover&".into();

    assert_eq!(s.to_style_str("stylist-abcdefgh"), ":hover.stylist-abcdefgh");
}

#[test]
fn test_selector_attribute_selector_scoped() {
    let s: Selector = Selector::from(String::from("div[attr=\"val\"].my-class"));

    assert_eq!(
        s.to_style_str("stylist-abcdefgh"),
        ".stylist-abcdefgh div[attr=\"val\"].my-class"
    );
}

#[test]
fn test_selector_empty_text() {
    let s: Selector = "".into();

    assert_eq!(s.to_style_str("stylist-abcdefgh"), ".stylist-abcdefgh ");
}

#[test]
fn test_selector_quoted_anchor_is_still_replaced() {
    // Known limitation: the substitution is literal, so an anchor token
    // inside a quoted attribute value is rewritten too.
    let s: Selector = "[data-x=\"&\"]".into();

    assert_eq!(
        s.to_style_str("stylist-abcdefgh"),
        "[data-x=\".stylist-abcdefgh\"]"
    );
}

#[test]
fn test_selector_clone_keeps_text() {
    let s: Selector = "&.big".into();
    let c = s.clone();

    assert_eq!(c.to_style_str("x"), s.to_style_str("x"));
    assert_eq!(s, c);
}
