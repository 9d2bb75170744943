use stylist::IntoStyle;
use stylist::Sheet;
use stylist::SheetRef;
use stylist::Style;

#[test]
fn test_to_style_scopes_text() {
    let source: IntoStyle = ".abc { color: red; }".into();
    let style = source.to_style();
    let class = style.get_class_name().to_string();

    assert!(class.starts_with("stylist-"));
    assert_eq!(class.len(), 16);
    assert_eq!(
        style.get_style_str(),
        format!(".{} .abc {{\ncolor: red;\n}}\n", class)
    );
}

#[test]
fn test_class_name_is_css_safe() {
    let source: IntoStyle = "color: red;".into();
    let style = source.to_style();

    assert!(style
        .get_class_name()
        .chars()
        .all(|c| c.is_ascii_lowercase() || c.is_ascii_digit() || c == '-'));
}

#[test]
fn test_two_styles_same_content_differ_only_in_identifier() {
    let a: IntoStyle = ".abc { color: red; }".into();
    let b: IntoStyle = ".abc { color: red; }".into();
    let s1 = a.to_style();
    let s2 = b.to_style();

    assert_ne!(s1.get_class_name(), s2.get_class_name());
    assert_eq!(
        s1.get_style_str().replace(s1.get_class_name(), "ID"),
        s2.get_style_str().replace(s2.get_class_name(), "ID")
    );
}

#[test]
fn test_with_entropy_is_deterministic() {
    let sheet = Sheet::parse(".abc { color: red; }").unwrap();
    let handle = SheetRef::new(sheet);
    let s1 = Style::with_entropy(handle.clone(), 42);
    let s2 = Style::with_entropy(handle, 42);

    assert_eq!(s1.get_class_name(), s2.get_class_name());
    assert_eq!(s1.get_style_str(), s2.get_style_str());
}

#[test]
fn test_to_global_style_renders_same_text() {
    let source: IntoStyle = "&.big { color: red; }".into();
    let global = source.to_global_style();
    let class = global.get_class_name().to_string();

    assert_eq!(
        global.get_style_str(),
        format!(".{}.big {{\ncolor: red;\n}}\n", class)
    );
}

#[test]
fn test_to_sheet_from_handle_never_reparses() {
    let sheet = Sheet::parse(".a { color: red; }").unwrap();
    let source = IntoStyle::from(SheetRef::new(sheet));
    let resolved = source.to_sheet();

    assert_eq!(resolved.to_style_str("x"), ".x .a {\ncolor: red;\n}\n");
}

#[test]
fn test_into_style_clone_resolves_identically() {
    let source: IntoStyle = ".a { color: red; }".into();
    let copy = source.clone();

    assert_eq!(
        source.to_sheet().to_style_str("x"),
        copy.to_sheet().to_style_str("x")
    );
}

#[test]
fn test_try_to_style_fails_on_invalid_text() {
    let bad: IntoStyle = "not { valid { css".into();

    assert!(bad.try_to_style().is_err());
    assert!(bad.try_to_global_style().is_err());
    assert!(bad.try_to_sheet().is_err());
}

#[test]
fn test_try_to_style_succeeds_on_valid_text() {
    let good: IntoStyle = ".a { color: red; }".into();
    let style = good.try_to_style().unwrap();

    assert!(style.get_style_str().contains("color: red;"));
}

#[test]
fn test_into_style_from_sheet_value() {
    let sheet = Sheet::parse("color: red;").unwrap();
    let source = IntoStyle::from(sheet);
    let style = source.to_style();
    let class = style.get_class_name().to_string();

    assert_eq!(style.get_style_str(), format!(".{} {{\ncolor: red;\n}}\n", class));
}
