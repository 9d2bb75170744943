use stylist::Sheet;

#[test]
fn test_parse_single_rule() {
    let sheet = Sheet::parse(".abc { color: red; }").unwrap();

    assert_eq!(sheet.to_style_str("x"), ".x .abc {\ncolor: red;\n}\n");
}

#[test]
fn test_parse_normalizes_spacing_and_final_semicolon() {
    let sheet = Sheet::parse(".a{color:red}").unwrap();

    assert_eq!(sheet.to_style_str("x"), ".x .a {\ncolor: red;\n}\n");
}

#[test]
fn test_parse_selector_list_and_many_rules() {
    let text = ".a , :hover {\n  color: red;\n  margin: 0;\n}\n&.big { color: blue; }";
    let sheet = Sheet::parse(text).unwrap();

    assert_eq!(
        sheet.to_style_str("x"),
        ".x .a, .x:hover {\ncolor: red;\nmargin: 0;\n}\n.x.big {\ncolor: blue;\n}\n"
    );
}

#[test]
fn test_parse_bare_declarations_scope_to_root() {
    let sheet = Sheet::parse("color: red; margin: 0").unwrap();

    assert_eq!(sheet.to_style_str("x"), ".x {\ncolor: red;\nmargin: 0;\n}\n");
}

#[test]
fn test_parse_empty_and_blank_text() {
    assert_eq!(Sheet::parse("").unwrap().to_style_str("x"), "");
    assert_eq!(Sheet::parse(" \t\r\n ").unwrap().to_style_str("x"), "");
}

#[test]
fn test_parse_value_may_hold_colons() {
    let sheet = Sheet::parse(".a { background: url(a:b:c); }").unwrap();

    assert_eq!(
        sheet.to_style_str("x"),
        ".x .a {\nbackground: url(a:b:c);\n}\n"
    );
}

#[test]
fn test_parse_rejects_unclosed_block() {
    assert!(Sheet::parse(".a { color: red;").is_err());
}

#[test]
fn test_parse_rejects_nested_block() {
    assert!(Sheet::parse("@media screen { .a { color: red; } }").is_err());
}

#[test]
fn test_parse_rejects_empty_selector() {
    assert!(Sheet::parse(" , .b { color: red; }").is_err());
    assert!(Sheet::parse(".a, { color: red; }").is_err());
}

#[test]
fn test_parse_rejects_declaration_without_colon() {
    assert!(Sheet::parse(".a { color }").is_err());
    assert!(Sheet::parse(".a { color; }").is_err());
}

#[test]
fn test_parse_rejects_empty_key_or_value() {
    assert!(Sheet::parse(".a { : red; }").is_err());
    assert!(Sheet::parse(".a { color: ; }").is_err());
    assert!(Sheet::parse("color:").is_err());
}

#[test]
fn test_parse_error_reports_a_position_inside_the_text() {
    let text = ".a { color }";
    let err = Sheet::parse(text).unwrap_err();

    assert!(err.position <= text.chars().count());
}
