use socigy::builder::{classify_field, extract_ident_attr, AttrDecl, FieldDecl};
use socigy::emitter::generate_output_for_element;
use socigy::jsx::JsxAttributeValue as V;
use socigy::parser::{check_close_tag, parse_jsx_syntax};
use socigy::tokens::{Delimiter, Group, Span, Token, TokenKind};

fn at(column: usize) -> Span {
    Span { line: 2, column }
}

fn punct(c: char, column: usize) -> Token {
    Token { kind: TokenKind::Punct(c), span: at(column) }
}

fn ident(s: &str, column: usize) -> Token {
    Token { kind: TokenKind::Ident(s.to_string()), span: at(column) }
}

fn literal(s: &str, column: usize) -> Token {
    Token { kind: TokenKind::Literal(s.to_string()), span: at(column) }
}

fn group(delimiter: Delimiter, stream: Vec<Token>, column: usize) -> Token {
    Token { kind: TokenKind::Group(Group { delimiter, stream, span: at(column) }), span: at(column) }
}

fn message_of(tokens: Vec<Token>) -> (String, Option<Span>) {
    let e = parse_jsx_syntax(&tokens).expect_err("fails");
    (e.message, e.span)
}

#[test]
fn tag_or_angle_expected_after_open() {
    let (m, s) = message_of(vec![punct('<', 0), literal("1", 1)]);
    assert_eq!(m, "Expected '>' or 'Tag' after start of an element");
    assert_eq!(s, Some(at(1)));
    let (m, s) = message_of(vec![punct('<', 0)]);
    assert_eq!(m, "Expected '>' or 'Tag' after start of an element");
    assert_eq!(s, None);
}

#[test]
fn invalid_character_in_open_tag() {
    let (m, s) = message_of(vec![punct('<', 0), ident("View", 1), punct('#', 5)]);
    assert_eq!(m, "Invalid character was found");
    assert_eq!(s, Some(at(5)));
}

#[test]
fn equals_expected_after_attribute_name() {
    let (m, s) = message_of(vec![punct('<', 0), ident("View", 1), ident("style", 6), punct('/', 11)]);
    assert_eq!(m, "Expected '=' after attribute name");
    assert_eq!(s, Some(at(11)));
}

#[test]
fn punctuation_is_no_attribute_value() {
    let (m, s) = message_of(vec![punct('<', 0), ident("View", 1), ident("style", 6), punct('=', 11), punct('-', 12)]);
    assert_eq!(m, "Attribute value is invalid. Only String/Number/Boolean are allowed as literals");
    assert_eq!(s, Some(at(12)));
}

#[test]
fn empty_group_is_no_attribute_value() {
    let (m, s) = message_of(vec![
        punct('<', 0),
        ident("View", 1),
        ident("style", 6),
        punct('=', 11),
        group(Delimiter::Brace, vec![], 12),
        punct('/', 14),
        punct('>', 15),
    ]);
    assert_eq!(m, "Failed to parse the attribute value");
    assert_eq!(s, Some(at(12)));
}

#[test]
fn attribute_group_shapes() {
    // {a | b} is a handler, {(x)} passes the inner group, {1} and {true} are inlined.
    let tokens = vec![
        punct('<', 0),
        ident("View", 1),
        ident("on_a", 2),
        punct('=', 3),
        group(Delimiter::Brace, vec![ident("a", 5), punct('|', 6), ident("b", 7)], 4),
        ident("style", 8),
        punct('=', 9),
        group(Delimiter::Brace, vec![group(Delimiter::Parenthesis, vec![ident("x", 12)], 11)], 10),
        ident("flag", 13),
        punct('=', 14),
        group(Delimiter::Brace, vec![ident("true", 16)], 15),
        punct('/', 17),
        punct('>', 18),
    ];
    let element = parse_jsx_syntax(&tokens).expect("parses");
    let attributes = element.attributes.expect("attributes");
    assert!(matches!(&attributes[0].value, V::Event(_)));
    assert!(matches!(&attributes[1].value, V::Group(g) if g.delimiter == Delimiter::Parenthesis));
    assert!(matches!(&attributes[2].value, V::Ident(i, _) if i == "true"));
}

#[test]
fn lone_angle_among_children() {
    let (m, s) = message_of(vec![punct('<', 0), punct('>', 1), punct('<', 2), literal("1", 3)]);
    assert_eq!(m, "Unknown element children provided");
    assert_eq!(s, Some(at(2)));
}

#[test]
fn unclosed_element() {
    let (m, s) = message_of(vec![punct('<', 0), ident("Text", 1), punct('>', 5), ident("a", 6)]);
    assert_eq!(m, "Expected closing tag for the JSX element <Text>");
    assert_eq!(s, None);
}

#[test]
fn closing_tag_needs_its_angle() {
    let (m, s) = message_of(vec![
        punct('<', 0),
        ident("Text", 1),
        punct('>', 5),
        punct('<', 6),
        punct('/', 7),
        ident("Text", 8),
        punct(';', 12),
    ]);
    assert_eq!(m, "The element closing tag should end with '>'");
    assert_eq!(s, Some(at(12)));
}

#[test]
fn fragment_closes_with_bare_angle() {
    let good = check_close_tag(&None, &punct('>', 3));
    assert!(good.is_ok());
    let bad = check_close_tag(&None, &ident("View", 3)).expect_err("fragment");
    assert_eq!(bad.message, "Expected closing tag for the JSX element <>");
    let wrong = check_close_tag(&Some("View".to_string()), &punct('>', 3)).expect_err("tagged");
    assert_eq!(wrong.message, "Expected closing tag for the JSX element <View>");
    assert_eq!(wrong.span, Some(at(3)));
}

#[test]
fn key_must_be_a_string() {
    let tokens = vec![
        punct('<', 0),
        ident("View", 1),
        ident("key", 6),
        punct('=', 9),
        literal("12", 10),
        punct('/', 12),
        punct('>', 13),
    ];
    let element = parse_jsx_syntax(&tokens).expect("parses");
    let e = generate_output_for_element(&element).expect_err("numeric key");
    assert_eq!(e.message, "'key' is a reserved prop that must be a String");
}

#[test]
fn default_attribute_needs_parentheses() {
    let attr = AttrDecl { name: Some("default_function".to_string()), tokens: vec![punct('#', 0)], span: at(0) };
    let e = extract_ident_attr(&attr).expect_err("no group");
    assert_eq!(e.message, "Expected a default value for attribute");
    assert_eq!(e.span, Some(at(0)));
    let nested = AttrDecl {
        name: Some("default_function".to_string()),
        tokens: vec![group(Delimiter::Bracket, vec![group(Delimiter::Parenthesis, vec![ident("make", 3)], 2)], 1)],
        span: at(0),
    };
    assert_eq!(extract_ident_attr(&nested).expect("found"), "make");
    let field = FieldDecl {
        name: "f".to_string(),
        type_path: vec!["u8".to_string()],
        attributes: vec![
            AttrDecl { name: Some("doc".to_string()), tokens: vec![], span: at(0) },
            AttrDecl { name: Some("default".to_string()), tokens: vec![], span: at(0) },
        ],
    };
    assert!(matches!(classify_field(&field).expect("classifies").kind, socigy::builder::FieldType::Default));
}
