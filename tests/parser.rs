use socigy::emitter::{generate_output_for_element, to_camel_case, ChildPlan, Code, Construct, IdPlan, KeyPlan};
use socigy::elements::NativeElementType;
use socigy::jsx::{JsxAttributeValue, JsxChild};
use socigy::parser::{is_number, parse_jsx_syntax};
use socigy::tokens::{Delimiter, Group, Span, Token, TokenKind};

fn at(column: usize) -> Span {
    Span { line: 1, column }
}

fn punct(c: char, column: usize) -> Token {
    Token { kind: TokenKind::Punct(c), span: at(column) }
}

fn ident(s: &str, column: usize) -> Token {
    Token { kind: TokenKind::Ident(s.to_string()), span: at(column) }
}

fn literal(s: &str, column: usize) -> Token {
    Token { kind: TokenKind::Literal(s.to_string()), span: at(column) }
}

fn brace(stream: Vec<Token>, column: usize) -> Token {
    Token {
        kind: TokenKind::Group(Group { delimiter: Delimiter::Brace, stream, span: at(column) }),
        span: at(column),
    }
}

fn view_text_a() -> Vec<Token> {
    vec![
        punct('<', 0),
        ident("View", 1),
        punct('>', 5),
        punct('<', 6),
        ident("Text", 7),
        punct('>', 11),
        ident("A", 12),
        punct('<', 13),
        punct('/', 14),
        ident("Text", 15),
        punct('>', 19),
        punct('<', 20),
        punct('/', 21),
        ident("View", 22),
        punct('>', 26),
    ]
}

#[test]
fn parses_nested_view_and_text() {
    let element = parse_jsx_syntax(&view_text_a()).expect("parses");
    assert_eq!(element.tag.as_deref(), Some("View"));
    let children = element.children.expect("children");
    assert_eq!(children.len(), 1);
    match &children[0] {
        JsxChild::Element(text) => {
            assert_eq!(text.tag.as_deref(), Some("Text"));
            let inner = text.children.as_ref().expect("text child");
            assert_eq!(inner.len(), 1);
            assert!(matches!(&inner[0], JsxChild::String(s) if s == "A"));
        }
        other => panic!("unexpected child {:?}", other),
    }
}

#[test]
fn emits_native_view_with_text_child() {
    let element = parse_jsx_syntax(&view_text_a()).expect("parses");
    match generate_output_for_element(&element).expect("emits") {
        Construct::Native { kind, children, builder, .. } => {
            assert_eq!(kind, NativeElementType::View);
            assert!(builder.is_none());
            let children = children.expect("children");
            assert_eq!(children.len(), 1);
            match &children[0] {
                ChildPlan::Element(Construct::Native { kind, children, .. }) => {
                    assert_eq!(*kind, NativeElementType::Text);
                    let inner = children.as_ref().expect("text child");
                    assert_eq!(inner.len(), 1);
                    assert!(matches!(&inner[0], ChildPlan::Text(s) if s == "A"));
                }
                other => panic!("unexpected child {:?}", other),
            }
        }
        other => panic!("unexpected plan {:?}", other),
    }
}

fn view_with_key_and_handler() -> Vec<Token> {
    vec![
        punct('<', 0),
        ident("View", 1),
        ident("key", 6),
        punct('=', 9),
        literal("\"x\"", 10),
        ident("on_press", 14),
        punct('=', 22),
        brace(vec![ident("handler", 24)], 23),
        punct('/', 32),
        punct('>', 33),
    ]
}

#[test]
fn parses_self_closing_view_with_key_and_listener() {
    let element = parse_jsx_syntax(&view_with_key_and_handler()).expect("parses");
    assert_eq!(element.tag.as_deref(), Some("View"));
    assert!(element.children.is_none());
    let attributes = element.attributes.expect("attributes");
    assert_eq!(attributes.len(), 2);
    assert_eq!(attributes[0].name, "key");
    assert!(matches!(&attributes[0].value, JsxAttributeValue::Literal(l, _) if l == "\"x\""));
    assert_eq!(attributes[1].name, "on_press");
    assert!(matches!(&attributes[1].value, JsxAttributeValue::Variable(v) if v == "handler"));
}

#[test]
fn emits_key_and_press_listener_without_properties() {
    let element = parse_jsx_syntax(&view_with_key_and_handler()).expect("parses");
    match generate_output_for_element(&element).expect("emits") {
        Construct::Native { kind, builder, children, key, events } => {
            assert_eq!(kind, NativeElementType::View);
            assert!(builder.is_none());
            assert!(children.is_none());
            assert!(matches!(key, KeyPlan::Literal(ref k) if k == "x"));
            assert_eq!(events.len(), 1);
            assert_eq!(events[0].name, "onPress");
            assert!(matches!(&events[0].handler, Code::Ident(h) if h == "handler"));
        }
        other => panic!("unexpected plan {:?}", other),
    }
}

#[test]
fn mismatched_closing_tag_fails_at_that_token() {
    let tokens = vec![
        punct('<', 0),
        ident("View", 1),
        punct('>', 5),
        punct('<', 6),
        punct('/', 7),
        ident("Text", 8),
        punct('>', 12),
    ];
    let error = parse_jsx_syntax(&tokens).expect_err("mismatch");
    assert_eq!(error.message, "Expected closing tag for the JSX element <View>");
    assert_eq!(error.span, Some(at(8)));
}

#[test]
fn missing_open_angle_fails() {
    let tokens = vec![ident("View", 3)];
    let error = parse_jsx_syntax(&tokens).expect_err("no <");
    assert_eq!(error.message, "Expected '<' as a start of an element");
    assert_eq!(error.span, Some(at(3)));
    let error = parse_jsx_syntax(&Vec::new()).expect_err("empty");
    assert_eq!(error.span, None);
}

#[test]
fn fragment_with_words_and_punctuation() {
    // <>Speaker: name</>
    let tokens = vec![
        punct('<', 0),
        punct('>', 1),
        ident("Speaker", 2),
        punct(':', 9),
        ident("name", 11),
        punct('<', 15),
        punct('/', 16),
        punct('>', 17),
    ];
    let element = parse_jsx_syntax(&tokens).expect("parses");
    assert!(element.tag.is_none());
    let children = element.children.as_ref().expect("children");
    assert_eq!(children.len(), 1);
    assert!(matches!(&children[0], JsxChild::String(s) if s == "Speaker: name"));
    assert!(matches!(generate_output_for_element(&element).expect("emits"), Construct::Fragment { .. }));
}

#[test]
fn escaped_closing_is_text() {
    // <Text>a<//</Text>
    let tokens = vec![
        punct('<', 0),
        ident("Text", 1),
        punct('>', 5),
        ident("a", 6),
        punct('<', 7),
        punct('/', 8),
        punct('/', 9),
        punct('<', 10),
        punct('/', 11),
        ident("Text", 12),
        punct('>', 16),
    ];
    let element = parse_jsx_syntax(&tokens).expect("parses");
    let children = element.children.expect("children");
    assert_eq!(children.len(), 1);
    assert!(matches!(&children[0], JsxChild::String(s) if s == "a</"));
}

#[test]
fn duplicate_attribute_is_an_error() {
    let tokens = vec![
        punct('<', 0),
        ident("View", 1),
        ident("style", 6),
        punct('=', 11),
        literal("\"a\"", 12),
        ident("style", 16),
        punct('=', 21),
        literal("\"b\"", 22),
        punct('/', 25),
        punct('>', 26),
    ];
    let error = parse_jsx_syntax(&tokens).expect_err("duplicate");
    assert_eq!(error.message, "Multiple attributes with the same name detected");
}

#[test]
fn external_needs_a_valid_id() {
    let good = vec![
        punct('<', 0),
        ident("External", 1),
        ident("id", 10),
        punct('=', 12),
        literal("\"2580a897-0fcf-4d13-bfda-5472e1680fea\"", 13),
        ident("title", 50),
        punct('=', 55),
        literal("\"t\"", 56),
        punct('/', 59),
        punct('>', 60),
    ];
    let element = parse_jsx_syntax(&good).expect("parses");
    match generate_output_for_element(&element).expect("emits") {
        Construct::External { id, props, .. } => {
            assert!(matches!(id, IdPlan::Literal(bits) if bits == 0x2580a8970fcf4d13bfda5472e1680fea));
            assert_eq!(props.len(), 1);
            assert_eq!(props[0].name, "title");
        }
        other => panic!("unexpected plan {:?}", other),
    }
    let bad = vec![
        punct('<', 0),
        ident("External", 1),
        ident("id", 10),
        punct('=', 12),
        literal("\"not-a-uuid\"", 13),
        punct('/', 25),
        punct('>', 26),
    ];
    let element = parse_jsx_syntax(&bad).expect("parses");
    let error = generate_output_for_element(&element).expect_err("invalid id");
    assert_eq!(error.message, "External elements must have 'id' attribute with a valid UUID");
    let missing = vec![punct('<', 0), ident("External", 1), punct('/', 9), punct('>', 10)];
    let element = parse_jsx_syntax(&missing).expect("parses");
    let error = generate_output_for_element(&element).expect_err("no id");
    assert_eq!(error.message, "External elements must have 'id' attribute");
}

#[test]
fn user_component_receives_all_attributes() {
    let tokens = vec![
        punct('<', 0),
        ident("Counter", 1),
        ident("content", 9),
        punct('=', 16),
        brace(vec![ident("text", 18)], 17),
        punct('/', 23),
        punct('>', 24),
    ];
    let element = parse_jsx_syntax(&tokens).expect("parses");
    match generate_output_for_element(&element).expect("emits") {
        Construct::Component { name, fields, children } => {
            assert_eq!(name, "Counter");
            assert_eq!(fields.len(), 1);
            assert_eq!(fields[0].name, "content");
            assert!(children.is_none());
        }
        other => panic!("unexpected plan {:?}", other),
    }
}

#[test]
fn camel_case_of_listener_names() {
    assert_eq!(to_camel_case("on_press"), "onPress");
    assert_eq!(to_camel_case("on_end_reached"), "onEndReached");
    assert_eq!(to_camel_case("On-layout"), "onLayout");
    assert_eq!(to_camel_case(""), "");
}

#[test]
fn number_shapes() {
    assert!(is_number("42"));
    assert!(is_number("-3.5e10"));
    assert!(!is_number("x1"));
    assert!(!is_number("1."));
}
