use socigy::builder::{derive_builder, generate_field_build, AttrDecl, FieldBuild, FieldDecl, FieldType};
use socigy::callbacks::{register_callback, register_callback_with_id, CallbackError, CallbackResult, Registry};
use socigy::elements::{NativeElement, NativeElementType, PropStr, UIElement, UIElementChildren};
use socigy::internet::{fetch, FetchError};
use socigy::logging::{LogLevel, Logger};
use socigy::permissions::PermissionState;
use socigy::tokens::{Delimiter, Group, Span, Token, TokenKind};

#[test]
fn callback_result_accessors() {
    let ok: CallbackResult<u32> = CallbackResult::new(Some(5), None);
    assert!(ok.is_ok());
    assert!(!ok.is_error());
    assert_eq!(ok.get_result(), Some(&5));
    assert_eq!(*ok.expect_result("needs a result"), 5);
    let failed: CallbackResult<u32> = CallbackResult::new(
        None,
        Some(CallbackError::General { error: "E".to_string(), message: "m".to_string(), code: 3 }),
    );
    assert!(failed.is_error());
    assert!(failed.get_result().is_none());
    assert!(matches!(failed.get_error(), Some(CallbackError::General { code: 3, .. })));
    assert!(ok.get_error().is_none());
    assert!(matches!(failed.expect_error("needs an error"), CallbackError::General { code: 3, .. }));
}

#[test]
fn registry_register_lookup_remove() {
    let mut registry: Registry<u32> = Registry::new();
    let id = register_callback(&mut registry, "id-1".to_string(), 10);
    assert_eq!(id, "id-1");
    register_callback_with_id(&mut registry, "id-2".to_string(), 20);
    register_callback_with_id(&mut registry, "id-1".to_string(), 11);
    assert_eq!(registry.lookup(&"id-1".to_string()), Some(&11));
    assert_eq!(registry.remove(&"id-1".to_string()), Some(11));
    assert_eq!(registry.remove(&"id-1".to_string()), None);
    assert_eq!(registry.lookup(&"id-2".to_string()), Some(&20));
}

#[test]
fn element_listeners() {
    let mut e = UIElement::Native(NativeElement::new(NativeElementType::View, None, None, None));
    assert_eq!(e.add_event_listener("onPress", "l1".to_string()), "l1");
    e.add_event_listener("onPress", "l2".to_string());
    e.add_event_listener("onPress", "l2".to_string());
    e.add_event_listener("onLayout", "l3".to_string());
    assert_eq!(e.event_listeners("onPress"), vec!["l1".to_string(), "l2".to_string()]);
    assert!(e.remove_event_listener_by_id("onPress", &"l1".to_string()));
    assert!(!e.remove_event_listener_by_id("onPress", &"l1".to_string()));
    assert_eq!(e.remove_event_listener("onPress"), vec!["l2".to_string()]);
    assert!(e.event_listeners("onPress").is_empty());
    assert_eq!(e.event_listeners("onLayout"), vec!["l3".to_string()]);
}

#[test]
fn permission_state_accessors() {
    let states = vec![
        PermissionState::new("camera".to_string(), true, true),
        PermissionState::new("internet".to_string(), false, true),
        PermissionState::new("storage".to_string(), false, false),
    ];
    assert_eq!(states[0].name(), "camera");
    assert!(states[0].granted());
    assert!(!states[2].can_ask_again());
    assert!(!states[1].granted());
}

#[test]
fn fetch_is_refused() {
    match fetch::<u8>() {
        Err(FetchError::AccessDenied(e)) => {
            assert_eq!(e.permission, "socigy.internet");
            assert_eq!(e.message, "Permission was not allowed");
        }
        Ok(_) => panic!("fetch must be refused"),
    }
}

#[test]
fn logger_defaults() {
    let logger = Logger::new(None, LogLevel::Info);
    assert_eq!(logger.name, "Default");
    assert!(!logger.writes());
    let logger = Logger::new(Some("ui".to_string()), LogLevel::Debug);
    assert_eq!(logger.name, "ui");
    assert!(logger.writes());
    assert_eq!(LogLevel::Info.label(), " INFO");
}

#[test]
fn prop_str_emptiness() {
    assert!(PropStr::String(String::new()).is_empty());
    assert!(!PropStr::String("x".to_string()).is_empty());
}

fn at() -> Span {
    Span { line: 1, column: 0 }
}

fn attr(name: &str, inner: Vec<Token>) -> AttrDecl {
    let group = Token {
        kind: TokenKind::Group(Group { delimiter: Delimiter::Parenthesis, stream: inner, span: at() }),
        span: at(),
    };
    AttrDecl { name: Some(name.to_string()), tokens: vec![group], span: at() }
}

#[test]
fn builder_field_kinds() {
    let fields = vec![
        FieldDecl { name: "title".to_string(), type_path: vec!["String".to_string()], attributes: vec![] },
        FieldDecl {
            name: "status".to_string(),
            type_path: vec!["String".to_string()],
            attributes: vec![attr("default_value", vec![Token { kind: TokenKind::Literal("\"Unmounted\"".to_string()), span: at() }])],
        },
        FieldDecl {
            name: "children".to_string(),
            type_path: vec!["std".to_string(), "option".to_string(), "Option".to_string()],
            attributes: vec![],
        },
        FieldDecl {
            name: "made".to_string(),
            type_path: vec!["u8".to_string()],
            attributes: vec![attr("default_function", vec![Token { kind: TokenKind::Ident("make".to_string()), span: at() }])],
        },
    ];
    let specs = derive_builder(&fields).expect("derives");
    assert!(matches!(specs[0].kind, FieldType::Required));
    assert_eq!(generate_field_build(&specs[0]), FieldBuild::Expect);
    assert!(matches!(&specs[1].kind, FieldType::DefaultValue(l) if l == "\"Unmounted\""));
    assert_eq!(generate_field_build(&specs[1]), FieldBuild::UnwrapOr);
    assert!(specs[2].is_option);
    assert_eq!(generate_field_build(&specs[2]), FieldBuild::Keep);
    assert!(matches!(&specs[3].kind, FieldType::DefaultFunction(f) if f == "make"));
    let bad = vec![FieldDecl {
        name: "x".to_string(),
        type_path: vec![],
        attributes: vec![attr("default_value", vec![])],
    }];
    let error = derive_builder(&bad).expect_err("no literal");
    assert_eq!(error.message, "Expected a valid default value for attribute");
}

#[test]
fn children_entry_conversions() {
    assert!(matches!(UIElementChildren::from(None::<UIElement>), UIElementChildren::Empty));
    assert!(matches!(UIElementChildren::from(Some("x".to_string())), UIElementChildren::String(s) if s == "x"));
    assert!(matches!(UIElementChildren::from(PropStr::from("p".to_string())), UIElementChildren::String(s) if s == "p"));
    let e = UIElement::from(NativeElement::new(NativeElementType::Text, None, None, None));
    assert!(matches!(UIElementChildren::from(vec![e]), UIElementChildren::Elements(v) if v.len() == 1));
    assert!(matches!(UIElementChildren::from(vec![None::<UIElement>]), UIElementChildren::OptionalElements(v) if v.len() == 1));
}

#[test]
fn children_list_becomes_optional_elements() {
    let list = vec![UIElementChildren::String("a".to_string()), UIElementChildren::Empty];
    match UIElementChildren::from(list) {
        UIElementChildren::OptionalElements(v) => {
            assert_eq!(v.len(), 2);
            assert!(matches!(&v[0], Some(UIElement::Native(n)) if n.native_type == NativeElementType::Text));
            assert!(matches!(&v[1], Some(UIElement::Native(n)) if n.native_type == NativeElementType::Fragment && n.children.is_none()));
        }
        other => panic!("unexpected {:?}", other),
    }
}
