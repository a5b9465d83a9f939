use socigy::diff::{compare_element, diff, DiffOutcome, VDOMChange};
use socigy::elements::{
    ExternalElement, NativeElement, NativeElementProps, NativeElementType, PropStr, PropValue,
    Text, UIElement, UIElementChildren, View,
};
use socigy::renderer::{ComponentInstance, PropsAction, RenderOutput, Renderer};
use socigy::serialize::{check_element_keys, check_optional_keys, serialize_children, SerializedChild};

fn text(s: &str) -> UIElementChildren {
    UIElementChildren::String(s.to_string())
}

fn native(kind: NativeElementType, children: Option<Vec<UIElementChildren>>) -> UIElement {
    UIElement::Native(NativeElement::new(kind, None, children, None))
}

fn sample_tree() -> UIElement {
    let label = native(NativeElementType::Text, Some(vec![text("A")]));
    let props = NativeElementProps::View(View {
        class_name: Some(PropStr::String("box".to_string())),
        style: None,
    });
    UIElement::Native(NativeElement::new(
        NativeElementType::View,
        Some(props),
        Some(vec![UIElementChildren::Element(label), text("B")]),
        Some("root".to_string()),
    ))
}

#[test]
fn no_previous_tree_means_full_render() {
    let t = sample_tree();
    assert!(matches!(diff(None, Some(&t)), DiffOutcome::FullRender));
    assert!(matches!(diff(None, None), DiffOutcome::FullRender));
}

#[test]
fn no_new_tree_means_remove_all() {
    let t = sample_tree();
    match diff(Some(&t), None) {
        DiffOutcome::Patches(v) => {
            assert_eq!(v.len(), 1);
            assert!(matches!(v[0], VDOMChange::RemoveAll));
        }
        DiffOutcome::FullRender => panic!("expected patches"),
    }
}

#[test]
fn identical_trees_give_no_patch() {
    let a = sample_tree();
    let b = sample_tree();
    match diff(Some(&a), Some(&b)) {
        DiffOutcome::Patches(v) => assert!(v.is_empty()),
        DiffOutcome::FullRender => panic!("expected patches"),
    }
}

#[test]
fn changed_kind_is_one_replace_without_recursion() {
    let old = native(
        NativeElementType::View,
        Some(vec![text("x"), UIElementChildren::Element(native(NativeElementType::Text, None))]),
    );
    let new = native(NativeElementType::ScrollView, Some(vec![text("y")]));
    let root = |child: UIElement| native(NativeElementType::View, Some(vec![UIElementChildren::Element(child)]));
    match diff(Some(&root(old)), Some(&root(new))) {
        DiffOutcome::Patches(v) => {
            assert_eq!(v.len(), 1);
            match &v[0] {
                VDOMChange::ReplaceElement { path, element } => {
                    assert_eq!(path, &vec![0, 0]);
                    assert!(matches!(element, UIElement::Native(n) if n.native_type == NativeElementType::ScrollView));
                }
                other => panic!("unexpected patch {:?}", other),
            }
        }
        DiffOutcome::FullRender => panic!("expected patches"),
    }
}

#[test]
fn appended_child_is_one_add() {
    let old = native(NativeElementType::View, Some(vec![text("a"), text("b")]));
    let new = native(NativeElementType::View, Some(vec![text("a"), text("b"), text("c")]));
    let mut path = vec![0];
    let mut changes = Vec::new();
    compare_element(&mut path, &old, &new, &mut changes);
    assert_eq!(path, vec![0]);
    assert_eq!(changes.len(), 1);
    match &changes[0] {
        VDOMChange::AddElement { path, element } => {
            assert_eq!(path, &vec![0, 2]);
            match element {
                UIElement::Native(n) => {
                    assert_eq!(n.native_type, NativeElementType::Fragment);
                    let kids = n.children.as_ref().expect("wrapped child");
                    assert_eq!(kids.len(), 1);
                    assert!(matches!(&kids[0], UIElementChildren::String(s) if s == "c"));
                }
                other => panic!("unexpected element {:?}", other),
            }
        }
        other => panic!("unexpected patch {:?}", other),
    }
}

#[test]
fn removed_child_and_changed_text() {
    let old = native(NativeElementType::View, Some(vec![text("a"), text("b")]));
    let new = native(NativeElementType::View, Some(vec![text("z")]));
    match diff(Some(&old), Some(&new)) {
        DiffOutcome::Patches(v) => {
            assert_eq!(v.len(), 2);
            assert!(matches!(&v[0], VDOMChange::UpdateChild { path, child: UIElementChildren::String(s) } if path == &vec![0, 0] && s == "z"));
            assert!(matches!(&v[1], VDOMChange::RemoveElement { path } if path == &vec![0, 1]));
        }
        DiffOutcome::FullRender => panic!("expected patches"),
    }
}

#[test]
fn property_changes_key_by_key() {
    let with = |class: Option<&str>, style: Option<&str>| {
        UIElement::Native(NativeElement::new(
            NativeElementType::View,
            Some(NativeElementProps::View(View {
                class_name: class.map(|c| PropStr::String(c.to_string())),
                style: style.map(|c| PropStr::String(c.to_string())),
            })),
            None,
            None,
        ))
    };
    match diff(Some(&with(Some("a"), Some("s"))), Some(&with(Some("b"), None))) {
        DiffOutcome::Patches(v) => {
            assert_eq!(v.len(), 2);
            assert!(matches!(&v[0], VDOMChange::UpdateProp { key, value: PropValue::Str(s), .. } if key == "className" && s == "b"));
            assert!(matches!(&v[1], VDOMChange::RemoveProp { key, .. } if key == "style"));
        }
        DiffOutcome::FullRender => panic!("expected patches"),
    }
    let bare = native(NativeElementType::View, None);
    match diff(Some(&bare), Some(&with(Some("a"), None))) {
        DiffOutcome::Patches(v) => {
            assert_eq!(v.len(), 1);
            assert!(matches!(&v[0], VDOMChange::UpdateProps { props, .. } if props.len() == 1 && props[0].0 == "className"));
        }
        DiffOutcome::FullRender => panic!("expected patches"),
    }
    match diff(Some(&with(Some("a"), None)), Some(&bare)) {
        DiffOutcome::Patches(v) => {
            assert_eq!(v.len(), 1);
            assert!(matches!(&v[0], VDOMChange::RemoveProps { .. }));
        }
        DiffOutcome::FullRender => panic!("expected patches"),
    }
}

#[test]
fn children_lists_appearing_and_going() {
    let none = native(NativeElementType::View, None);
    let some = native(NativeElementType::View, Some(vec![text("a")]));
    match diff(Some(&none), Some(&some)) {
        DiffOutcome::Patches(v) => {
            assert_eq!(v.len(), 1);
            assert!(matches!(&v[0], VDOMChange::UpdateChildren { children, .. } if children.len() == 1));
        }
        DiffOutcome::FullRender => panic!("expected patches"),
    }
    match diff(Some(&some), Some(&none)) {
        DiffOutcome::Patches(v) => {
            assert_eq!(v.len(), 1);
            assert!(matches!(&v[0], VDOMChange::RemoveChildren { .. }));
        }
        DiffOutcome::FullRender => panic!("expected patches"),
    }
}

#[test]
fn external_identifier_change_replaces() {
    let a = UIElement::External(ExternalElement::new(1, None, None, None));
    let b = UIElement::External(ExternalElement::new(2, None, None, None));
    match diff(Some(&a), Some(&b)) {
        DiffOutcome::Patches(v) => {
            assert_eq!(v.len(), 1);
            assert!(matches!(&v[0], VDOMChange::ReplaceElement { path, .. } if path == &vec![0]));
        }
        DiffOutcome::FullRender => panic!("expected patches"),
    }
}

#[test]
fn adjacent_strings_are_joined() {
    let children = vec![text("Hello"), text("World")];
    let out = serialize_children(&children);
    assert_eq!(out.len(), 1);
    assert!(matches!(&out[0], SerializedChild::Text(s) if s == "HelloWorld"));
}

#[test]
fn serialization_flattens_lists() {
    let element = native(NativeElementType::Text, None);
    let children = vec![
        text("a"),
        text("b"),
        text("c"),
        UIElementChildren::OptionalElements(vec![None, Some(native(NativeElementType::View, None))]),
        UIElementChildren::Empty,
        text("d"),
        UIElementChildren::Elements(vec![element]),
    ];
    let out = serialize_children(&children);
    assert_eq!(out.len(), 5);
    assert!(matches!(&out[0], SerializedChild::Text(s) if s == "abc"));
    assert!(matches!(&out[1], SerializedChild::Element(UIElement::Native(n)) if n.native_type == NativeElementType::View));
    assert!(matches!(&out[2], SerializedChild::Null));
    assert!(matches!(&out[3], SerializedChild::Text(s) if s == "d"));
    assert!(matches!(&out[4], SerializedChild::Element(_)));
}

#[test]
fn key_diagnostics() {
    let keyed = |k: Option<&str>| {
        UIElement::Native(NativeElement::new(NativeElementType::View, None, None, k.map(|s| s.to_string())))
    };
    let report = check_element_keys(&vec![keyed(Some("a")), keyed(Some("b")), keyed(Some("a"))]);
    assert_eq!(report.duplicates, vec!["a".to_string()]);
    assert!(!report.missing_key);
    let report = check_optional_keys(&vec![Some(keyed(Some("a"))), None, Some(keyed(None))]);
    assert!(report.duplicates.is_empty());
    assert!(report.missing_key);
}

#[test]
fn renderer_first_full_then_patches() {
    let mut renderer = Renderer::new(7);
    match renderer.render(Some(sample_tree())) {
        RenderOutput::Full(Some(_)) => {}
        other => panic!("unexpected output {:?}", other),
    }
    assert!(matches!(renderer.render(Some(sample_tree())), RenderOutput::Unchanged));
    match renderer.render(Some(native(NativeElementType::Image, None))) {
        RenderOutput::Changes(v) => assert_eq!(v.len(), 1),
        other => panic!("unexpected output {:?}", other),
    }
    match renderer.render(None) {
        RenderOutput::Changes(v) => assert!(matches!(v[0], VDOMChange::RemoveAll)),
        other => panic!("unexpected output {:?}", other),
    }
    assert!(renderer.vdom.is_none());
}

#[test]
fn props_cache_decisions() {
    let mut instance = ComponentInstance::new();
    match instance.update_component(None) {
        PropsAction::Deserialize { text, failure_is_fatal } => {
            assert_eq!(text, "{}");
            assert!(failure_is_fatal);
        }
        PropsAction::UseCached => panic!("nothing cached yet"),
    }
    instance.record_component(true);
    assert!(matches!(instance.update_component(None), PropsAction::UseCached));
    match instance.update_component(Some("{\"a\":1}".to_string())) {
        PropsAction::Deserialize { text, failure_is_fatal } => {
            assert_eq!(text, "{\"a\":1}");
            assert!(!failure_is_fatal);
        }
        PropsAction::UseCached => panic!("new properties"),
    }
    assert!(matches!(instance.update_component(Some("{\"a\":1}".to_string())), PropsAction::UseCached));
}

#[test]
fn children_entry_as_element() {
    let e = UIElement::from_children(text("hi"));
    match e {
        UIElement::Native(n) => {
            assert_eq!(n.native_type, NativeElementType::Text);
            assert_eq!(n.children.map(|c| c.len()), Some(1));
        }
        other => panic!("unexpected {:?}", other),
    }
    let e = UIElement::from_children(UIElementChildren::OptionalElements(vec![None, Some(native(NativeElementType::View, None))]));
    match e {
        UIElement::Native(n) => {
            assert_eq!(n.native_type, NativeElementType::Fragment);
            let kids = n.children.expect("kids");
            assert!(matches!(kids[0], UIElementChildren::Empty));
            assert!(matches!(kids[1], UIElementChildren::Element(_)));
        }
        other => panic!("unexpected {:?}", other),
    }
    let text_bag = NativeElementProps::Text(Text { class_name: None });
    assert!(text_bag.entries().is_empty());
}

#[test]
fn element_equality_is_shallow() {
    let a = native(NativeElementType::Text, Some(vec![text("a")]));
    let b = native(NativeElementType::Text, Some(vec![text("b")]));
    let c = native(NativeElementType::Text, Some(vec![text("a"), text("b")]));
    assert!(a == b);
    assert!(a != c);
    assert!(text("a") != text("b"));
    assert!(UIElementChildren::Element(a) == UIElementChildren::Element(b));
}
