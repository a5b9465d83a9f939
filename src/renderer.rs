//! The reconciler of one component instance: when to deserialize the
//! incoming properties, and what each render pass hands the host.
use vstd::prelude::*;
use crate::diff::{changes_model, diff, diff_spec, opt_model, Change, DiffOutcome, VDOMChange};
use crate::elements::{element_model, str_view, ElementModel, UIElement};

verus! {

/// What to do with the properties of a render request.
#[derive(Debug)]
pub enum PropsAction {
    /// The properties are those of the last pass and a component instance
    /// exists: use it.
    UseCached,
    /// Deserialize this text into a fresh instance. A failure is fatal for
    /// the instance when no properties were given (the component must
    /// accept an empty property set), and an ordinary error otherwise.
    Deserialize { text: String, failure_is_fatal: bool },
}

/// The property cache of a component instance.
#[derive(Debug)]
pub struct ComponentInstance {
    /// The serialized properties of the last request.
    pub last_props: Option<String>,
    /// Whether a deserialized instance exists.
    pub has_component: bool,
}

impl ComponentInstance {
    /// An instance that has not rendered yet.
    pub fn new() -> (r: Self)
        ensures
            r.last_props is None,
            !r.has_component,
    {
        ComponentInstance { last_props: None, has_component: false }
    }

    /// Decides, for a render request, whether the cached instance serves or
    /// the properties are deserialized afresh (an empty set, `{}`, when
    /// none are given).
    pub fn update_component(&mut self, props: Option<String>) -> (r: PropsAction)
        ensures
            str_view(props) == str_view(old(self).last_props) && old(self).has_component ==> (r
                is UseCached && final(self).last_props == old(self).last_props
                && final(self).has_component),
            !(str_view(props) == str_view(old(self).last_props) && old(self).has_component) ==> (
            str_view(final(self).last_props) == str_view(props) && final(self).has_component
                == old(self).has_component && (r matches PropsAction::Deserialize {
                text,
                failure_is_fatal,
            } && failure_is_fatal == props is None && text@ == match props {
                Some(p) => p@,
                None => "{}"@,
            })),
    {
        let same = match (&props, &self.last_props) {
            (Some(a), Some(b)) => *a == *b,
            (None, None) => true,
            _ => false,
        };
        if same && self.has_component {
            return PropsAction::UseCached;
        }
        self.last_props = crate::elements::copy_opt_string(&props);
        match props {
            Some(p) => PropsAction::Deserialize { text: p, failure_is_fatal: false },
            None => PropsAction::Deserialize { text: "{}".to_string(), failure_is_fatal: true },
        }
    }

    /// Records whether deserialization gave an instance.
    pub fn record_component(&mut self, present: bool)
        ensures
            final(self).has_component == present,
            final(self).last_props == old(self).last_props,
    {
        self.has_component = present;
    }
}

/// What one render pass hands the host.
#[derive(Debug)]
pub enum RenderOutput {
    /// The whole result, returned to the host to draw (there was no tree
    /// before).
    Full(Option<UIElement>),
    /// Patches pushed to the host.
    Changes(Vec<VDOMChange>),
    /// Nothing changed.
    Unchanged,
}

/// The renderer of one registered component instance: it keeps the tree of
/// the last render pass.
#[derive(Debug)]
pub struct Renderer {
    /// The stable identifier of the instance.
    pub id: u128,
    /// The tree of the last render pass.
    pub vdom: Option<UIElement>,
}

pub open spec fn opt_tree(e: Option<UIElement>) -> Option<ElementModel> {
    match e {
        Some(e) => Some(element_model(e)),
        None => None,
    }
}

impl Renderer {
    /// A renderer with no tree yet.
    pub fn new(id: u128) -> (r: Renderer)
        ensures
            r.id == id,
            r.vdom is None,
    {
        Renderer { id, vdom: None }
    }

    /// Takes the result of a render pass: the first result goes to the
    /// host whole; later ones are compared with the stored tree, and a
    /// non-empty patch list (a single `RemoveAll` when the result is
    /// nothing) is pushed. The result always replaces the stored tree.
    pub fn render(&mut self, result: Option<UIElement>) -> (r: RenderOutput)
        ensures
            final(self).id == old(self).id,
            opt_tree(final(self).vdom) == opt_tree(result),
            old(self).vdom is None ==> (r matches RenderOutput::Full(t) && opt_tree(t) == opt_tree(
                result,
            )),
            old(self).vdom is Some ==> match diff_spec(opt_tree(old(self).vdom), opt_tree(result)) {
                Some(changes) => if changes.len() == 0 {
                    r is Unchanged
                } else {
                    r matches RenderOutput::Changes(v) && changes_model(v@) == changes
                },
                None => false,
            },
    {
        let old_ref = self.vdom.as_ref();
        let new_ref = result.as_ref();
        assert(opt_model(old_ref) == opt_tree(self.vdom));
        assert(opt_model(new_ref) == opt_tree(result));
        let outcome = diff(old_ref, new_ref);
        let out = match outcome {
            DiffOutcome::FullRender => {
                let copy = match &result {
                    Some(e) => Some(e.duplicate()),
                    None => None,
                };
                RenderOutput::Full(copy)
            },
            DiffOutcome::Patches(v) => {
                if v.len() > 0 {
                    RenderOutput::Changes(v)
                } else {
                    RenderOutput::Unchanged
                }
            },
        };
        self.vdom = result;
        out
    }
}

} // verus!
