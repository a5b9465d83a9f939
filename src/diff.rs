//! The positional differ: compares two element trees and lists the patches
//! that turn the first into the second.
use vstd::prelude::*;
use crate::elements::{
    child_model, children_of, element_model, entries_view, kids_model, native_entries, props_of,
    ChildModel, ElementModel, JsonValue, NativeElement, NativeElementType, PropValue, UIElement,
    UIElementChildren,
};

verus! {

/// One patch for the host, addressed by the path of child indices from the
/// root (the root itself is `[0]`).
#[derive(Debug)]
pub enum VDOMChange {
    AddElement { path: Vec<i32>, element: UIElement },
    RemoveElement { path: Vec<i32> },
    ReplaceElement { path: Vec<i32>, element: UIElement },
    UpdateText { path: Vec<i32>, text: String },
    UpdateProps { path: Vec<i32>, props: Vec<(String, PropValue)> },
    UpdateProp { path: Vec<i32>, key: String, value: PropValue },
    RemoveProp { path: Vec<i32>, key: String },
    RemoveProps { path: Vec<i32> },
    UpdateChildren { path: Vec<i32>, children: Vec<UIElementChildren> },
    UpdateChild { path: Vec<i32>, child: UIElementChildren },
    RemoveChildren { path: Vec<i32> },
    UpdateStyle { path: Vec<i32>, styles: Vec<(String, PropValue)> },
    RemoveAll,
}

/// The model of a patch.
pub enum Change {
    AddElement { path: Seq<i32>, element: ElementModel },
    RemoveElement { path: Seq<i32> },
    ReplaceElement { path: Seq<i32>, element: ElementModel },
    UpdateText { path: Seq<i32>, text: Seq<char> },
    UpdateProps { path: Seq<i32>, props: Seq<(Seq<char>, JsonValue)> },
    UpdateProp { path: Seq<i32>, key: Seq<char>, value: JsonValue },
    RemoveProp { path: Seq<i32>, key: Seq<char> },
    RemoveProps { path: Seq<i32> },
    UpdateChildren { path: Seq<i32>, children: Seq<ChildModel> },
    UpdateChild { path: Seq<i32>, child: ChildModel },
    RemoveChildren { path: Seq<i32> },
    UpdateStyle { path: Seq<i32>, styles: Seq<(Seq<char>, JsonValue)> },
    RemoveAll,
}

pub open spec fn change_model(c: VDOMChange) -> Change {
    match c {
        VDOMChange::AddElement { path, element } => Change::AddElement {
            path: path@,
            element: element_model(element),
        },
        VDOMChange::RemoveElement { path } => Change::RemoveElement { path: path@ },
        VDOMChange::ReplaceElement { path, element } => Change::ReplaceElement {
            path: path@,
            element: element_model(element),
        },
        VDOMChange::UpdateText { path, text } => Change::UpdateText { path: path@, text: text@ },
        VDOMChange::UpdateProps { path, props } => Change::UpdateProps {
            path: path@,
            props: entries_view(props@),
        },
        VDOMChange::UpdateProp { path, key, value } => Change::UpdateProp {
            path: path@,
            key: key@,
            value: value@,
        },
        VDOMChange::RemoveProp { path, key } => Change::RemoveProp { path: path@, key: key@ },
        VDOMChange::RemoveProps { path } => Change::RemoveProps { path: path@ },
        VDOMChange::UpdateChildren { path, children } => Change::UpdateChildren {
            path: path@,
            children: kids_model(children),
        },
        VDOMChange::UpdateChild { path, child } => Change::UpdateChild {
            path: path@,
            child: child_model(child),
        },
        VDOMChange::RemoveChildren { path } => Change::RemoveChildren { path: path@ },
        VDOMChange::UpdateStyle { path, styles } => Change::UpdateStyle {
            path: path@,
            styles: entries_view(styles@),
        },
        VDOMChange::RemoveAll => Change::RemoveAll,
    }
}

pub open spec fn changes_model(s: Seq<VDOMChange>) -> Seq<Change> {
    s.map_values(|c: VDOMChange| change_model(c))
}

/// Whether some entry has this name.
pub open spec fn has_key(entries: Seq<(Seq<char>, JsonValue)>, k: Seq<char>) -> bool {
    exists|j: int| 0 <= j < entries.len() && (#[trigger] entries[j]).0 == k
}

/// Whether some entry has this name and this value.
pub open spec fn has_entry(entries: Seq<(Seq<char>, JsonValue)>, k: Seq<char>, v: JsonValue) -> bool {
    exists|j: int| 0 <= j < entries.len() && (#[trigger] entries[j]).0 == k && entries[j].1 == v
}

/// An `UpdateProp` for each entry of `new` whose value `old` does not
/// hold, in the order of `new`.
pub open spec fn prop_updates(
    path: Seq<i32>,
    old: Seq<(Seq<char>, JsonValue)>,
    new: Seq<(Seq<char>, JsonValue)>,
) -> Seq<Change>
    decreases new.len(),
{
    if new.len() == 0 {
        seq![]
    } else {
        let e = new.last();
        prop_updates(path, old, new.drop_last()) + if has_entry(old, e.0, e.1) {
            seq![]
        } else {
            seq![Change::UpdateProp { path, key: e.0, value: e.1 }]
        }
    }
}

/// A `RemoveProp` for each entry of `old` whose name `new` lacks, in the
/// order of `old`.
pub open spec fn prop_removals(
    path: Seq<i32>,
    old: Seq<(Seq<char>, JsonValue)>,
    new: Seq<(Seq<char>, JsonValue)>,
) -> Seq<Change>
    decreases old.len(),
{
    if old.len() == 0 {
        seq![]
    } else {
        let e = old.last();
        prop_removals(path, old.drop_last(), new) + if has_key(new, e.0) {
            seq![]
        } else {
            seq![Change::RemoveProp { path, key: e.0 }]
        }
    }
}

/// The patches for the property bags of two elements at `path`.
pub open spec fn props_diff(
    path: Seq<i32>,
    old: Option<Seq<(Seq<char>, JsonValue)>>,
    new: Option<Seq<(Seq<char>, JsonValue)>>,
) -> Seq<Change> {
    match (old, new) {
        (Some(o), Some(n)) => prop_updates(path, o, n) + prop_removals(path, o, n),
        (None, Some(n)) => seq![Change::UpdateProps { path, props: n }],
        (Some(_), None) => seq![Change::RemoveProps { path }],
        (None, None) => seq![],
    }
}

/// A single-child fragment around a children entry.
pub open spec fn fragment_of(c: ChildModel) -> ElementModel {
    ElementModel::Native {
        kind: NativeElementType::Fragment,
        props: None,
        children: Some(seq![c]),
        key: None,
        events: None,
    }
}

/// The patches for the tree `old` against `new`, both at `path`.
pub open spec fn diff_elem(path: Seq<i32>, old: ElementModel, new: ElementModel) -> Seq<Change>
    decreases old, 0nat, 0nat,
{
    if !crate::elements::same_kind(old, new) {
        seq![Change::ReplaceElement { path, element: new }]
    } else {
        props_diff(path, props_of(old), props_of(new)) + children_diff(
            path,
            children_of(old),
            children_of(new),
        )
    }
}

/// The patches for the children lists of two elements at `path`.
pub open spec fn children_diff(
    path: Seq<i32>,
    old: Option<Seq<ChildModel>>,
    new: Option<Seq<ChildModel>>,
) -> Seq<Change>
    decreases old, 1nat, 0nat,
{
    match (old, new) {
        (Some(o), Some(n)) => kids_diff(
            path,
            o,
            n,
            if o.len() >= n.len() {
                o.len()
            } else {
                n.len()
            },
        ),
        (None, Some(n)) => if n.len() > 0 {
            seq![Change::UpdateChildren { path, children: n }]
        } else {
            seq![]
        },
        (Some(o), None) => if o.len() > 0 {
            seq![Change::RemoveChildren { path }]
        } else {
            seq![]
        },
        (None, None) => seq![],
    }
}

/// The patches for the children at the indices below `n`, index by index.
pub open spec fn kids_diff(path: Seq<i32>, old: Seq<ChildModel>, new: Seq<ChildModel>, n: nat) -> Seq<
    Change,
>
    decreases old, n, 1nat,
{
    if n == 0 {
        seq![]
    } else {
        kids_diff(path, old, new, (n - 1) as nat) + kid_diff(path, old, new, n - 1)
    }
}

/// The patches for the children at index `k`: two elements are compared
/// in depth; two other entries that differ give an `UpdateChild`; a new
/// entry is added inside a fragment; a former one is removed.
pub open spec fn kid_diff(path: Seq<i32>, old: Seq<ChildModel>, new: Seq<ChildModel>, k: int) -> Seq<
    Change,
>
    decreases old, 0nat, 0nat,
{
    let p = path.push(k as i32);
    if 0 <= k < old.len() && k < new.len() {
        match (old[k], new[k]) {
            (ChildModel::Element(a), ChildModel::Element(b)) => diff_elem(p, a, b),
            _ => if crate::elements::child_eq(old[k], new[k]) {
                seq![]
            } else {
                seq![Change::UpdateChild { path: p, child: new[k] }]
            },
        }
    } else if 0 <= k < new.len() {
        seq![Change::AddElement { path: p, element: fragment_of(new[k]) }]
    } else if 0 <= k < old.len() {
        seq![Change::RemoveElement { path: p }]
    } else {
        seq![]
    }
}

pub open spec fn opt_entries(p: Option<Vec<(String, PropValue)>>) -> Option<Seq<(Seq<char>, JsonValue)>> {
    match p {
        Some(v) => Some(entries_view(v@)),
        None => None,
    }
}

pub open spec fn opt_kids(c: Option<Vec<UIElementChildren>>) -> Option<Seq<ChildModel>> {
    match c {
        Some(v) => Some(kids_model(v)),
        None => None,
    }
}

fn copy_path(v: &Vec<i32>) -> (r: Vec<i32>)
    ensures
        r@ == v@,
{
    let mut r: Vec<i32> = Vec::new();
    let mut i: usize = 0;
    while i < v.len()
        invariant
            i <= v.len(),
            r@ == v@.subrange(0, i as int),
        decreases v.len() - i,
    {
        r.push(v[i]);
        i = i + 1;
        assert(r@ =~= v@.subrange(0, i as int));
    }
    assert(v@.subrange(0, v.len() as int) =~= v@);
    r
}

fn push_change(changes: &mut Vec<VDOMChange>, c: VDOMChange)
    ensures
        changes_model(final(changes)@) == changes_model(old(changes)@).push(change_model(c)),
{
    changes.push(c);
    assert(changes_model(changes@) =~= changes_model(old(changes)@).push(change_model(c)));
}

fn has_key_exec(entries: &Vec<(String, PropValue)>, k: &String) -> (r: bool)
    ensures
        r == has_key(entries_view(entries@), k@),
{
    let ghost ev = entries_view(entries@);
    let mut i: usize = 0;
    while i < entries.len()
        invariant
            i <= entries.len(),
            ev == entries_view(entries@),
            forall|j: int| 0 <= j < i ==> (#[trigger] ev[j]).0 != k@,
        decreases entries.len() - i,
    {
        if entries[i].0 == *k {
            assert(ev[i as int].0 == k@);
            return true;
        }
        i = i + 1;
    }
    false
}

fn has_entry_exec(entries: &Vec<(String, PropValue)>, k: &String, v: &PropValue) -> (r: bool)
    ensures
        r == has_entry(entries_view(entries@), k@, v@),
{
    let ghost ev = entries_view(entries@);
    let mut i: usize = 0;
    while i < entries.len()
        invariant
            i <= entries.len(),
            ev == entries_view(entries@),
            forall|j: int| 0 <= j < i ==> !((#[trigger] ev[j]).0 == k@ && ev[j].1 == v@),
        decreases entries.len() - i,
    {
        if entries[i].0 == *k && entries[i].1.same_as(v) {
            assert(ev[i as int].0 == k@ && ev[i as int].1 == v@);
            return true;
        }
        i = i + 1;
    }
    false
}

/// Appends the patches for two property bags at `index` (see `props_diff`).
fn compare_props(
    index: &Vec<i32>,
    old_props: &Option<Vec<(String, PropValue)>>,
    new_props: &Option<Vec<(String, PropValue)>>,
    changes: &mut Vec<VDOMChange>,
)
    ensures
        changes_model(final(changes)@) == changes_model(old(changes)@) + props_diff(
            index@,
            opt_entries(*old_props),
            opt_entries(*new_props),
        ),
{
    match (old_props, new_props) {
        (Some(o), Some(n)) => {
            let ghost om = entries_view(o@);
            let ghost nm = entries_view(n@);
            let ghost base = changes_model(changes@);
            let mut i: usize = 0;
            while i < n.len()
                invariant
                    i <= n.len(),
                    om == entries_view(o@),
                    nm == entries_view(n@),
                    changes_model(changes@) == base + prop_updates(index@, om, nm.subrange(0, i as int)),
                decreases n.len() - i,
            {
                if !has_entry_exec(o, &n[i].0, &n[i].1) {
                    let c = VDOMChange::UpdateProp {
                        path: copy_path(index),
                        key: n[i].0.clone(),
                        value: n[i].1.duplicate(),
                    };
                    push_change(changes, c);
                }
                assert(nm.subrange(0, i + 1).drop_last() =~= nm.subrange(0, i as int));
                i = i + 1;
            }
            assert(nm.subrange(0, n.len() as int) =~= nm);
            let ghost mid = changes_model(changes@);
            let mut i: usize = 0;
            while i < o.len()
                invariant
                    i <= o.len(),
                    om == entries_view(o@),
                    nm == entries_view(n@),
                    changes_model(changes@) == mid + prop_removals(index@, om.subrange(0, i as int), nm),
                decreases o.len() - i,
            {
                if !has_key_exec(n, &o[i].0) {
                    let c = VDOMChange::RemoveProp { path: copy_path(index), key: o[i].0.clone() };
                    push_change(changes, c);
                }
                assert(om.subrange(0, i + 1).drop_last() =~= om.subrange(0, i as int));
                i = i + 1;
            }
            assert(om.subrange(0, o.len() as int) =~= om);
            assert(changes_model(changes@) =~= base + (prop_updates(index@, om, nm) + prop_removals(
                index@,
                om,
                nm,
            )));
        },
        (None, Some(n)) => {
            let c = VDOMChange::UpdateProps { path: copy_path(index), props: crate::elements::copy_entries(n) };
            push_change(changes, c);
        },
        (Some(_), None) => {
            push_change(changes, VDOMChange::RemoveProps { path: copy_path(index) });
        },
        (None, None) => {
            assert(changes_model(changes@) =~= changes_model(old(changes)@) + seq![]);
        },
    }
}

/// Appends the patches for `old` against `new`, both at `index` (see
/// `diff_elem`). `index` is as it was when this returns.
pub fn compare_element(
    index: &mut Vec<i32>,
    old_tree: &UIElement,
    new_tree: &UIElement,
    changes: &mut Vec<VDOMChange>,
)
    ensures
        final(index)@ == old(index)@,
        changes_model(final(changes)@) == changes_model(old(changes)@) + diff_elem(
            old(index)@,
            element_model(*old_tree),
            element_model(*new_tree),
        ),
    decreases *old_tree, 0nat,
{
    match (old_tree, new_tree) {
        (UIElement::Native(o), UIElement::Native(n)) => {
            if o.native_type != n.native_type {
                let c = VDOMChange::ReplaceElement { path: copy_path(index), element: new_tree.duplicate() };
                push_change(changes, c);
                return ;
            }
            let op = match &o.props {
                Some(p) => Some(p.entries()),
                None => None,
            };
            let np = match &n.props {
                Some(p) => Some(p.entries()),
                None => None,
            };
            compare_props(index, &op, &np, changes);
            compare_children(index, &o.children, &n.children, changes);
        },
        (UIElement::External(o), UIElement::External(n)) => {
            if o.id != n.id {
                let c = VDOMChange::ReplaceElement { path: copy_path(index), element: new_tree.duplicate() };
                push_change(changes, c);
                return ;
            }
            compare_props(index, &o.props, &n.props, changes);
            compare_children(index, &o.children, &n.children, changes);
        },
        _ => {
            let c = VDOMChange::ReplaceElement { path: copy_path(index), element: new_tree.duplicate() };
            push_change(changes, c);
        },
    }
}

/// Appends the patches for two children lists at `parent_index` (see
/// `children_diff`).
fn compare_children(
    parent_index: &mut Vec<i32>,
    old_children: &Option<Vec<UIElementChildren>>,
    new_children: &Option<Vec<UIElementChildren>>,
    changes: &mut Vec<VDOMChange>,
)
    ensures
        final(parent_index)@ == old(parent_index)@,
        changes_model(final(changes)@) == changes_model(old(changes)@) + children_diff(
            old(parent_index)@,
            opt_kids(*old_children),
            opt_kids(*new_children),
        ),
    decreases *old_children, 2nat,
{
    match (old_children, new_children) {
        (Some(o), Some(n)) => {
            compare_child_lists(parent_index, o, n, changes);
        },
        (None, Some(n)) => {
            if n.len() > 0 {
                let c = VDOMChange::UpdateChildren {
                    path: copy_path(parent_index),
                    children: crate::elements::copy_kids(n),
                };
                push_change(changes, c);
            } else {
                assert(changes_model(changes@) =~= changes_model(old(changes)@) + seq![]);
            }
        },
        (Some(o), None) => {
            if o.len() > 0 {
                push_change(changes, VDOMChange::RemoveChildren { path: copy_path(parent_index) });
            } else {
                assert(changes_model(changes@) =~= changes_model(old(changes)@) + seq![]);
            }
        },
        (None, None) => {
            assert(changes_model(changes@) =~= changes_model(old(changes)@) + seq![]);
        },
    }
}

fn compare_child_lists(
    parent_index: &mut Vec<i32>,
    old_list: &Vec<UIElementChildren>,
    new_list: &Vec<UIElementChildren>,
    changes: &mut Vec<VDOMChange>,
)
    ensures
        final(parent_index)@ == old(parent_index)@,
        changes_model(final(changes)@) == changes_model(old(changes)@) + kids_diff(
            old(parent_index)@,
            kids_model(*old_list),
            kids_model(*new_list),
            if old_list@.len() >= new_list@.len() {
                old_list@.len()
            } else {
                new_list@.len()
            },
        ),
    decreases *old_list, 1nat,
{
    let max_len = if old_list.len() >= new_list.len() {
        old_list.len()
    } else {
        new_list.len()
    };
    let ghost path = parent_index@;
    let ghost om = kids_model(*old_list);
    let ghost nm = kids_model(*new_list);
    let ghost base = changes_model(changes@);
    let mut i: usize = 0;
    while i < max_len
        invariant
            i <= max_len,
            max_len == if old_list@.len() >= new_list@.len() {
                old_list@.len()
            } else {
                new_list@.len()
            },
            parent_index@ == path,
            om == kids_model(*old_list),
            nm == kids_model(*new_list),
            changes_model(changes@) == base + kids_diff(path, om, nm, i as nat),
        decreases max_len - i,
    {
        parent_index.push(i as i32);
        let ghost before = changes_model(changes@);
        if i < old_list.len() && i < new_list.len() {
            match (&old_list[i], &new_list[i]) {
                (UIElementChildren::Element(a), UIElementChildren::Element(b)) => {
                    compare_element(parent_index, a, b, changes);
                },
                _ => {
                    if !old_list[i].equals(&new_list[i]) {
                        let c = VDOMChange::UpdateChild {
                            path: copy_path(parent_index),
                            child: new_list[i].duplicate(),
                        };
                        push_change(changes, c);
                    } else {
                        assert(changes_model(changes@) =~= before + seq![]);
                    }
                },
            }
        } else if i < new_list.len() {
            let mut kids: Vec<UIElementChildren> = Vec::new();
            kids.push(new_list[i].duplicate());
            let frag = UIElement::Native(
                NativeElement {
                    native_type: NativeElementType::Fragment,
                    props: None,
                    children: Some(kids),
                    key: None,
                    events: None,
                },
            );
            assert(kids_model(kids) =~= seq![nm[i as int]]);
            let c = VDOMChange::AddElement { path: copy_path(parent_index), element: frag };
            push_change(changes, c);
        } else {
            push_change(changes, VDOMChange::RemoveElement { path: copy_path(parent_index) });
        }
        assert(changes_model(changes@) =~= before + kid_diff(path, om, nm, i as int));
        assert(kids_diff(path, om, nm, (i + 1) as nat) == kids_diff(path, om, nm, i as nat) + kid_diff(
            path,
            om,
            nm,
            i as int,
        ));
        assert(changes_model(changes@) =~= base + kids_diff(path, om, nm, (i + 1) as nat));
        parent_index.pop();
        assert(parent_index@ =~= path);
        i = i + 1;
    }
}

/// What comparing two render results asks of the host.
#[derive(Debug)]
pub enum DiffOutcome {
    /// There is no earlier tree: the host draws the new result whole.
    FullRender,
    /// The host applies these patches in order.
    Patches(Vec<VDOMChange>),
}

pub open spec fn opt_model(e: Option<&UIElement>) -> Option<ElementModel> {
    match e {
        Some(e) => Some(element_model(*e)),
        None => None,
    }
}

/// What `diff` asks of the host: `None` for a full render, or the patches.
pub open spec fn diff_spec(old: Option<ElementModel>, new: Option<ElementModel>) -> Option<Seq<Change>> {
    match (old, new) {
        (None, _) => None,
        (Some(_), None) => Some(seq![Change::RemoveAll]),
        (Some(o), Some(n)) => Some(diff_elem(seq![0i32], o, n)),
    }
}

/// Compares the previous render result with the new one.
pub fn diff(old: Option<&UIElement>, new: Option<&UIElement>) -> (r: DiffOutcome)
    ensures
        match r {
            DiffOutcome::FullRender => diff_spec(opt_model(old), opt_model(new)) is None,
            DiffOutcome::Patches(v) => diff_spec(opt_model(old), opt_model(new)) == Some(
                changes_model(v@),
            ),
        },
{
    match (old, new) {
        (None, _) => DiffOutcome::FullRender,
        (Some(_), None) => {
            let mut v: Vec<VDOMChange> = Vec::new();
            push_change(&mut v, VDOMChange::RemoveAll);
            assert(changes_model(v@) =~= seq![Change::RemoveAll]);
            DiffOutcome::Patches(v)
        },
        (Some(o), Some(n)) => {
            let mut index: Vec<i32> = Vec::new();
            index.push(0);
            let mut changes: Vec<VDOMChange> = Vec::new();
            assert(changes_model(changes@) =~= seq![]);
            compare_element(&mut index, o, n, &mut changes);
            assert(index@ =~= seq![0i32]);
            assert(changes_model(changes@) =~= diff_elem(seq![0i32], element_model(*o), element_model(*n)));
            DiffOutcome::Patches(changes)
        },
    }
}

/// An element with its children list replaced.
pub open spec fn with_children(e: ElementModel, c: Option<Seq<ChildModel>>) -> ElementModel {
    match e {
        ElementModel::Native { kind, props, key, events, .. } => ElementModel::Native {
            kind,
            props,
            children: c,
            key,
            events,
        },
        ElementModel::External { id, props, key, events, .. } => ElementModel::External {
            id,
            props,
            children: c,
            key,
            events,
        },
    }
}

proof fn lemma_updates_none(path: Seq<i32>, old: Seq<(Seq<char>, JsonValue)>, new: Seq<(Seq<char>, JsonValue)>)
    requires
        forall|j: int| 0 <= j < new.len() ==> has_entry(old, (#[trigger] new[j]).0, new[j].1),
    ensures
        prop_updates(path, old, new) == Seq::<Change>::empty(),
    decreases new.len(),
{
    if new.len() > 0 {
        let e = new.last();
        assert(has_entry(old, new[new.len() - 1].0, new[new.len() - 1].1));
        lemma_updates_none(path, old, new.drop_last());
        assert(prop_updates(path, old, new) =~= Seq::<Change>::empty());
    }
}

proof fn lemma_removals_none(path: Seq<i32>, old: Seq<(Seq<char>, JsonValue)>, new: Seq<(Seq<char>, JsonValue)>)
    requires
        forall|j: int| 0 <= j < old.len() ==> has_key(new, (#[trigger] old[j]).0),
    ensures
        prop_removals(path, old, new) == Seq::<Change>::empty(),
    decreases old.len(),
{
    if old.len() > 0 {
        assert(has_key(new, old[old.len() - 1].0));
        lemma_removals_none(path, old.drop_last(), new);
        assert(prop_removals(path, old, new) =~= Seq::<Change>::empty());
    }
}

proof fn lemma_props_same(path: Seq<i32>, p: Option<Seq<(Seq<char>, JsonValue)>>)
    ensures
        props_diff(path, p, p) == Seq::<Change>::empty(),
{
    if let Some(e) = p {
        assert forall|j: int| 0 <= j < e.len() implies has_entry(e, (#[trigger] e[j]).0, e[j].1) by {
            assert(e[j].0 == e[j].0 && e[j].1 == e[j].1);
        }
        assert forall|j: int| 0 <= j < e.len() implies has_key(e, (#[trigger] e[j]).0) by {
            assert(e[j].0 == e[j].0);
        }
        lemma_updates_none(path, e, e);
        lemma_removals_none(path, e, e);
        assert(props_diff(path, p, p) =~= Seq::<Change>::empty());
    }
}

proof fn lemma_child_eq_refl(c: ChildModel)
    ensures
        crate::elements::child_eq(c, c),
{
    match c {
        ChildModel::Optional(x) => {
            assert forall|i: int| 0 <= i < x.len() implies match (#[trigger] x[i], x[i]) {
                (Some(p), Some(q)) => crate::elements::shallow_eq(p, q),
                (None, None) => true,
                _ => false,
            } by {}
        },
        ChildModel::Elements(x) => {
            assert forall|i: int| 0 <= i < x.len() implies crate::elements::shallow_eq(
                #[trigger] x[i],
                x[i],
            ) by {}
        },
        _ => {},
    }
}

proof fn lemma_kids_same(path: Seq<i32>, kids: Seq<ChildModel>, n: nat)
    requires
        n <= kids.len(),
    ensures
        kids_diff(path, kids, kids, n) == Seq::<Change>::empty(),
    decreases kids, n,
{
    if n > 0 {
        let k = n - 1;
        lemma_kids_same(path, kids, (n - 1) as nat);
        match kids[k] {
            ChildModel::Element(a) => {
                lemma_tree_same(path.push(k as i32), a);
            },
            _ => {
                lemma_child_eq_refl(kids[k]);
            },
        }
        assert(kid_diff(path, kids, kids, k) =~= Seq::<Change>::empty());
        assert(kids_diff(path, kids, kids, n) =~= Seq::<Change>::empty());
    }
}

/// Comparing a tree with itself, at any path, gives no patch.
pub proof fn lemma_tree_same(path: Seq<i32>, t: ElementModel)
    ensures
        diff_elem(path, t, t) == Seq::<Change>::empty(),
    decreases t, 0nat,
{
    lemma_props_same(path, props_of(t));
    match children_of(t) {
        Some(kids) => {
            lemma_kids_same(path, kids, kids.len());
        },
        None => {},
    }
    assert(diff_elem(path, t, t) =~= Seq::<Change>::empty());
}

/// With no earlier tree the host draws the new one whole (never a patch
/// list); a tree followed by no tree gives exactly one `RemoveAll`.
pub proof fn lemma_diff_absent(t: ElementModel)
    ensures
        diff_spec(None, Some(t)) is None,
        diff_spec(Some(t), None) == Some(seq![Change::RemoveAll]),
{
}

/// Two identical trees give an empty patch list.
pub proof fn lemma_diff_identical(t: ElementModel)
    ensures
        diff_spec(Some(t), Some(t)) == Some(Seq::<Change>::empty()),
{
    lemma_tree_same(seq![0i32], t);
}

/// Where the category, the native kind or the external identifier changes
/// at a path, the patches are exactly one `ReplaceElement` at that path,
/// with nothing for the former children.
pub proof fn lemma_kind_change(path: Seq<i32>, old: ElementModel, new: ElementModel)
    requires
        !crate::elements::same_kind(old, new),
    ensures
        diff_elem(path, old, new) == seq![Change::ReplaceElement { path, element: new }],
{
}

proof fn lemma_kids_prefix(
    path: Seq<i32>,
    old: Seq<ChildModel>,
    n1: Seq<ChildModel>,
    n2: Seq<ChildModel>,
    m: nat,
)
    requires
        m <= old.len(),
        m <= n1.len(),
        m <= n2.len(),
        forall|k: int| 0 <= k < m ==> n1[k] == n2[k],
    ensures
        kids_diff(path, old, n1, m) == kids_diff(path, old, n2, m),
    decreases m,
{
    if m > 0 {
        lemma_kids_prefix(path, old, n1, n2, (m - 1) as nat);
        assert(kid_diff(path, old, n1, m - 1) == kid_diff(path, old, n2, m - 1));
    }
}

/// Appending one child to a children list of length `n` gives exactly one
/// `AddElement` at the path extended by `n`, holding the new child in a
/// fragment, and no patch for the indices below `n`.
pub proof fn lemma_append_child(path: Seq<i32>, t: ElementModel, c: ChildModel)
    requires
        children_of(t) is Some,
    ensures
        diff_elem(path, t, with_children(t, Some(children_of(t).unwrap().push(c)))) == seq![
            Change::AddElement {
                path: path.push(children_of(t).unwrap().len() as i32),
                element: fragment_of(c),
            },
        ],
{
    let kids = children_of(t).unwrap();
    let more = kids.push(c);
    let t2 = with_children(t, Some(more));
    let n = kids.len();
    lemma_props_same(path, props_of(t));
    assert(props_of(t2) == props_of(t));
    lemma_kids_prefix(path, kids, more, kids, n);
    lemma_kids_same(path, kids, n);
    assert(kid_diff(path, kids, more, n as int) == seq![
        Change::AddElement { path: path.push(n as i32), element: fragment_of(c) },
    ]);
    assert(kids_diff(path, kids, more, n + 1) =~= seq![
        Change::AddElement { path: path.push(n as i32), element: fragment_of(c) },
    ]);
    assert(diff_elem(path, t, t2) =~= seq![
        Change::AddElement { path: path.push(n as i32), element: fragment_of(c) },
    ]);
}

/// The node that a path of child indices reaches from `t`, each step going
/// through an element entry.
pub open spec fn node_at(t: ElementModel, rel: Seq<int>) -> Option<ElementModel>
    decreases rel.len(),
{
    if rel.len() == 0 {
        Some(t)
    } else {
        match children_of(t) {
            Some(kids) => if 0 <= rel[0] < kids.len() && kids[rel[0]] is Element {
                node_at(kids[rel[0]]->Element_0, rel.drop_first())
            } else {
                None
            },
            None => None,
        }
    }
}

/// The tree with the node at the path `rel` replaced by `s`.
pub open spec fn replace_at(t: ElementModel, rel: Seq<int>, s: ElementModel) -> ElementModel
    decreases rel.len(),
{
    if rel.len() == 0 {
        s
    } else {
        match children_of(t) {
            Some(kids) => if 0 <= rel[0] < kids.len() && kids[rel[0]] is Element {
                with_children(
                    t,
                    Some(
                        kids.update(
                            rel[0],
                            ChildModel::Element(replace_at(kids[rel[0]]->Element_0, rel.drop_first(), s)),
                        ),
                    ),
                )
            } else {
                t
            },
            None => t,
        }
    }
}

/// `path` followed by the indices of `rel`.
pub open spec fn extend(path: Seq<i32>, rel: Seq<int>) -> Seq<i32> {
    path + rel.map_values(|i: int| i as i32)
}

proof fn lemma_kid_same(path: Seq<i32>, kids: Seq<ChildModel>, k: int)
    requires
        0 <= k < kids.len(),
    ensures
        kid_diff(path, kids, kids, k) == Seq::<Change>::empty(),
{
    match kids[k] {
        ChildModel::Element(a) => {
            lemma_tree_same(path.push(k as i32), a);
        },
        _ => {
            lemma_child_eq_refl(kids[k]);
        },
    }
    assert(kid_diff(path, kids, kids, k) =~= Seq::<Change>::empty());
}

proof fn lemma_kids_one_changed(path: Seq<i32>, o: Seq<ChildModel>, n: Seq<ChildModel>, k: int, m: nat)
    requires
        o.len() == n.len(),
        0 <= k < o.len(),
        forall|j: int| 0 <= j < o.len() && j != k ==> o[j] == n[j],
        m <= o.len(),
    ensures
        kids_diff(path, o, n, m) == if m <= k {
            Seq::<Change>::empty()
        } else {
            kid_diff(path, o, n, k)
        },
    decreases m,
{
    if m > 0 {
        lemma_kids_one_changed(path, o, n, k, (m - 1) as nat);
        if m - 1 != k {
            lemma_kid_same(path, o, m - 1);
            assert(kid_diff(path, o, n, m - 1) == kid_diff(path, o, o, m - 1));
        }
        assert(kids_diff(path, o, n, m) =~= if m <= k {
            Seq::<Change>::empty()
        } else {
            kid_diff(path, o, n, k)
        });
    }
}

/// Changing the node at a path of a tree gives exactly the patches of
/// that node against its replacement, at that path: nothing for the rest
/// of the tree.
pub proof fn lemma_change_at(path: Seq<i32>, t: ElementModel, rel: Seq<int>, s: ElementModel)
    requires
        node_at(t, rel) is Some,
    ensures
        diff_elem(path, t, replace_at(t, rel, s)) == diff_elem(
            extend(path, rel),
            node_at(t, rel)->0,
            s,
        ),
    decreases rel.len(),
{
    if rel.len() == 0 {
        assert(extend(path, rel) =~= path);
    } else {
        let kids = children_of(t)->0;
        let k = rel[0];
        let child = kids[k]->Element_0;
        let new_child = replace_at(child, rel.drop_first(), s);
        let kids2 = kids.update(k, ChildModel::Element(new_child));
        let t2 = with_children(t, Some(kids2));
        assert(replace_at(t, rel, s) == t2);
        lemma_change_at(path.push(k as i32), child, rel.drop_first(), s);
        assert(extend(path.push(k as i32), rel.drop_first()) =~= extend(path, rel));
        lemma_props_same(path, props_of(t));
        assert(props_of(t2) == props_of(t));
        assert(crate::elements::same_kind(t, t2));
        lemma_kids_one_changed(path, kids, kids2, k, kids.len());
        assert(kid_diff(path, kids, kids2, k) == diff_elem(path.push(k as i32), child, new_child));
        assert(diff_elem(path, t, t2) =~= diff_elem(path.push(k as i32), child, new_child));
    }
}

/// Replacing the node at a path of a tree by one of another category,
/// native kind or external identifier gives exactly one `ReplaceElement`
/// at that path, with nothing for the former children.
pub proof fn lemma_replace_kind_at(path: Seq<i32>, t: ElementModel, rel: Seq<int>, s: ElementModel)
    requires
        node_at(t, rel) is Some,
        !crate::elements::same_kind(node_at(t, rel)->0, s),
    ensures
        diff_elem(path, t, replace_at(t, rel, s)) == seq![
            Change::ReplaceElement { path: extend(path, rel), element: s },
        ],
{
    lemma_change_at(path, t, rel, s);
}

/// Appending one child to the children (of length `n`) of the node at a
/// path of a tree gives exactly one `AddElement`, at that path extended by
/// `n`, and no patch for the indices below `n`.
pub proof fn lemma_append_child_at(path: Seq<i32>, t: ElementModel, rel: Seq<int>, c: ChildModel)
    requires
        node_at(t, rel) matches Some(node) && children_of(node) is Some,
    ensures
        ({
            let node = node_at(t, rel)->0;
            let kids = children_of(node)->0;
            diff_elem(path, t, replace_at(t, rel, with_children(node, Some(kids.push(c))))) == seq![
                Change::AddElement {
                    path: extend(path, rel).push(kids.len() as i32),
                    element: fragment_of(c),
                },
            ]
        }),
{
    let node = node_at(t, rel)->0;
    let kids = children_of(node)->0;
    lemma_change_at(path, t, rel, with_children(node, Some(kids.push(c))));
    lemma_append_child(extend(path, rel), node, c);
}

} // verus!
