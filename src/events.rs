//! The listeners that an element carries: (event name, listener id) pairs.
//! The listeners themselves live in a `Registry` under their ids; an
//! element only records which ids answer which event.
use vstd::prelude::*;
use crate::elements::{UIElement, UIElementChildren};

verus! {

pub open spec fn pairs_view(s: Seq<(String, String)>) -> Seq<(Seq<char>, Seq<char>)> {
    s.map_values(|p: (String, String)| (p.0@, p.1@))
}

/// The (event name, listener id) pairs of an element.
pub open spec fn listeners_of(e: Option<Vec<(String, String)>>) -> Seq<(Seq<char>, Seq<char>)> {
    match e {
        Some(v) => pairs_view(v@),
        None => seq![],
    }
}

/// The ids listening to `name`, in order.
pub open spec fn ids_for(s: Seq<(Seq<char>, Seq<char>)>, name: Seq<char>) -> Seq<Seq<char>>
    decreases s.len(),
{
    if s.len() == 0 {
        seq![]
    } else {
        ids_for(s.drop_last(), name) + if s.last().0 == name {
            seq![s.last().1]
        } else {
            seq![]
        }
    }
}

/// The pairs that `keep` accepts, in order.
pub open spec fn keep_pairs(
    s: Seq<(Seq<char>, Seq<char>)>,
    keep: spec_fn((Seq<char>, Seq<char>)) -> bool,
) -> Seq<(Seq<char>, Seq<char>)>
    decreases s.len(),
{
    if s.len() == 0 {
        seq![]
    } else {
        keep_pairs(s.drop_last(), keep) + if keep(s.last()) {
            seq![s.last()]
        } else {
            seq![]
        }
    }
}

/// The ids listening to `name`.
pub fn listener_ids(events: &Option<Vec<(String, String)>>, name: &str) -> (r: Vec<String>)
    ensures
        r@.map_values(|s: String| s@) == ids_for(listeners_of(*events), name@),
{
    let mut r: Vec<String> = Vec::new();
    match events {
        None => {
            assert(r@.map_values(|s: String| s@) =~= ids_for(listeners_of(*events), name@));
        },
        Some(v) => {
            let ghost m = pairs_view(v@);
            let mut i: usize = 0;
            while i < v.len()
                invariant
                    i <= v.len(),
                    m == pairs_view(v@),
                    r@.map_values(|s: String| s@) == ids_for(m.subrange(0, i as int), name@),
                decreases v.len() - i,
            {
                assert(m.subrange(0, i + 1).drop_last() =~= m.subrange(0, i as int));
                if v[i].0 == name.to_string() {
                    r.push(v[i].1.clone());
                }
                i = i + 1;
                assert(r@.map_values(|s: String| s@) =~= ids_for(m.subrange(0, i as int), name@));
            }
            assert(m.subrange(0, v.len() as int) =~= m);
        },
    }
    r
}

/// Records that `id` listens to `name`; nothing changes if it already does.
pub fn add_listener(events: &mut Option<Vec<(String, String)>>, name: &str, id: &String)
    ensures
        listeners_of(*old(events)).contains((name@, id@)) ==> listeners_of(*final(events))
            == listeners_of(*old(events)),
        !listeners_of(*old(events)).contains((name@, id@)) ==> listeners_of(*final(events))
            == listeners_of(*old(events)).push((name@, id@)),
{
    if events.is_none() {
        *events = Some(Vec::new());
        assert(listeners_of(*events) =~= Seq::<(Seq<char>, Seq<char>)>::empty());
    }
    let mut v = events.take().unwrap();
    let ghost m = pairs_view(v@);
    let mut i: usize = 0;
    let mut found = false;
    while i < v.len() && !found
        invariant
            i <= v.len(),
            m == pairs_view(v@),
            found ==> m.contains((name@, id@)),
            !found ==> forall|j: int| 0 <= j < i ==> #[trigger] m[j] != (name@, id@),
        decreases v.len() - i, if found { 0int } else { 1int },
    {
        if v[i].0 == name.to_string() && v[i].1 == *id {
            assert(m[i as int] == (name@, id@));
            found = true;
        } else {
            i = i + 1;
        }
    }
    if !found {
        v.push((name.to_string(), id.clone()));
        assert(pairs_view(v@) =~= m.push((name@, id@)));
        assert(!m.contains((name@, id@)));
    }
    *events = Some(v);
}

/// Drops every listener of `name`; returns their ids, in order.
pub fn remove_listeners(events: &mut Option<Vec<(String, String)>>, name: &str) -> (r: Vec<String>)
    ensures
        r@.map_values(|s: String| s@) == ids_for(listeners_of(*old(events)), name@),
        listeners_of(*final(events)) == keep_pairs(
            listeners_of(*old(events)),
            |p: (Seq<char>, Seq<char>)| p.0 != name@,
        ),
        *old(events) is None ==> *final(events) is None,
{
    let ids = listener_ids(events, name);
    match events.take() {
        None => {
            assert(keep_pairs(seq![], |p: (Seq<char>, Seq<char>)| p.0 != name@) =~= seq![]);
            ids
        },
        Some(v) => {
            let ghost m = pairs_view(v@);
            let ghost keep = |p: (Seq<char>, Seq<char>)| p.0 != name@;
            let mut kept: Vec<(String, String)> = Vec::new();
            let mut i: usize = 0;
            while i < v.len()
                invariant
                    i <= v.len(),
                    m == pairs_view(v@),
                    keep == |p: (Seq<char>, Seq<char>)| p.0 != name@,
                    pairs_view(kept@) == keep_pairs(m.subrange(0, i as int), keep),
                decreases v.len() - i,
            {
                assert(m.subrange(0, i + 1).drop_last() =~= m.subrange(0, i as int));
                if v[i].0 != name.to_string() {
                    kept.push((v[i].0.clone(), v[i].1.clone()));
                }
                i = i + 1;
                assert(pairs_view(kept@) =~= keep_pairs(m.subrange(0, i as int), keep));
            }
            assert(m.subrange(0, v.len() as int) =~= m);
            *events = Some(kept);
            ids
        },
    }
}

/// Drops the listener `id` of `name`; returns whether there was one.
pub fn remove_listener_by_id(events: &mut Option<Vec<(String, String)>>, name: &str, id: &String) -> (r: bool)
    ensures
        r == listeners_of(*old(events)).contains((name@, id@)),
        listeners_of(*final(events)) == keep_pairs(
            listeners_of(*old(events)),
            |p: (Seq<char>, Seq<char>)| p != (name@, id@),
        ),
        *old(events) is None ==> *final(events) is None,
{
    match events.take() {
        None => {
            assert(keep_pairs(seq![], |p: (Seq<char>, Seq<char>)| p != (name@, id@)) =~= seq![]);
            false
        },
        Some(v) => {
            let ghost m = pairs_view(v@);
            let ghost keep = |p: (Seq<char>, Seq<char>)| p != (name@, id@);
            let mut kept: Vec<(String, String)> = Vec::new();
            let mut removed = false;
            let mut i: usize = 0;
            while i < v.len()
                invariant
                    i <= v.len(),
                    m == pairs_view(v@),
                    keep == |p: (Seq<char>, Seq<char>)| p != (name@, id@),
                    pairs_view(kept@) == keep_pairs(m.subrange(0, i as int), keep),
                    removed == m.subrange(0, i as int).contains((name@, id@)),
                decreases v.len() - i,
            {
                assert(m.subrange(0, i + 1).drop_last() =~= m.subrange(0, i as int));
                assert(m.subrange(0, i + 1) =~= m.subrange(0, i as int).push(m[i as int]));
                if v[i].0 == name.to_string() && v[i].1 == *id {
                    removed = true;
                } else {
                    kept.push((v[i].0.clone(), v[i].1.clone()));
                }
                i = i + 1;
                assert(pairs_view(kept@) =~= keep_pairs(m.subrange(0, i as int), keep));
            }
            assert(m.subrange(0, v.len() as int) =~= m);
            *events = Some(kept);
            removed
        },
    }
}

/// The listeners of an element.
pub open spec fn element_listeners(e: UIElement) -> Seq<(Seq<char>, Seq<char>)> {
    match e {
        UIElement::Native(n) => listeners_of(n.events),
        UIElement::External(x) => listeners_of(x.events),
    }
}

impl UIElement {
    /// Records that listener `id` answers `name`; returns the id.
    pub fn add_event_listener(&mut self, name: &str, id: String) -> (r: String)
        ensures
            r@ == id@,
            !element_listeners(*old(self)).contains((name@, id@)) ==> element_listeners(*final(self))
                == element_listeners(*old(self)).push((name@, id@)),
            element_listeners(*old(self)).contains((name@, id@)) ==> element_listeners(*final(self))
                == element_listeners(*old(self)),
    {
        match self {
            UIElement::Native(n) => add_listener(&mut n.events, name, &id),
            UIElement::External(x) => add_listener(&mut x.events, name, &id),
        }
        id
    }

    /// The element with listener `id` recorded for `name`.
    pub fn add_event_listener_self(self, name: &str, id: String) -> (r: UIElement)
        ensures
            !element_listeners(self).contains((name@, id@)) ==> element_listeners(r)
                == element_listeners(self).push((name@, id@)),
            element_listeners(self).contains((name@, id@)) ==> element_listeners(r)
                == element_listeners(self),
    {
        let mut e = self;
        e.add_event_listener(name, id);
        e
    }

    /// Drops the listeners of `name`; returns their ids, which the caller
    /// removes from the registry.
    pub fn remove_event_listener(&mut self, name: &str) -> (r: Vec<String>)
        ensures
            r@.map_values(|s: String| s@) == ids_for(element_listeners(*old(self)), name@),
            element_listeners(*final(self)) == keep_pairs(
                element_listeners(*old(self)),
                |p: (Seq<char>, Seq<char>)| p.0 != name@,
            ),
    {
        match self {
            UIElement::Native(n) => remove_listeners(&mut n.events, name),
            UIElement::External(x) => remove_listeners(&mut x.events, name),
        }
    }

    /// Drops listener `id` of `name`; returns whether it was there (and is
    /// then to be removed from the registry).
    pub fn remove_event_listener_by_id(&mut self, name: &str, id: &String) -> (r: bool)
        ensures
            r == element_listeners(*old(self)).contains((name@, id@)),
            element_listeners(*final(self)) == keep_pairs(
                element_listeners(*old(self)),
                |p: (Seq<char>, Seq<char>)| p != (name@, id@),
            ),
    {
        match self {
            UIElement::Native(n) => remove_listener_by_id(&mut n.events, name, id),
            UIElement::External(x) => remove_listener_by_id(&mut x.events, name, id),
        }
    }

    /// The ids of the listeners to invoke for `name`, in order.
    pub fn event_listeners(&self, name: &str) -> (r: Vec<String>)
        ensures
            r@.map_values(|s: String| s@) == ids_for(element_listeners(*self), name@),
    {
        match self {
            UIElement::Native(n) => listener_ids(&n.events, name),
            UIElement::External(x) => listener_ids(&x.events, name),
        }
    }
}

impl UIElementChildren {
    /// The ids of the listeners to invoke for `name`: those of the element,
    /// none for other entries.
    pub fn event_listeners(&self, name: &str) -> (r: Vec<String>)
        ensures
            self matches UIElementChildren::Element(e) ==> r@.map_values(|s: String| s@) == ids_for(
                element_listeners(*e),
                name@,
            ),
            !(self is Element) ==> r@.len() == 0,
    {
        match self {
            UIElementChildren::Element(e) => e.event_listeners(name),
            _ => Vec::new(),
        }
    }
}

} // verus!
