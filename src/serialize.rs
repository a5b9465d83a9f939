//! How the children of an element reach the host: nested element lists are
//! flattened, absent entries dropped, and runs of adjacent strings joined.
use vstd::prelude::*;
use crate::elements::{
    key_of, child_model, element_model, kids_model, str_view, ChildModel, ElementModel, UIElement,
    UIElementChildren,
};

verus! {

/// One serialized child.
#[derive(Debug)]
pub enum SerializedChild {
    Null,
    Text(String),
    Element(UIElement),
}

/// The model of a serialized child.
pub enum Piece {
    Null,
    Text(Seq<char>),
    Element(ElementModel),
}

pub open spec fn piece_model(c: SerializedChild) -> Piece {
    match c {
        SerializedChild::Null => Piece::Null,
        SerializedChild::Text(s) => Piece::Text(s@),
        SerializedChild::Element(e) => Piece::Element(element_model(e)),
    }
}

pub open spec fn pieces_model(s: Seq<SerializedChild>) -> Seq<Piece> {
    s.map_values(|c: SerializedChild| piece_model(c))
}

/// The elements that a list of optional elements contributes, in order.
pub open spec fn present(v: Seq<Option<ElementModel>>) -> Seq<Piece>
    decreases v.len(),
{
    if v.len() == 0 {
        seq![]
    } else {
        present(v.drop_last()) + match v.last() {
            Some(e) => seq![Piece::Element(e)],
            None => seq![],
        }
    }
}

/// What one non-string children entry contributes.
pub open spec fn pieces_of(c: ChildModel) -> Seq<Piece> {
    match c {
        ChildModel::Empty => seq![Piece::Null],
        ChildModel::Text(s) => seq![Piece::Text(s@)],
        ChildModel::Element(e) => seq![Piece::Element(e)],
        ChildModel::Optional(v) => present(v),
        ChildModel::Elements(v) => v.map_values(|e: ElementModel| Piece::Element(e)),
    }
}

/// The pieces written so far, and the string run not yet written.
pub open spec fn fold_state(kids: Seq<ChildModel>, n: nat) -> (Seq<Piece>, Option<Seq<char>>)
    decreases n,
{
    if n == 0 || n > kids.len() {
        (seq![], None)
    } else {
        let (out, pending) = fold_state(kids, (n - 1) as nat);
        match kids[n - 1] {
            ChildModel::Text(s) => (
                out,
                Some(
                    match pending {
                        Some(p) => p + s@,
                        None => s@,
                    },
                ),
            ),
            other => (flush(out, pending) + pieces_of(other), None),
        }
    }
}

pub open spec fn flush(out: Seq<Piece>, pending: Option<Seq<char>>) -> Seq<Piece> {
    match pending {
        Some(p) => out.push(Piece::Text(p)),
        None => out,
    }
}

/// The serialized form of a children list: each run of adjacent strings
/// becomes one string, element lists are flattened (absent entries
/// dropped), an empty entry becomes a null.
pub open spec fn serialized(kids: Seq<ChildModel>) -> Seq<Piece> {
    let (out, pending) = fold_state(kids, kids.len());
    flush(out, pending)
}

fn push_piece(out: &mut Vec<SerializedChild>, c: SerializedChild)
    ensures
        pieces_model(final(out)@) == pieces_model(old(out)@).push(piece_model(c)),
{
    out.push(c);
    assert(pieces_model(out@) =~= pieces_model(old(out)@).push(piece_model(c)));
}

fn flush_pending(out: &mut Vec<SerializedChild>, pending: Option<String>)
    ensures
        pieces_model(final(out)@) == flush(pieces_model(old(out)@), str_view(pending)),
{
    match pending {
        Some(p) => push_piece(out, SerializedChild::Text(p)),
        None => {},
    }
}

fn push_entry(out: &mut Vec<SerializedChild>, c: &UIElementChildren)
    requires
        !(c is String),
    ensures
        pieces_model(final(out)@) == pieces_model(old(out)@) + pieces_of(child_model(*c)),
{
    match c {
        UIElementChildren::Empty => {
            push_piece(out, SerializedChild::Null);
            assert(pieces_model(out@) =~= pieces_model(old(out)@) + pieces_of(child_model(*c)));
        },
        UIElementChildren::String(_) => {},
        UIElementChildren::Element(e) => {
            push_piece(out, SerializedChild::Element(e.duplicate()));
            assert(pieces_model(out@) =~= pieces_model(old(out)@) + pieces_of(child_model(*c)));
        },
        UIElementChildren::OptionalElements(v) => {
            let ghost m = child_model(*c)->Optional_0;
            let ghost base = pieces_model(out@);
            let mut i: usize = 0;
            while i < v.len()
                invariant
                    i <= v.len(),
                    m == child_model(*c)->Optional_0,
                    m.len() == v.len(),
                    forall|j: int| 0 <= j < v.len() ==> #[trigger] m[j] == match v@[j] {
                        Some(e) => Some(element_model(e)),
                        None => None,
                    },
                    pieces_model(out@) == base + present(m.subrange(0, i as int)),
                decreases v.len() - i,
            {
                match &v[i] {
                    Some(e) => push_piece(out, SerializedChild::Element(e.duplicate())),
                    None => {},
                }
                assert(m.subrange(0, i + 1).drop_last() =~= m.subrange(0, i as int));
                i = i + 1;
                assert(pieces_model(out@) =~= base + present(m.subrange(0, i as int)));
            }
            assert(m.subrange(0, v.len() as int) =~= m);
        },
        UIElementChildren::Elements(v) => {
            let ghost m = child_model(*c)->Elements_0;
            let ghost base = pieces_model(out@);
            let mut i: usize = 0;
            while i < v.len()
                invariant
                    i <= v.len(),
                    m == child_model(*c)->Elements_0,
                    m.len() == v.len(),
                    forall|j: int| 0 <= j < v.len() ==> #[trigger] m[j] == element_model(v@[j]),
                    pieces_model(out@) == base + m.subrange(0, i as int).map_values(
                        |e: ElementModel| Piece::Element(e),
                    ),
                decreases v.len() - i,
            {
                push_piece(out, SerializedChild::Element(v[i].duplicate()));
                i = i + 1;
                assert(pieces_model(out@) =~= base + m.subrange(0, i as int).map_values(
                    |e: ElementModel| Piece::Element(e),
                ));
            }
            assert(m.subrange(0, v.len() as int) =~= m);
        },
    }
}

/// The children list as the host receives it (see `serialized`).
pub fn serialize_children(children: &Vec<UIElementChildren>) -> (r: Vec<SerializedChild>)
    ensures
        pieces_model(r@) == serialized(kids_model(*children)),
{
    let ghost km = kids_model(*children);
    let mut out: Vec<SerializedChild> = Vec::new();
    let mut pending: Option<String> = None;
    let mut i: usize = 0;
    assert(pieces_model(out@) =~= seq![]);
    while i < children.len()
        invariant
            i <= children.len(),
            km == kids_model(*children),
            (pieces_model(out@), str_view(pending)) == fold_state(km, i as nat),
        decreases children.len() - i,
    {
        assert(km[i as int] == child_model(children@[i as int]));
        match &children[i] {
            UIElementChildren::String(s) => {
                pending = match pending {
                    Some(p) => Some(p.concat(s.as_str())),
                    None => Some(s.clone()),
                };
            },
            other => {
                let p = pending;
                pending = None;
                flush_pending(&mut out, p);
                push_entry(&mut out, other);
            },
        }
        i = i + 1;
    }
    flush_pending(&mut out, pending);
    out
}

/// Two adjacent strings are written as the one string that joins them.
pub proof fn lemma_adjacent_strings_join(a: String, b: String)
    ensures
        serialized(seq![ChildModel::Text(a), ChildModel::Text(b)]) == seq![Piece::Text(a@ + b@)],
{
    let kids = seq![ChildModel::Text(a), ChildModel::Text(b)];
    assert(kids[0] == ChildModel::Text(a) && kids[1] == ChildModel::Text(b));
    assert(fold_state(kids, 0) == (Seq::<Piece>::empty(), Option::<Seq<char>>::None));
    assert(fold_state(kids, 1) == (Seq::<Piece>::empty(), Some(a@)));
    assert(fold_state(kids, 2) == (Seq::<Piece>::empty(), Some(a@ + b@)));
    assert(serialized(kids) =~= seq![Piece::Text(a@ + b@)]);
}

proof fn lemma_fold_append(s1: Seq<ChildModel>, s2: Seq<ChildModel>, m: nat)
    requires
        fold_state(s1, s1.len()).1 is None,
        m <= s2.len(),
    ensures
        fold_state(s1 + s2, s1.len() + m) == (
            fold_state(s1, s1.len()).0 + fold_state(s2, m).0,
            fold_state(s2, m).1,
        ),
    decreases m,
{
    let out1 = fold_state(s1, s1.len()).0;
    if m == 0 {
        assert(out1 + Seq::<Piece>::empty() =~= out1);
        if s1.len() > 0 {
            assert(fold_state(s1 + s2, s1.len()) == fold_state(s1, s1.len())) by {
                lemma_fold_prefix(s1, s2, s1.len());
            }
        }
    } else {
        lemma_fold_append(s1, s2, (m - 1) as nat);
        assert((s1 + s2)[s1.len() + m - 1] == s2[m - 1]);
        let (o2, p2) = fold_state(s2, (m - 1) as nat);
        match s2[m - 1] {
            ChildModel::Text(_) => {},
            other => {
                assert(flush(out1 + o2, p2) + pieces_of(other) =~= out1 + (flush(o2, p2) + pieces_of(other)));
            },
        }
    }
}

proof fn lemma_fold_prefix(s1: Seq<ChildModel>, s2: Seq<ChildModel>, n: nat)
    requires
        n <= s1.len(),
    ensures
        fold_state(s1 + s2, n) == fold_state(s1, n),
    decreases n,
{
    if n > 0 {
        lemma_fold_prefix(s1, s2, (n - 1) as nat);
        assert((s1 + s2)[n - 1] == s1[n - 1]);
    }
}

/// Two adjacent strings, with no other string next to them, are written as
/// the one string that joins them, between what comes before and after.
pub proof fn lemma_adjacent_strings_in_list(
    pre: Seq<ChildModel>,
    a: String,
    b: String,
    post: Seq<ChildModel>,
)
    requires
        pre.len() == 0 || !(pre.last() is Text),
        post.len() == 0 || !(post[0] is Text),
    ensures
        serialized(pre + seq![ChildModel::Text(a), ChildModel::Text(b)] + post) == serialized(pre)
            + seq![Piece::Text(a@ + b@)] + serialized(post),
{
    let pair = seq![ChildModel::Text(a), ChildModel::Text(b)];
    let kids = pre + pair + post;
    assert(fold_state(pre, pre.len()).1 is None);
    let out_pre = fold_state(pre, pre.len()).0;
    assert(serialized(pre) == out_pre);
    lemma_adjacent_strings_join(a, b);
    assert(fold_state(pair, 0) == (Seq::<Piece>::empty(), Option::<Seq<char>>::None));
    assert(fold_state(pair, 1) == (Seq::<Piece>::empty(), Some(a@)));
    assert(fold_state(pair, 2) == (Seq::<Piece>::empty(), Some(a@ + b@)));
    lemma_fold_append(pre, pair, 2);
    assert(out_pre + Seq::<Piece>::empty() =~= out_pre);
    assert(fold_state(pre + pair, pre.len() + 2) == (out_pre, Some(a@ + b@)));
    if post.len() == 0 {
        assert(kids =~= pre + pair);
        assert(serialized(post) =~= Seq::<Piece>::empty());
        assert(serialized(kids) =~= out_pre + seq![Piece::Text(a@ + b@)] + serialized(post));
    } else {
        let p0 = post[0];
        let rest = post.drop_first();
        let head = pre + pair + seq![p0];
        assert(kids =~= head + rest);
        assert(head =~= (pre + pair) + seq![p0]);
        lemma_fold_prefix(pre + pair, seq![p0], pre.len() + 2);
        assert(head[head.len() - 1] == p0);
        let out_head = out_pre.push(Piece::Text(a@ + b@)) + pieces_of(p0);
        assert(fold_state(head, head.len()) == (out_head, Option::<Seq<char>>::None));
        lemma_fold_append(head, rest, rest.len());
        assert(fold_state(seq![p0], 0) == (Seq::<Piece>::empty(), Option::<Seq<char>>::None));
        assert(fold_state(seq![p0], 1) == (pieces_of(p0), Option::<Seq<char>>::None)) by {
            assert(Seq::<Piece>::empty() + pieces_of(p0) =~= pieces_of(p0));
        }
        assert(post =~= seq![p0] + rest);
        lemma_fold_append(seq![p0], rest, rest.len());
        let (fr, pr) = fold_state(rest, rest.len());
        assert(serialized(post) == flush(pieces_of(p0) + fr, pr));
        assert(serialized(kids) == flush(out_head + fr, pr));
        assert(flush(out_head + fr, pr) =~= out_pre + seq![Piece::Text(a@ + b@)] + flush(
            pieces_of(p0) + fr,
            pr,
        ));
    }
}

/// Diagnostics on the keys of one list of sibling elements. They never stop
/// serialization: reconciliation ignores keys.
#[derive(Debug)]
pub struct KeyReport {
    /// Each key that repeats the key of an earlier sibling, in order.
    pub duplicates: Vec<String>,
    /// Whether some sibling has no key.
    pub missing_key: bool,
}

/// The keys that repeat an earlier key of the list, in order.
pub open spec fn repeated_keys(keys: Seq<Option<Seq<char>>>) -> Seq<Seq<char>>
    decreases keys.len(),
{
    if keys.len() == 0 {
        seq![]
    } else {
        let n = keys.len() - 1;
        repeated_keys(keys.drop_last()) + match keys[n] {
            Some(k) => if exists|j: int| 0 <= j < n && keys[j] == Some(k) {
                seq![k]
            } else {
                seq![]
            },
            None => seq![],
        }
    }
}

/// Whether some entry of the list has no key.
pub open spec fn lacks_key(keys: Seq<Option<Seq<char>>>) -> bool {
    exists|j: int| 0 <= j < keys.len() && keys[j] is None
}

pub open spec fn keys_view(keys: Seq<Option<String>>) -> Seq<Option<Seq<char>>> {
    keys.map_values(|k: Option<String>| str_view(k))
}

/// The diagnostics for the keys of a list of siblings, in order.
pub fn key_report(keys: &Vec<Option<String>>) -> (r: KeyReport)
    ensures
        r.duplicates@.map_values(|s: String| s@) == repeated_keys(keys_view(keys@)),
        r.missing_key == lacks_key(keys_view(keys@)),
{
    let ghost kv = keys_view(keys@);
    let mut duplicates: Vec<String> = Vec::new();
    let mut missing_key = false;
    let mut i: usize = 0;
    while i < keys.len()
        invariant
            i <= keys.len(),
            kv == keys_view(keys@),
            duplicates@.map_values(|s: String| s@) == repeated_keys(kv.subrange(0, i as int)),
            missing_key == lacks_key(kv.subrange(0, i as int)),
        decreases keys.len() - i,
    {
        let ghost prefix = kv.subrange(0, i as int + 1);
        assert(prefix.drop_last() =~= kv.subrange(0, i as int));
        match &keys[i] {
            Some(k) => {
                let mut seen = false;
                let mut j: usize = 0;
                while j < i
                    invariant
                        j <= i,
                        i < keys.len(),
                        kv == keys_view(keys@),
                        keys@[i as int] == Some(*k),
                        seen == exists|m: int| 0 <= m < j && kv[m] == Some(k@),
                    decreases i - j,
                {
                    let same = match &keys[j] {
                        Some(other) => *other == *k,
                        None => false,
                    };
                    if same {
                        assert(kv[j as int] == Some(k@));
                        seen = true;
                    }
                    j = j + 1;
                }
                assert(seen == exists|m: int| 0 <= m < i && prefix[m] == Some(prefix[i as int]->0)) by {
                    if seen {
                        let m = choose|m: int| 0 <= m < i && kv[m] == Some(k@);
                        assert(prefix[m] == kv[m]);
                    }
                    if exists|m: int| 0 <= m < i && prefix[m] == Some(prefix[i as int]->0) {
                        let m = choose|m: int| 0 <= m < i && prefix[m] == Some(prefix[i as int]->0);
                        assert(kv[m] == prefix[m]);
                    }
                }
                if seen {
                    duplicates.push(k.clone());
                }
                assert(duplicates@.map_values(|s: String| s@) =~= repeated_keys(prefix));
                assert(prefix[i as int] is Some);
                assert(lacks_key(prefix) == lacks_key(kv.subrange(0, i as int))) by {
                    if lacks_key(prefix) {
                        let m = choose|m: int| 0 <= m < prefix.len() && prefix[m] is None;
                        assert(kv.subrange(0, i as int)[m] == prefix[m]);
                    }
                }
            },
            None => {
                missing_key = true;
                assert(duplicates@.map_values(|s: String| s@) =~= repeated_keys(prefix));
                assert(prefix[i as int] is None);
            },
        }
        i = i + 1;
    }
    assert(kv.subrange(0, keys.len() as int) =~= kv);
    KeyReport { duplicates, missing_key }
}

/// The diagnostics for the keys of a list of elements.
pub fn check_element_keys(elements: &Vec<UIElement>) -> (r: KeyReport)
    ensures
        r.duplicates@.map_values(|s: String| s@) == repeated_keys(element_keys(elements@)),
        r.missing_key == lacks_key(element_keys(elements@)),
{
    let mut keys: Vec<Option<String>> = Vec::new();
    let mut i: usize = 0;
    while i < elements.len()
        invariant
            i <= elements.len(),
            keys@.len() == i,
            keys_view(keys@) == element_keys(elements@.subrange(0, i as int)),
        decreases elements.len() - i,
    {
        let k = match &elements[i] {
            UIElement::Native(n) => crate::elements::copy_opt_string(&n.key),
            UIElement::External(x) => crate::elements::copy_opt_string(&x.key),
        };
        assert(str_view(k) == key_of(element_model(elements@[i as int])));
        let ghost prev = keys@;
        keys.push(k);
        assert forall|j: int| 0 <= j < i + 1 implies #[trigger] keys_view(keys@)[j] == element_keys(
            elements@.subrange(0, i + 1),
        )[j] by {
            if j < i {
                assert(keys_view(prev)[j] == element_keys(elements@.subrange(0, i as int))[j]);
                assert(keys@[j] == prev[j]);
            }
        }
        i = i + 1;
        assert(keys_view(keys@) =~= element_keys(elements@.subrange(0, i as int)));
    }
    assert(elements@.subrange(0, elements.len() as int) =~= elements@);
    key_report(&keys)
}

/// The diagnostics for the keys of the present entries of a list of
/// optional elements; absent entries are skipped.
pub fn check_optional_keys(elements: &Vec<Option<UIElement>>) -> (r: KeyReport)
    ensures
        r.duplicates@.map_values(|s: String| s@) == repeated_keys(present_keys(elements@)),
        r.missing_key == lacks_key(present_keys(elements@)),
{
    let mut keys: Vec<Option<String>> = Vec::new();
    let mut i: usize = 0;
    while i < elements.len()
        invariant
            i <= elements.len(),
            keys_view(keys@) == present_keys(elements@.subrange(0, i as int)),
        decreases elements.len() - i,
    {
        assert(elements@.subrange(0, i + 1).drop_last() =~= elements@.subrange(0, i as int));
        match &elements[i] {
            Some(UIElement::Native(n)) => keys.push(crate::elements::copy_opt_string(&n.key)),
            Some(UIElement::External(x)) => keys.push(crate::elements::copy_opt_string(&x.key)),
            None => {},
        }
        i = i + 1;
        assert(keys_view(keys@) =~= present_keys(elements@.subrange(0, i as int)));
    }
    assert(elements@.subrange(0, elements.len() as int) =~= elements@);
    key_report(&keys)
}

/// The keys of the elements, in order.
pub open spec fn element_keys(v: Seq<UIElement>) -> Seq<Option<Seq<char>>> {
    v.map_values(|e: UIElement| key_of(element_model(e)))
}

/// The keys of the present entries, in order.
pub open spec fn present_keys(v: Seq<Option<UIElement>>) -> Seq<Option<Seq<char>>>
    decreases v.len(),
{
    if v.len() == 0 {
        seq![]
    } else {
        present_keys(v.drop_last()) + match v.last() {
            Some(e) => seq![key_of(element_model(e))],
            None => seq![],
        }
    }
}

} // verus!
