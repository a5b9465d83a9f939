//! The element tree that one render pass describes, and its model.
use vstd::prelude::*;
use vstd::view::View as _;

verus! {

/// The built-in element kinds that the host renderer knows.
#[derive(Clone, Copy, Debug, PartialEq, Eq, Structural)]
pub enum NativeElementType {
    Fragment,
    View,
    Text,
    Pressable,
    TouchableOpacity,
    ScrollView,
    Image,
    TextInput,
    FlatList,
    SafeAreaView,
    FlashList,
}

/// A string property value.
#[derive(Clone, Debug)]
pub enum PropStr {
    String(String),
}

impl vstd::view::View for PropStr {
    type V = Seq<char>;

    open spec fn view(&self) -> Seq<char> {
        match self {
            PropStr::String(s) => s@,
        }
    }
}

impl PropStr {
    /// Whether the value holds no characters.
    pub fn is_empty(&self) -> (r: bool)
        ensures
            r == (self@.len() == 0),
    {
        match self {
            PropStr::String(s) => s.as_str().is_empty(),
        }
    }

    /// A copy of the value.
    pub fn duplicate(&self) -> (r: PropStr)
        ensures
            r == *self,
    {
        match self {
            PropStr::String(s) => PropStr::String(s.clone()),
        }
    }
}

/// Property bag of a `View`.
#[derive(Clone, Debug)]
pub struct View {
    pub class_name: Option<PropStr>,
    pub style: Option<PropStr>,
}

/// Property bag of an `Image`.
#[derive(Clone, Debug)]
pub struct Image {
    pub class_name: Option<PropStr>,
}

/// Property bag of a `Text`.
#[derive(Clone, Debug)]
pub struct Text {
    pub class_name: Option<PropStr>,
}

/// Property bag of a `FlatList`.
#[derive(Clone, Debug)]
pub struct FlatList {
    pub class_name: Option<PropStr>,
}

/// The typed property bag of a native element.
#[derive(Clone, Debug)]
pub enum NativeElementProps {
    View(View),
    Text(Text),
    Image(Image),
    FlatList(FlatList),
}

/// One untyped property value, as the host receives it.
/// `Json` holds the serialized text of any other JSON value.
#[derive(Clone, Debug)]
pub enum PropValue {
    Null,
    Bool(bool),
    Int(i64),
    Str(String),
    Json(String),
}

/// The model of a property value.
pub enum JsonValue {
    Null,
    Bool(bool),
    Int(i64),
    Str(Seq<char>),
    Json(Seq<char>),
}

impl vstd::view::View for PropValue {
    type V = JsonValue;

    open spec fn view(&self) -> JsonValue {
        match self {
            PropValue::Null => JsonValue::Null,
            PropValue::Bool(b) => JsonValue::Bool(*b),
            PropValue::Int(i) => JsonValue::Int(*i),
            PropValue::Str(s) => JsonValue::Str(s@),
            PropValue::Json(s) => JsonValue::Json(s@),
        }
    }
}

impl PropValue {
    /// A copy of the value.
    pub fn duplicate(&self) -> (r: PropValue)
        ensures
            r == *self,
    {
        match self {
            PropValue::Null => PropValue::Null,
            PropValue::Bool(b) => PropValue::Bool(*b),
            PropValue::Int(i) => PropValue::Int(*i),
            PropValue::Str(s) => PropValue::Str(s.clone()),
            PropValue::Json(s) => PropValue::Json(s.clone()),
        }
    }

    /// Whether two values are the same JSON value.
    pub fn same_as(&self, other: &PropValue) -> (r: bool)
        ensures
            r == (self@ == other@),
    {
        match (self, other) {
            (PropValue::Null, PropValue::Null) => true,
            (PropValue::Bool(a), PropValue::Bool(b)) => *a == *b,
            (PropValue::Int(a), PropValue::Int(b)) => *a == *b,
            (PropValue::Str(a), PropValue::Str(b)) => *a == *b,
            (PropValue::Json(a), PropValue::Json(b)) => *a == *b,
            _ => false,
        }
    }
}

impl NativeElementProps {
    /// A copy of the bag.
    pub fn duplicate(&self) -> (r: NativeElementProps)
        ensures
            r == *self,
    {
        match self {
            NativeElementProps::View(v) => NativeElementProps::View(
                View { class_name: copy_opt_str(&v.class_name), style: copy_opt_str(&v.style) },
            ),
            NativeElementProps::Text(t) => NativeElementProps::Text(
                Text { class_name: copy_opt_str(&t.class_name) },
            ),
            NativeElementProps::Image(i) => NativeElementProps::Image(
                Image { class_name: copy_opt_str(&i.class_name) },
            ),
            NativeElementProps::FlatList(f) => NativeElementProps::FlatList(
                FlatList { class_name: copy_opt_str(&f.class_name) },
            ),
        }
    }
}

fn copy_opt_str(s: &Option<PropStr>) -> (r: Option<PropStr>)
    ensures
        r == *s,
{
    match s {
        Some(p) => Some(p.duplicate()),
        None => None,
    }
}

/// A copy of an optional string.
pub fn copy_opt_string(s: &Option<String>) -> (r: Option<String>)
    ensures
        r == *s,
{
    match s {
        Some(p) => Some(p.clone()),
        None => None,
    }
}

/// A copy of an untyped property list.
pub fn copy_entries(v: &Vec<(String, PropValue)>) -> (r: Vec<(String, PropValue)>)
    ensures
        r@ == v@,
{
    let mut r: Vec<(String, PropValue)> = Vec::new();
    let mut i: usize = 0;
    while i < v.len()
        invariant
            i <= v.len(),
            r@ == v@.subrange(0, i as int),
        decreases v.len() - i,
    {
        let e = (v[i].0.clone(), v[i].1.duplicate());
        r.push(e);
        i = i + 1;
        assert(r@ =~= v@.subrange(0, i as int));
    }
    assert(v@.subrange(0, v.len() as int) =~= v@);
    r
}

/// A copy of a list of (event name, listener id) pairs.
pub fn copy_pairs(v: &Vec<(String, String)>) -> (r: Vec<(String, String)>)
    ensures
        r@ == v@,
{
    let mut r: Vec<(String, String)> = Vec::new();
    let mut i: usize = 0;
    while i < v.len()
        invariant
            i <= v.len(),
            r@ == v@.subrange(0, i as int),
        decreases v.len() - i,
    {
        let e = (v[i].0.clone(), v[i].1.clone());
        r.push(e);
        i = i + 1;
        assert(r@ =~= v@.subrange(0, i as int));
    }
    assert(v@.subrange(0, v.len() as int) =~= v@);
    r
}

/// A UI element: one of the built-in kinds, or an element that the host
/// resolves by a stable identifier.
#[derive(Debug)]
pub enum UIElement {
    Native(NativeElement),
    External(ExternalElement),
}

/// An element of a built-in kind. `events` lists (event name, listener id)
/// pairs.
#[derive(Debug)]
pub struct NativeElement {
    pub native_type: NativeElementType,
    pub props: Option<NativeElementProps>,
    pub children: Option<Vec<UIElementChildren>>,
    pub key: Option<String>,
    pub events: Option<Vec<(String, String)>>,
}

/// An element that the host resolves by its stable identifier, the 128 bits
/// of a UUID.
#[derive(Debug)]
pub struct ExternalElement {
    pub id: u128,
    pub props: Option<Vec<(String, PropValue)>>,
    pub children: Option<Vec<UIElementChildren>>,
    pub key: Option<String>,
    pub events: Option<Vec<(String, String)>>,
}

/// The children of an element, in one of their shapes.
#[derive(Debug)]
pub enum UIElementChildren {
    Empty,
    String(String),
    Element(UIElement),
    OptionalElements(Vec<Option<UIElement>>),
    Elements(Vec<UIElement>),
}

/// The model of an element: its vectors seen as sequences.
#[allow(inconsistent_fields)]
pub enum ElementModel {
    Native {
        kind: NativeElementType,
        props: Option<NativeElementProps>,
        children: Option<Seq<ChildModel>>,
        key: Option<String>,
        events: Option<Seq<(String, String)>>,
    },
    External {
        id: u128,
        props: Option<Seq<(String, PropValue)>>,
        children: Option<Seq<ChildModel>>,
        key: Option<String>,
        events: Option<Seq<(String, String)>>,
    },
}

/// The model of one children entry.
pub enum ChildModel {
    Empty,
    Text(String),
    Element(ElementModel),
    Optional(Seq<Option<ElementModel>>),
    Elements(Seq<ElementModel>),
}

pub open spec fn opt_seq<T>(v: Option<Vec<T>>) -> Option<Seq<T>> {
    match v {
        Some(v) => Some(v@),
        None => None,
    }
}

pub open spec fn element_model(e: UIElement) -> ElementModel
    decreases e, 2int,
{
    match e {
        UIElement::Native(n) => ElementModel::Native {
            kind: n.native_type,
            props: n.props,
            children: match n.children {
                Some(v) => Some(kids_model(v)),
                None => None,
            },
            key: n.key,
            events: opt_seq(n.events),
        },
        UIElement::External(x) => ElementModel::External {
            id: x.id,
            props: opt_seq(x.props),
            children: match x.children {
                Some(v) => Some(kids_model(v)),
                None => None,
            },
            key: x.key,
            events: opt_seq(x.events),
        },
    }
}

pub open spec fn kids_model(v: Vec<UIElementChildren>) -> Seq<ChildModel>
    decreases v, 1int,
{
    Seq::new(
        v@.len(),
        |i: int|
            if 0 <= i < v@.len() {
                child_model(v@[i])
            } else {
                ChildModel::Empty
            },
    )
}

pub open spec fn child_model(c: UIElementChildren) -> ChildModel
    decreases c, 0int,
{
    match c {
        UIElementChildren::Empty => ChildModel::Empty,
        UIElementChildren::String(s) => ChildModel::Text(s),
        UIElementChildren::Element(e) => ChildModel::Element(element_model(e)),
        UIElementChildren::OptionalElements(v) => ChildModel::Optional(
            Seq::new(
                v@.len(),
                |i: int|
                    if 0 <= i < v@.len() {
                        match v@[i] {
                            Some(e) => Some(element_model(e)),
                            None => None,
                        }
                    } else {
                        None
                    },
            ),
        ),
        UIElementChildren::Elements(v) => ChildModel::Elements(
            Seq::new(
                v@.len(),
                |i: int|
                    if 0 <= i < v@.len() {
                        element_model(v@[i])
                    } else {
                        ElementModel::External {
                            id: 0,
                            props: None,
                            children: None,
                            key: None,
                            events: None,
                        }
                    },
            ),
        ),
    }
}

impl UIElement {
    /// A copy of the whole tree.
    pub fn duplicate(&self) -> (r: UIElement)
        ensures
            element_model(r) == element_model(*self),
        decreases *self, 2int,
    {
        match self {
            UIElement::Native(n) => {
                let props = match &n.props {
                    Some(p) => Some(p.duplicate()),
                    None => None,
                };
                let children = match &n.children {
                    Some(v) => Some(copy_kids(v)),
                    None => None,
                };
                let events = match &n.events {
                    Some(v) => Some(copy_pairs(v)),
                    None => None,
                };
                UIElement::Native(
                    NativeElement {
                        native_type: n.native_type,
                        props,
                        children,
                        key: copy_opt_string(&n.key),
                        events,
                    },
                )
            },
            UIElement::External(x) => {
                let props = match &x.props {
                    Some(v) => Some(copy_entries(v)),
                    None => None,
                };
                let children = match &x.children {
                    Some(v) => Some(copy_kids(v)),
                    None => None,
                };
                let events = match &x.events {
                    Some(v) => Some(copy_pairs(v)),
                    None => None,
                };
                UIElement::External(
                    ExternalElement {
                        id: x.id,
                        props,
                        children,
                        key: copy_opt_string(&x.key),
                        events,
                    },
                )
            },
        }
    }
}

/// A copy of a children list.
pub fn copy_kids(v: &Vec<UIElementChildren>) -> (r: Vec<UIElementChildren>)
    ensures
        kids_model(r) == kids_model(*v),
    decreases *v, 1int,
{
    let mut r: Vec<UIElementChildren> = Vec::new();
    let mut i: usize = 0;
    while i < v.len()
        invariant
            i <= v.len(),
            r@.len() == i,
            forall|j: int| 0 <= j < i ==> child_model(#[trigger] r@[j]) == child_model(v@[j]),
        decreases v.len() - i,
    {
        let c = v[i].duplicate();
        r.push(c);
        i = i + 1;
    }
    assert(kids_model(r) =~= kids_model(*v));
    r
}

impl UIElementChildren {
    /// A copy of the children entry and everything under it.
    pub fn duplicate(&self) -> (r: UIElementChildren)
        ensures
            child_model(r) == child_model(*self),
        decreases *self, 0int,
    {
        match self {
            UIElementChildren::Empty => UIElementChildren::Empty,
            UIElementChildren::String(s) => UIElementChildren::String(s.clone()),
            UIElementChildren::Element(e) => UIElementChildren::Element(e.duplicate()),
            UIElementChildren::OptionalElements(v) => {
                let r = UIElementChildren::OptionalElements(copy_optional_elements(v));
                assert(child_model(r)->Optional_0 =~= child_model(*self)->Optional_0);
                r
            },
            UIElementChildren::Elements(v) => {
                let r = UIElementChildren::Elements(copy_elements(v));
                assert(child_model(r)->Elements_0 =~= child_model(*self)->Elements_0);
                r
            },
        }
    }
}

/// A copy of a list of optional elements.
pub fn copy_optional_elements(v: &Vec<Option<UIElement>>) -> (r: Vec<Option<UIElement>>)
    ensures
        r@.len() == v@.len(),
        forall|j: int|
            0 <= j < v@.len() ==> match (#[trigger] r@[j], v@[j]) {
                (Some(a), Some(b)) => element_model(a) == element_model(b),
                (None, None) => true,
                _ => false,
            },
    decreases *v, 1int,
{
    let mut r: Vec<Option<UIElement>> = Vec::new();
    let mut i: usize = 0;
    while i < v.len()
        invariant
            i <= v.len(),
            r@.len() == i,
            forall|j: int|
                0 <= j < i ==> match (#[trigger] r@[j], v@[j]) {
                    (Some(a), Some(b)) => element_model(a) == element_model(b),
                    (None, None) => true,
                    _ => false,
                },
        decreases v.len() - i,
    {
        let c = match &v[i] {
            Some(e) => Some(e.duplicate()),
            None => None,
        };
        r.push(c);
        i = i + 1;
    }
    r
}

/// A copy of a list of elements.
pub fn copy_elements(v: &Vec<UIElement>) -> (r: Vec<UIElement>)
    ensures
        r@.len() == v@.len(),
        forall|j: int| 0 <= j < v@.len() ==> element_model(#[trigger] r@[j]) == element_model(v@[j]),
    decreases *v, 1int,
{
    let mut r: Vec<UIElement> = Vec::new();
    let mut i: usize = 0;
    while i < v.len()
        invariant
            i <= v.len(),
            r@.len() == i,
            forall|j: int| 0 <= j < i ==> element_model(#[trigger] r@[j]) == element_model(v@[j]),
        decreases v.len() - i,
    {
        let c = v[i].duplicate();
        r.push(c);
        i = i + 1;
    }
    r
}

impl NativeElement {
    /// An element of a built-in kind, with no listeners.
    pub fn new(
        native_type: NativeElementType,
        props: Option<NativeElementProps>,
        children: Option<Vec<UIElementChildren>>,
        key: Option<String>,
    ) -> (r: NativeElement)
        ensures
            r.native_type == native_type,
            r.props == props,
            r.children == children,
            r.key == key,
            r.events is None,
    {
        NativeElement { native_type, props, children, key, events: None }
    }
}

impl ExternalElement {
    /// An external element with no listeners.
    pub fn new(
        id: u128,
        props: Option<Vec<(String, PropValue)>>,
        children: Option<Vec<UIElementChildren>>,
        key: Option<String>,
    ) -> (r: ExternalElement)
        ensures
            r.id == id,
            r.props == props,
            r.children == children,
            r.key == key,
            r.events is None,
    {
        ExternalElement { id, props, children, key, events: None }
    }
}

/// The element that stands for a children entry.
pub open spec fn element_of_child(c: ChildModel) -> ElementModel {
    match c {
        ChildModel::Element(e) => e,
        ChildModel::Text(s) => ElementModel::Native {
            kind: NativeElementType::Text,
            props: None,
            children: Some(seq![ChildModel::Text(s)]),
            key: None,
            events: None,
        },
        ChildModel::Elements(v) => ElementModel::Native {
            kind: NativeElementType::Fragment,
            props: None,
            children: Some(v.map_values(|e: ElementModel| ChildModel::Element(e))),
            key: None,
            events: None,
        },
        ChildModel::Optional(v) => ElementModel::Native {
            kind: NativeElementType::Fragment,
            props: None,
            children: Some(
                v.map_values(
                    |o: Option<ElementModel>|
                        match o {
                            Some(e) => ChildModel::Element(e),
                            None => ChildModel::Empty,
                        },
                ),
            ),
            key: None,
            events: None,
        },
        ChildModel::Empty => ElementModel::Native {
            kind: NativeElementType::Fragment,
            props: None,
            children: None,
            key: None,
            events: None,
        },
    }
}

impl UIElement {
    /// The element that stands for a children entry: the element itself; a
    /// `Text` around a string; a fragment around a list (an absent entry
    /// becomes an empty one); an empty fragment for nothing.
    pub fn from_children(c: UIElementChildren) -> (r: UIElement)
        ensures
            element_model(r) == element_of_child(child_model(c)),
    {
        let ghost m = child_model(c);
        match c {
            UIElementChildren::Element(e) => e,
            UIElementChildren::String(s) => {
                let mut kids: Vec<UIElementChildren> = Vec::new();
                kids.push(UIElementChildren::String(s));
                let r = UIElement::Native(NativeElement::new(NativeElementType::Text, None, Some(kids), None));
                assert(kids_model(kids) =~= seq![m]);
                r
            },
            UIElementChildren::Elements(elements) => {
                let ghost orig = elements@;
                let mut rest = elements;
                let mut kids: Vec<UIElementChildren> = Vec::new();
                while rest.len() > 0
                    invariant
                        kids@.len() + rest@.len() == orig.len(),
                        rest@ == orig.subrange(kids@.len() as int, orig.len() as int),
                        forall|j: int|
                            0 <= j < kids@.len() ==> child_model(#[trigger] kids@[j])
                                == ChildModel::Element(element_model(orig[j])),
                    decreases rest.len(),
                {
                    let ghost k = kids@.len();
                    let e = rest.remove(0);
                    assert(e == orig[k as int]);
                    kids.push(UIElementChildren::Element(e));
                    assert(rest@ =~= orig.subrange(kids@.len() as int, orig.len() as int));
                }
                let r = UIElement::Native(NativeElement::new(NativeElementType::Fragment, None, Some(kids), None));
                assert(kids_model(kids) =~= m->Elements_0.map_values(|e: ElementModel| ChildModel::Element(e)));
                r
            },
            UIElementChildren::OptionalElements(elements) => {
                let ghost orig = elements@;
                let mut rest = elements;
                let mut kids: Vec<UIElementChildren> = Vec::new();
                while rest.len() > 0
                    invariant
                        kids@.len() + rest@.len() == orig.len(),
                        rest@ == orig.subrange(kids@.len() as int, orig.len() as int),
                        forall|j: int|
                            0 <= j < kids@.len() ==> child_model(#[trigger] kids@[j]) == match orig[j] {
                                Some(e) => ChildModel::Element(element_model(e)),
                                None => ChildModel::Empty,
                            },
                    decreases rest.len(),
                {
                    let ghost k = kids@.len();
                    let o = rest.remove(0);
                    assert(o == orig[k as int]);
                    let c = match o {
                        Some(e) => UIElementChildren::Element(e),
                        None => UIElementChildren::Empty,
                    };
                    kids.push(c);
                    assert(rest@ =~= orig.subrange(kids@.len() as int, orig.len() as int));
                }
                let r = UIElement::Native(NativeElement::new(NativeElementType::Fragment, None, Some(kids), None));
                assert(kids_model(kids) =~= m->Optional_0.map_values(
                    |o: Option<ElementModel>|
                        match o {
                            Some(e) => ChildModel::Element(e),
                            None => ChildModel::Empty,
                        },
                ));
                r
            },
            _ => UIElement::Native(NativeElement::new(NativeElementType::Fragment, None, None, None)),
        }
    }
}

/// An element as a children entry.
impl From<UIElement> for UIElementChildren {
    fn from(value: UIElement) -> (r: UIElementChildren)
        ensures
            r == UIElementChildren::Element(value),
    {
        UIElementChildren::Element(value)
    }
}

impl vstd::std_specs::convert::FromSpecImpl<UIElement> for UIElementChildren {
    open spec fn obeys_from_spec() -> bool {
        true
    }

    open spec fn from_spec(v: UIElement) -> UIElementChildren {
        UIElementChildren::Element(v)
    }
}

/// An optional element as a children entry: nothing when absent.
impl From<Option<UIElement>> for UIElementChildren {
    fn from(value: Option<UIElement>) -> (r: UIElementChildren)
        ensures
            r == match value {
                Some(e) => UIElementChildren::Element(e),
                None => UIElementChildren::Empty,
            },
    {
        match value {
            Some(e) => UIElementChildren::Element(e),
            None => UIElementChildren::Empty,
        }
    }
}

impl vstd::std_specs::convert::FromSpecImpl<Option<UIElement>> for UIElementChildren {
    open spec fn obeys_from_spec() -> bool {
        true
    }

    open spec fn from_spec(value: Option<UIElement>) -> UIElementChildren {
        match value {
            Some(e) => UIElementChildren::Element(e),
            None => UIElementChildren::Empty,
        }
    }
}

/// A list of elements as a children entry.
impl From<Vec<UIElement>> for UIElementChildren {
    fn from(value: Vec<UIElement>) -> (r: UIElementChildren)
        ensures
            r == UIElementChildren::Elements(value),
    {
        UIElementChildren::Elements(value)
    }
}

impl vstd::std_specs::convert::FromSpecImpl<Vec<UIElement>> for UIElementChildren {
    open spec fn obeys_from_spec() -> bool {
        true
    }

    open spec fn from_spec(value: Vec<UIElement>) -> UIElementChildren {
        UIElementChildren::Elements(value)
    }
}

/// A list of optional elements as a children entry.
impl From<Vec<Option<UIElement>>> for UIElementChildren {
    fn from(value: Vec<Option<UIElement>>) -> (r: UIElementChildren)
        ensures
            r == UIElementChildren::OptionalElements(value),
    {
        UIElementChildren::OptionalElements(value)
    }
}

impl vstd::std_specs::convert::FromSpecImpl<Vec<Option<UIElement>>> for UIElementChildren {
    open spec fn obeys_from_spec() -> bool {
        true
    }

    open spec fn from_spec(value: Vec<Option<UIElement>>) -> UIElementChildren {
        UIElementChildren::OptionalElements(value)
    }
}

/// A string as a children entry.
impl From<String> for UIElementChildren {
    fn from(value: String) -> (r: UIElementChildren)
        ensures
            r == UIElementChildren::String(value),
    {
        UIElementChildren::String(value)
    }
}

impl vstd::std_specs::convert::FromSpecImpl<String> for UIElementChildren {
    open spec fn obeys_from_spec() -> bool {
        true
    }

    open spec fn from_spec(value: String) -> UIElementChildren {
        UIElementChildren::String(value)
    }
}

/// An optional string as a children entry: nothing when absent.
impl From<Option<String>> for UIElementChildren {
    fn from(value: Option<String>) -> (r: UIElementChildren)
        ensures
            r == match value {
                Some(s) => UIElementChildren::String(s),
                None => UIElementChildren::Empty,
            },
    {
        match value {
            Some(s) => UIElementChildren::String(s),
            None => UIElementChildren::Empty,
        }
    }
}

impl vstd::std_specs::convert::FromSpecImpl<Option<String>> for UIElementChildren {
    open spec fn obeys_from_spec() -> bool {
        true
    }

    open spec fn from_spec(value: Option<String>) -> UIElementChildren {
        match value {
            Some(s) => UIElementChildren::String(s),
            None => UIElementChildren::Empty,
        }
    }
}

/// A string property as a children entry.
impl From<PropStr> for UIElementChildren {
    fn from(value: PropStr) -> (r: UIElementChildren)
        ensures
            r == match value {
                PropStr::String(s) => UIElementChildren::String(s),
            },
    {
        match value {
            PropStr::String(s) => UIElementChildren::String(s),
        }
    }
}

impl vstd::std_specs::convert::FromSpecImpl<PropStr> for UIElementChildren {
    open spec fn obeys_from_spec() -> bool {
        true
    }

    open spec fn from_spec(value: PropStr) -> UIElementChildren {
        match value {
            PropStr::String(s) => UIElementChildren::String(s),
        }
    }
}

/// An optional string property as a children entry: nothing when absent.
impl From<Option<PropStr>> for UIElementChildren {
    fn from(value: Option<PropStr>) -> (r: UIElementChildren)
        ensures
            r == match value {
                Some(PropStr::String(s)) => UIElementChildren::String(s),
                None => UIElementChildren::Empty,
            },
    {
        match value {
            Some(PropStr::String(s)) => UIElementChildren::String(s),
            None => UIElementChildren::Empty,
        }
    }
}

impl vstd::std_specs::convert::FromSpecImpl<Option<PropStr>> for UIElementChildren {
    open spec fn obeys_from_spec() -> bool {
        true
    }

    open spec fn from_spec(value: Option<PropStr>) -> UIElementChildren {
        match value {
            Some(PropStr::String(s)) => UIElementChildren::String(s),
            None => UIElementChildren::Empty,
        }
    }
}

/// A built-in element as an element.
impl From<NativeElement> for UIElement {
    fn from(value: NativeElement) -> (r: UIElement)
        ensures
            r == UIElement::Native(value),
    {
        UIElement::Native(value)
    }
}

impl vstd::std_specs::convert::FromSpecImpl<NativeElement> for UIElement {
    open spec fn obeys_from_spec() -> bool {
        true
    }

    open spec fn from_spec(value: NativeElement) -> UIElement {
        UIElement::Native(value)
    }
}

/// An external element as an element.
impl From<ExternalElement> for UIElement {
    fn from(value: ExternalElement) -> (r: UIElement)
        ensures
            r == UIElement::External(value),
    {
        UIElement::External(value)
    }
}

impl vstd::std_specs::convert::FromSpecImpl<ExternalElement> for UIElement {
    open spec fn obeys_from_spec() -> bool {
        true
    }

    open spec fn from_spec(value: ExternalElement) -> UIElement {
        UIElement::External(value)
    }
}

/// A string as a string property.
impl From<String> for PropStr {
    fn from(value: String) -> (r: PropStr)
        ensures
            r == PropStr::String(value),
    {
        PropStr::String(value)
    }
}

impl vstd::std_specs::convert::FromSpecImpl<String> for PropStr {
    open spec fn obeys_from_spec() -> bool {
        true
    }

    open spec fn from_spec(value: String) -> PropStr {
        PropStr::String(value)
    }
}

/// A children list as one entry of optional elements: each entry becomes
/// the element that stands for it (see `element_of_child`).
impl From<Vec<UIElementChildren>> for UIElementChildren {
    fn from(value: Vec<UIElementChildren>) -> (r: UIElementChildren)
        ensures
            child_model(r) == ChildModel::Optional(
                kids_model(value).map_values(|c: ChildModel| Some(element_of_child(c))),
            ),
    {
        let ghost km = kids_model(value);
        let ghost orig = value@;
        let mut rest = value;
        let mut out: Vec<Option<UIElement>> = Vec::new();
        while rest.len() > 0
            invariant
                out@.len() + rest@.len() == orig.len(),
                km.len() == orig.len(),
                forall|j: int| 0 <= j < orig.len() ==> #[trigger] km[j] == child_model(orig[j]),
                rest@ == orig.subrange(out@.len() as int, orig.len() as int),
                forall|j: int|
                    0 <= j < out@.len() ==> (#[trigger] out@[j] matches Some(e) && element_model(e)
                        == element_of_child(km[j])),
            decreases rest.len(),
        {
            let ghost k = out@.len();
            let c = rest.remove(0);
            assert(c == orig[k as int]);
            out.push(Some(UIElement::from_children(c)));
            assert(rest@ =~= orig.subrange(out@.len() as int, orig.len() as int));
        }
        let r = UIElementChildren::OptionalElements(out);
        assert(child_model(r)->Optional_0 =~= km.map_values(|c: ChildModel| Some(element_of_child(c))));
        r
    }
}

// The conversion builds new elements, so no value of the model type can
// stand for its result; `from` states it over the model instead.
impl vstd::std_specs::convert::FromSpecImpl<Vec<UIElementChildren>> for UIElementChildren {
    open spec fn obeys_from_spec() -> bool {
        false
    }

    open spec fn from_spec(value: Vec<UIElementChildren>) -> UIElementChildren {
        UIElementChildren::Empty
    }
}

/// Elements are equal when shallowly equal (see `shallow_eq`).
impl PartialEq for UIElement {
    fn eq(&self, other: &UIElement) -> (r: bool)
        ensures
            r == shallow_eq(element_model(*self), element_model(*other)),
    {
        self.shallow_eq(other)
    }
}

impl vstd::std_specs::cmp::PartialEqSpecImpl for UIElement {
    open spec fn obeys_eq_spec() -> bool {
        true
    }

    open spec fn eq_spec(&self, other: &UIElement) -> bool {
        shallow_eq(element_model(*self), element_model(*other))
    }
}

/// Children entries are equal as `child_eq` says.
impl PartialEq for UIElementChildren {
    fn eq(&self, other: &UIElementChildren) -> (r: bool)
        ensures
            r == child_eq(child_model(*self), child_model(*other)),
    {
        self.equals(other)
    }
}

impl vstd::std_specs::cmp::PartialEqSpecImpl for UIElementChildren {
    open spec fn obeys_eq_spec() -> bool {
        true
    }

    open spec fn eq_spec(&self, other: &UIElementChildren) -> bool {
        child_eq(child_model(*self), child_model(*other))
    }
}

/// An untyped property list seen as (name, value) models.
pub open spec fn entries_view(s: Seq<(String, PropValue)>) -> Seq<(Seq<char>, JsonValue)> {
    Seq::new(s.len(), |i: int| (s[i].0@, s[i].1@))
}

/// The model of an optional string.
pub open spec fn str_view(s: Option<String>) -> Option<Seq<char>> {
    match s {
        Some(s) => Some(s@),
        None => None,
    }
}

/// The entry that an optional string field contributes: none when unset.
pub open spec fn opt_field(name: Seq<char>, v: Option<PropStr>) -> Seq<(Seq<char>, JsonValue)> {
    match v {
        Some(p) => seq![(name, JsonValue::Str(p@))],
        None => seq![],
    }
}

/// A typed property bag as the host sees it: `className` and `style`,
/// in that order; unset fields are left out, except that a `FlatList`
/// always carries `className` (null when unset).
pub open spec fn native_entries(p: NativeElementProps) -> Seq<(Seq<char>, JsonValue)> {
    match p {
        NativeElementProps::View(v) => opt_field("className"@, v.class_name) + opt_field(
            "style"@,
            v.style,
        ),
        NativeElementProps::Text(t) => opt_field("className"@, t.class_name),
        NativeElementProps::Image(i) => opt_field("className"@, i.class_name),
        NativeElementProps::FlatList(f) => seq![
            ("className"@, match f.class_name {
                Some(s) => JsonValue::Str(s@),
                None => JsonValue::Null,
            }),
        ],
    }
}

/// The property entries of an element, if it has a property bag.
pub open spec fn props_of(e: ElementModel) -> Option<Seq<(Seq<char>, JsonValue)>> {
    match e {
        ElementModel::Native { props, .. } => match props {
            Some(p) => Some(native_entries(p)),
            None => None,
        },
        ElementModel::External { props, .. } => match props {
            Some(p) => Some(entries_view(p)),
            None => None,
        },
    }
}

/// The children of an element.
pub open spec fn children_of(e: ElementModel) -> Option<Seq<ChildModel>> {
    match e {
        ElementModel::Native { children, .. } => children,
        ElementModel::External { children, .. } => children,
    }
}

/// The key of an element.
pub open spec fn key_of(e: ElementModel) -> Option<Seq<char>> {
    match e {
        ElementModel::Native { key, .. } => str_view(key),
        ElementModel::External { key, .. } => str_view(key),
    }
}

/// Whether two elements are of the same category and native kind or
/// external identifier.
pub open spec fn same_kind(a: ElementModel, b: ElementModel) -> bool {
    match (a, b) {
        (ElementModel::Native { kind: k1, .. }, ElementModel::Native { kind: k2, .. }) => k1 == k2,
        (ElementModel::External { id: i1, .. }, ElementModel::External { id: i2, .. }) => i1 == i2,
        _ => false,
    }
}

/// The shallow equality of elements: key, category and kind, and whether
/// props and children are there (with the number of children), but not
/// their content.
pub open spec fn shallow_eq(a: ElementModel, b: ElementModel) -> bool {
    &&& key_of(a) == key_of(b)
    &&& same_kind(a, b)
    &&& children_of(a).is_some() == children_of(b).is_some()
    &&& (children_of(a).is_some() ==> children_of(a).unwrap().len() == children_of(b).unwrap().len())
    &&& props_of(a).is_some() == props_of(b).is_some()
}

/// The equality of children entries, shallow on the elements they hold.
pub open spec fn child_eq(a: ChildModel, b: ChildModel) -> bool {
    match (a, b) {
        (ChildModel::Empty, ChildModel::Empty) => true,
        (ChildModel::Text(x), ChildModel::Text(y)) => x@ == y@,
        (ChildModel::Element(x), ChildModel::Element(y)) => shallow_eq(x, y),
        (ChildModel::Optional(x), ChildModel::Optional(y)) => x.len() == y.len() && forall|i: int|
            0 <= i < x.len() ==> match (#[trigger] x[i], y[i]) {
                (Some(p), Some(q)) => shallow_eq(p, q),
                (None, None) => true,
                _ => false,
            },
        (ChildModel::Elements(x), ChildModel::Elements(y)) => x.len() == y.len() && forall|i: int|
            0 <= i < x.len() ==> shallow_eq(#[trigger] x[i], y[i]),
        _ => false,
    }
}

fn opt_str_eq(a: &Option<String>, b: &Option<String>) -> (r: bool)
    ensures
        r == (str_view(*a) == str_view(*b)),
{
    match (a, b) {
        (Some(x), Some(y)) => *x == *y,
        (None, None) => true,
        _ => false,
    }
}

/// Builds the entry that an optional string field contributes.
fn push_opt_field(r: &mut Vec<(String, PropValue)>, name: &str, v: &Option<PropStr>)
    ensures
        entries_view(final(r)@) == entries_view(old(r)@) + opt_field(name@, *v),
{
    match v {
        Some(PropStr::String(s)) => {
            r.push((name.to_string(), PropValue::Str(s.clone())));
        },
        None => {},
    }
    assert(entries_view(r@) =~= entries_view(old(r)@) + opt_field(name@, *v));
}

impl NativeElementProps {
    /// The bag as the untyped entries that the host receives.
    pub fn entries(&self) -> (r: Vec<(String, PropValue)>)
        ensures
            entries_view(r@) == native_entries(*self),
    {
        let mut r: Vec<(String, PropValue)> = Vec::new();
        match self {
            NativeElementProps::View(v) => {
                push_opt_field(&mut r, "className", &v.class_name);
                push_opt_field(&mut r, "style", &v.style);
                assert(entries_view(r@) =~= native_entries(*self));
            },
            NativeElementProps::Text(t) => {
                push_opt_field(&mut r, "className", &t.class_name);
                assert(entries_view(r@) =~= native_entries(*self));
            },
            NativeElementProps::Image(i) => {
                push_opt_field(&mut r, "className", &i.class_name);
                assert(entries_view(r@) =~= native_entries(*self));
            },
            NativeElementProps::FlatList(f) => {
                let value = match &f.class_name {
                    Some(PropStr::String(s)) => PropValue::Str(s.clone()),
                    None => PropValue::Null,
                };
                r.push(("className".to_string(), value));
                assert(entries_view(r@) =~= native_entries(*self));
            },
        }
        r
    }
}

impl UIElement {
    /// The shallow equality of two elements (see `shallow_eq`).
    pub fn shallow_eq(&self, other: &UIElement) -> (r: bool)
        ensures
            r == shallow_eq(element_model(*self), element_model(*other)),
    {
        match (self, other) {
            (UIElement::Native(a), UIElement::Native(b)) => {
                opt_str_eq(&a.key, &b.key) && a.native_type == b.native_type
                    && a.children.is_some() == b.children.is_some() && match (
                    &a.children,
                    &b.children,
                ) {
                    (Some(x), Some(y)) => x.len() == y.len(),
                    _ => true,
                } && a.props.is_some() == b.props.is_some()
            },
            (UIElement::External(a), UIElement::External(b)) => {
                opt_str_eq(&a.key, &b.key) && a.id == b.id && a.children.is_some()
                    == b.children.is_some() && match (&a.children, &b.children) {
                    (Some(x), Some(y)) => x.len() == y.len(),
                    _ => true,
                } && a.props.is_some() == b.props.is_some()
            },
            _ => false,
        }
    }
}

impl UIElementChildren {
    /// Whether two children entries are equal, shallow on the elements
    /// they hold (see `child_eq`).
    pub fn equals(&self, other: &UIElementChildren) -> (r: bool)
        ensures
            r == child_eq(child_model(*self), child_model(*other)),
    {
        match (self, other) {
            (UIElementChildren::Empty, UIElementChildren::Empty) => true,
            (UIElementChildren::String(x), UIElementChildren::String(y)) => *x == *y,
            (UIElementChildren::Element(x), UIElementChildren::Element(y)) => x.shallow_eq(y),
            (UIElementChildren::OptionalElements(x), UIElementChildren::OptionalElements(y)) => {
                if x.len() != y.len() {
                    assert(!child_eq(child_model(*self), child_model(*other)));
                    return false;
                }
                let ghost mx = child_model(*self)->Optional_0;
                let ghost my = child_model(*other)->Optional_0;
                let mut i: usize = 0;
                while i < x.len()
                    invariant
                        i <= x.len(),
                        x.len() == y.len(),
                        mx.len() == x.len(),
                        my.len() == y.len(),
                        child_model(*self) == ChildModel::Optional(mx),
                        child_model(*other) == ChildModel::Optional(my),
                        forall|j: int| 0 <= j < x.len() ==> #[trigger] mx[j] == match x@[j] {
                            Some(e) => Some(element_model(e)),
                            None => None,
                        },
                        forall|j: int| 0 <= j < y.len() ==> #[trigger] my[j] == match y@[j] {
                            Some(e) => Some(element_model(e)),
                            None => None,
                        },
                        forall|j: int|
                            0 <= j < i ==> match (#[trigger] mx[j], my[j]) {
                                (Some(p), Some(q)) => shallow_eq(p, q),
                                (None, None) => true,
                                _ => false,
                            },
                    decreases x.len() - i,
                {
                    let same = match (&x[i], &y[i]) {
                        (Some(p), Some(q)) => p.shallow_eq(q),
                        (None, None) => true,
                        _ => false,
                    };
                    if !same {
                        assert(!match (mx[i as int], my[i as int]) {
                            (Some(p), Some(q)) => shallow_eq(p, q),
                            (None, None) => true,
                            _ => false,
                        });
                        return false;
                    }
                    i = i + 1;
                }
                assert(child_eq(child_model(*self), child_model(*other)));
                true
            },
            (UIElementChildren::Elements(x), UIElementChildren::Elements(y)) => {
                if x.len() != y.len() {
                    assert(!child_eq(child_model(*self), child_model(*other)));
                    return false;
                }
                let ghost mx = child_model(*self)->Elements_0;
                let ghost my = child_model(*other)->Elements_0;
                let mut i: usize = 0;
                while i < x.len()
                    invariant
                        i <= x.len(),
                        x.len() == y.len(),
                        mx.len() == x.len(),
                        my.len() == y.len(),
                        child_model(*self) == ChildModel::Elements(mx),
                        child_model(*other) == ChildModel::Elements(my),
                        forall|j: int| 0 <= j < x.len() ==> #[trigger] mx[j] == element_model(x@[j]),
                        forall|j: int| 0 <= j < y.len() ==> #[trigger] my[j] == element_model(y@[j]),
                        forall|j: int| 0 <= j < i ==> shallow_eq(#[trigger] mx[j], my[j]),
                    decreases x.len() - i,
                {
                    if !x[i].shallow_eq(&y[i]) {
                        assert(!shallow_eq(mx[i as int], my[i as int]));
                        return false;
                    }
                    i = i + 1;
                }
                assert(child_eq(child_model(*self), child_model(*other)));
                true
            },
            _ => false,
        }
    }
}

} // verus!
