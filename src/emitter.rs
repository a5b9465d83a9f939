//! The code emitter: turns a parsed element into a plan of construction
//! calls, which the macro front end writes out as code.
use vstd::prelude::*;
use crate::elements::NativeElementType;
use crate::jsx::{
    attr_model, attrs_model, char_string, elem_model, err_model, jsx_child_model, jsx_kids_model, trim_char,
    trim_matches, value_model, AttrM, ChildM, ElemM, ErrM, JsxAttribute, JsxAttributeValue, JsxChild,
    JsxElement, ParseError, ValueM,
};
use crate::tokens::{copy_group, group_model, Group, GroupModel, Span};

verus! {

/// An expression of the generated code.
#[derive(Debug)]
pub enum Code {
    /// An identifier, written as it is.
    Ident(String),
    /// A string literal with this content.
    Str(String),
    /// A bracketed group: kept in its parentheses or square brackets,
    /// written bare when in braces.
    Group(Group),
    /// The tokens of a group, written bare.
    Stream(Group),
}

/// One builder call: `name(value.into())`.
#[derive(Debug)]
pub struct FieldPlan {
    pub name: String,
    pub value: Code,
}

/// One listener registration on a native element.
#[derive(Debug)]
pub struct EventPlan {
    pub name: String,
    pub handler: Code,
}

/// Where an element's key comes from.
#[derive(Debug)]
pub enum KeyPlan {
    /// No key.
    NoKey,
    /// A variable converted into the optional key.
    Variable(String),
    /// A string literal key.
    Literal(String),
    /// An inline expression giving the key.
    Expression(Group),
}

/// Where an external element's identifier comes from.
#[derive(Debug)]
pub enum IdPlan {
    /// A variable that holds the identifier.
    Variable(String),
    /// A literal identifier, as its 128 bits.
    Literal(u128),
}

/// How one child is written.
#[derive(Debug)]
pub enum ChildPlan {
    /// A text child.
    Text(String),
    /// A variable converted into a children entry.
    Variable(String),
    /// An inline expression converted into a children entry.
    Expression(Group),
    /// An element wrapped as a single-element entry.
    Element(Construct),
    /// A user component whose render output is converted into an entry.
    Component(Construct),
}

/// How one element is built.
#[derive(Debug)]
pub enum Construct {
    /// A built-in element; `builder` holds the calls on the kind's property
    /// builder (none when there are no properties).
    Native {
        kind: NativeElementType,
        builder: Option<Vec<FieldPlan>>,
        children: Option<Vec<ChildPlan>>,
        key: KeyPlan,
        events: Vec<EventPlan>,
    },
    /// An external element; `props` become its untyped property map.
    External {
        id: IdPlan,
        props: Vec<FieldPlan>,
        children: Option<Vec<ChildPlan>>,
        key: KeyPlan,
    },
    /// A user component: its builder is filled, built and rendered, and its
    /// output stands for this node.
    Component { name: String, fields: Vec<FieldPlan>, children: Option<Vec<ChildPlan>> },
    /// A fragment around the children.
    Fragment { children: Option<Vec<ChildPlan>> },
}

/// The built-in kind that a tag names, if any.
pub open spec fn builtin_kind(tag: Seq<char>) -> Option<NativeElementType> {
    if tag == "View"@ {
        Some(NativeElementType::View)
    } else if tag == "Text"@ {
        Some(NativeElementType::Text)
    } else if tag == "FlatList"@ {
        Some(NativeElementType::FlatList)
    } else if tag == "FlashList"@ {
        Some(NativeElementType::FlashList)
    } else if tag == "TouchableOpacity"@ {
        Some(NativeElementType::TouchableOpacity)
    } else {
        None
    }
}

fn text_is(a: &String, b: &str) -> (r: bool)
    ensures
        r == (a@ == b@),
{
    *a == b.to_string()
}

/// The built-in kind that a tag names, if any.
pub fn builtin_kind_of(tag: &String) -> (r: Option<NativeElementType>)
    ensures
        r == builtin_kind(tag@),
{
    if text_is(tag, "View") {
        Some(NativeElementType::View)
    } else if text_is(tag, "Text") {
        Some(NativeElementType::Text)
    } else if text_is(tag, "FlatList") {
        Some(NativeElementType::FlatList)
    } else if text_is(tag, "FlashList") {
        Some(NativeElementType::FlashList)
    } else if text_is(tag, "TouchableOpacity") {
        Some(NativeElementType::TouchableOpacity)
    } else {
        None
    }
}

/// ASCII upper case of a character.
pub open spec fn upper(c: char) -> char {
    if 'a' <= c <= 'z' {
        ((c as u32) - 32) as char
    } else {
        c
    }
}

/// ASCII lower case of a character.
pub open spec fn lower(c: char) -> char {
    if 'A' <= c <= 'Z' {
        ((c as u32) + 32) as char
    } else {
        c
    }
}

/// The camel-case text of the first `n` characters, and whether the next
/// letter is to be capitalized.
pub open spec fn camel_state(s: Seq<char>, n: nat) -> (Seq<char>, bool)
    decreases n,
{
    if n == 0 || n > s.len() {
        (seq![], false)
    } else {
        let (out, cap) = camel_state(s, (n - 1) as nat);
        let c = s[n - 1];
        if c == '_' || c == '-' {
            (out, true)
        } else if cap {
            (out.push(upper(c)), false)
        } else if n == 1 {
            (out.push(lower(c)), false)
        } else {
            (out.push(c), false)
        }
    }
}

/// Camel case: `_` and `-` are dropped and the letter after them is upper
/// case; the first character is lower case.
pub open spec fn camel(s: Seq<char>) -> Seq<char> {
    camel_state(s, s.len()).0
}

fn upper_char(c: char) -> (r: char)
    ensures
        r == upper(c),
{
    if 'a' <= c && c <= 'z' {
        ((c as u32 - 32) as u8) as char
    } else {
        c
    }
}

fn lower_char(c: char) -> (r: char)
    ensures
        r == lower(c),
{
    if 'A' <= c && c <= 'Z' {
        ((c as u32 + 32) as u8) as char
    } else {
        c
    }
}

/// The camel-case form of a name (see `camel`).
pub fn to_camel_case(input: &str) -> (r: String)
    ensures
        r@ == camel(input@),
{
    let n = input.unicode_len();
    let mut result = String::new();
    let mut capitalize_next = false;
    let mut i: usize = 0;
    while i < n
        invariant
            i <= n,
            n == input@.len(),
            (result@, capitalize_next) == camel_state(input@, i as nat),
        decreases n - i,
    {
        let c = input.get_char(i);
        if c == '_' || c == '-' {
            capitalize_next = true;
        } else if capitalize_next {
            result = result.concat(char_string(upper_char(c)).as_str());
            capitalize_next = false;
        } else if i == 0 {
            result = result.concat(char_string(lower_char(c)).as_str());
        } else {
            result = result.concat(char_string(c).as_str());
        }
        i = i + 1;
    }
    result
}

/// Whether an attribute name registers a listener.
pub open spec fn is_event_name(n: Seq<char>) -> bool {
    n.len() >= 3 && n[0] == 'o' && n[1] == 'n' && n[2] == '_'
}

fn event_name_check(n: &String) -> (r: bool)
    ensures
        r == is_event_name(n@),
{
    let s = n.as_str();
    s.unicode_len() >= 3 && s.get_char(0) == 'o' && s.get_char(1) == 'n' && s.get_char(2) == '_'
}

/// The model of generated code.
pub enum CodeM {
    Ident(Seq<char>),
    Str(Seq<char>),
    Group(GroupModel),
    Stream(GroupModel),
}

/// The model of a builder call, a listener or a property.
pub struct FieldM {
    pub name: Seq<char>,
    pub value: CodeM,
}

/// The model of a key plan.
pub enum KeyM {
    NoKey,
    Variable(Seq<char>),
    Literal(Seq<char>),
    Expression(GroupModel),
}

/// The model of an identifier plan.
pub enum IdM {
    Variable(Seq<char>),
    Literal(u128),
}

/// The model of a child plan.
pub enum ChildPlanM {
    Text(Seq<char>),
    Variable(Seq<char>),
    Expression(GroupModel),
    Element(ConstructM),
    Component(ConstructM),
}

/// The model of a construction plan.
pub enum ConstructM {
    Native {
        kind: NativeElementType,
        builder: Option<Seq<FieldM>>,
        children: Option<Seq<ChildPlanM>>,
        key: KeyM,
        events: Seq<FieldM>,
    },
    External { id: IdM, props: Seq<FieldM>, children: Option<Seq<ChildPlanM>>, key: KeyM },
    Component { name: Seq<char>, fields: Seq<FieldM>, children: Option<Seq<ChildPlanM>> },
    Fragment { children: Option<Seq<ChildPlanM>> },
}

pub open spec fn code_model(c: Code) -> CodeM {
    match c {
        Code::Ident(s) => CodeM::Ident(s@),
        Code::Str(s) => CodeM::Str(s@),
        Code::Group(g) => CodeM::Group(group_model(g)),
        Code::Stream(g) => CodeM::Stream(group_model(g)),
    }
}

pub open spec fn fields_model(v: Seq<FieldPlan>) -> Seq<FieldM> {
    v.map_values(|f: FieldPlan| FieldM { name: f.name@, value: code_model(f.value) })
}

pub open spec fn events_model(v: Seq<EventPlan>) -> Seq<FieldM> {
    v.map_values(|f: EventPlan| FieldM { name: f.name@, value: code_model(f.handler) })
}

pub open spec fn key_model(k: KeyPlan) -> KeyM {
    match k {
        KeyPlan::NoKey => KeyM::NoKey,
        KeyPlan::Variable(v) => KeyM::Variable(v@),
        KeyPlan::Literal(v) => KeyM::Literal(v@),
        KeyPlan::Expression(g) => KeyM::Expression(group_model(g)),
    }
}

pub open spec fn id_model(i: IdPlan) -> IdM {
    match i {
        IdPlan::Variable(v) => IdM::Variable(v@),
        IdPlan::Literal(b) => IdM::Literal(b),
    }
}

pub open spec fn construct_model(c: Construct) -> ConstructM
    decreases c, 2int,
{
    match c {
        Construct::Native { kind, builder, children, key, events } => ConstructM::Native {
            kind,
            builder: match builder {
                Some(b) => Some(fields_model(b@)),
                None => None,
            },
            children: match children {
                Some(v) => Some(plans_model(v)),
                None => None,
            },
            key: key_model(key),
            events: events_model(events@),
        },
        Construct::External { id, props, children, key } => ConstructM::External {
            id: id_model(id),
            props: fields_model(props@),
            children: match children {
                Some(v) => Some(plans_model(v)),
                None => None,
            },
            key: key_model(key),
        },
        Construct::Component { name, fields, children } => ConstructM::Component {
            name: name@,
            fields: fields_model(fields@),
            children: match children {
                Some(v) => Some(plans_model(v)),
                None => None,
            },
        },
        Construct::Fragment { children } => ConstructM::Fragment {
            children: match children {
                Some(v) => Some(plans_model(v)),
                None => None,
            },
        },
    }
}

pub open spec fn plans_model(v: Vec<ChildPlan>) -> Seq<ChildPlanM>
    decreases v, 1int,
{
    Seq::new(
        v@.len(),
        |i: int|
            if 0 <= i < v@.len() {
                plan_model(v@[i])
            } else {
                ChildPlanM::Text(seq![])
            },
    )
}

pub open spec fn plan_model(p: ChildPlan) -> ChildPlanM
    decreases p, 0int,
{
    match p {
        ChildPlan::Text(s) => ChildPlanM::Text(s@),
        ChildPlan::Variable(s) => ChildPlanM::Variable(s@),
        ChildPlan::Expression(g) => ChildPlanM::Expression(group_model(g)),
        ChildPlan::Element(c) => ChildPlanM::Element(construct_model(c)),
        ChildPlan::Component(c) => ChildPlanM::Component(construct_model(c)),
    }
}

/// The code for an attribute value: a literal loses its quotes (single,
/// then double) and becomes a string literal; an identifier or a variable
/// is written as it is; a group is passed through; an event handler is
/// written bare.
pub open spec fn code_of(v: ValueM) -> CodeM {
    match v {
        ValueM::Literal(l, _) => CodeM::Str(trim_char(trim_char(l, '\''), '"')),
        ValueM::Ident(i, _) => CodeM::Ident(i),
        ValueM::Variable(i) => CodeM::Ident(i),
        ValueM::Group(g) => CodeM::Group(g),
        ValueM::Event(g) => CodeM::Stream(g),
    }
}

/// The code for an attribute value (see `code_of`).
pub fn attribute_code(v: &JsxAttributeValue) -> (r: Code)
    ensures
        code_model(r) == code_of(value_model(*v)),
{
    match v {
        JsxAttributeValue::Literal(l, _) => {
            let a = trim_matches(l.as_str(), '\'');
            Code::Str(trim_matches(a.as_str(), '"'))
        },
        JsxAttributeValue::Ident(i, _) => Code::Ident(i.clone()),
        JsxAttributeValue::Variable(i) => Code::Ident(i.clone()),
        JsxAttributeValue::Group(g) => Code::Group(copy_group(g)),
        JsxAttributeValue::Event(g) => Code::Stream(copy_group(g)),
    }
}

/// The first attribute of this name.
pub open spec fn find_attr(a: Seq<AttrM>, name: Seq<char>) -> Option<AttrM>
    decreases a.len(),
{
    if a.len() == 0 {
        None
    } else if a[0].name == name {
        Some(a[0])
    } else {
        find_attr(a.drop_first(), name)
    }
}

fn find_attribute(attrs: &Vec<JsxAttribute>, name: &str) -> (r: Option<usize>)
    ensures
        r matches Some(i) ==> i < attrs@.len() && find_attr(attrs_model(attrs@), name@) == Some(
            attr_model(attrs@[i as int]),
        ),
        r is None ==> find_attr(attrs_model(attrs@), name@) is None,
{
    let ghost m = attrs_model(attrs@);
    let mut i: usize = 0;
    assert(m.subrange(0, m.len() as int) =~= m);
    while i < attrs.len()
        invariant
            i <= attrs.len(),
            m == attrs_model(attrs@),
            find_attr(m, name@) == find_attr(m.subrange(i as int, m.len() as int), name@),
        decreases attrs.len() - i,
    {
        assert(m.subrange(i as int, m.len() as int).drop_first() =~= m.subrange(i + 1, m.len() as int));
        assert(m.subrange(i as int, m.len() as int)[0] == m[i as int]);
        if text_is(&attrs[i].name, name) {
            return Some(i);
        }
        i = i + 1;
    }
    None
}

pub open spec fn attr_span_of(a: AttrM, fallback: Option<Span>) -> Option<Span> {
    match a.span {
        Some(s) => Some(s),
        None => fallback,
    }
}

fn attr_span(a: &JsxAttribute, fallback: Option<Span>) -> (r: Option<Span>)
    ensures
        r == attr_span_of(attr_model(*a), fallback),
{
    match a.span {
        Some(s) => Some(s),
        None => fallback,
    }
}

/// Where the key comes from: no `key` attribute gives none; a variable, a
/// double-quoted literal (without its quotes) or a bracketed expression are
/// accepted; any other value is an error.
pub open spec fn key_spec(attrs: Seq<AttrM>, span: Option<Span>) -> Result<KeyM, ErrM> {
    let message = "'key' is a reserved prop that must be a String"@;
    match find_attr(attrs, "key"@) {
        None => Ok(KeyM::NoKey),
        Some(a) => match a.value {
            ValueM::Variable(v) => Ok(KeyM::Variable(v)),
            ValueM::Literal(l, _) => if l.len() == 0 || l[0] != '"' {
                Err(ErrM { message, span: attr_span_of(a, span) })
            } else {
                Ok(KeyM::Literal(trim_char(l, '"')))
            },
            ValueM::Group(g) => Ok(KeyM::Expression(g)),
            _ => Err(ErrM { message, span: attr_span_of(a, span) }),
        },
    }
}

pub open spec fn key_result(r: Result<KeyPlan, ParseError>) -> Result<KeyM, ErrM> {
    match r {
        Ok(k) => Ok(key_model(k)),
        Err(e) => Err(err_model(e)),
    }
}

/// Where the key comes from (see `key_spec`).
pub fn key_plan(attrs: &Vec<JsxAttribute>, span: Option<Span>) -> (r: Result<KeyPlan, ParseError>)
    ensures
        key_result(r) == key_spec(attrs_model(attrs@), span),
{
    match find_attribute(attrs, "key") {
        None => Ok(KeyPlan::NoKey),
        Some(i) => {
            let a = &attrs[i];
            match &a.value {
                JsxAttributeValue::Variable(v) => Ok(KeyPlan::Variable(v.clone())),
                JsxAttributeValue::Literal(l, _) => {
                    let s = l.as_str();
                    if s.unicode_len() == 0 || s.get_char(0) != '"' {
                        return Err(
                            ParseError::new(
                                "'key' is a reserved prop that must be a String",
                                attr_span(a, span),
                            ),
                        );
                    }
                    Ok(KeyPlan::Literal(trim_matches(s, '"')))
                },
                JsxAttributeValue::Group(g) => Ok(KeyPlan::Expression(copy_group(g))),
                _ => Err(
                    ParseError::new("'key' is a reserved prop that must be a String", attr_span(a, span)),
                ),
            }
        },
    }
}

/// The 128 bits of a UUID written as text, if the text is one.
pub uninterp spec fn uuid_bits(s: Seq<char>) -> Option<u128>;

/// Relies on uuid::Uuid::parse_str (any of the formats it documents:
/// simple, hyphenated, urn, braced), its result read as 128 bits by
/// Uuid::as_u128: the parse depends on the text alone.
#[verifier::external_body]
fn parse_uuid(s: &str) -> (r: Option<u128>)
    ensures
        r == uuid_bits(s@),
{
    match uuid::Uuid::parse_str(s) {
        Ok(u) => Some(u.as_u128()),
        Err(_) => None,
    }
}

/// The stable identifier of an external element: its `id` attribute, a
/// variable or a literal that (without its double quotes) is a UUID.
/// Anything else, or no `id`, is an error.
pub open spec fn id_spec(attrs: Seq<AttrM>, span: Option<Span>) -> Result<IdM, ErrM> {
    let invalid = "External elements must have 'id' attribute with a valid UUID"@;
    match find_attr(attrs, "id"@) {
        None => Err(ErrM { message: "External elements must have 'id' attribute"@, span }),
        Some(a) => match a.value {
            ValueM::Variable(v) => Ok(IdM::Variable(v)),
            ValueM::Literal(l, _) => match uuid_bits(trim_char(l, '"')) {
                Some(bits) => Ok(IdM::Literal(bits)),
                None => Err(ErrM { message: invalid, span: attr_span_of(a, span) }),
            },
            _ => Err(ErrM { message: invalid, span: attr_span_of(a, span) }),
        },
    }
}

pub open spec fn id_result(r: Result<IdPlan, ParseError>) -> Result<IdM, ErrM> {
    match r {
        Ok(k) => Ok(id_model(k)),
        Err(e) => Err(err_model(e)),
    }
}

/// The stable identifier of an external element (see `id_spec`).
pub fn id_plan(attrs: &Vec<JsxAttribute>, span: Option<Span>) -> (r: Result<IdPlan, ParseError>)
    ensures
        id_result(r) == id_spec(attrs_model(attrs@), span),
{
    match find_attribute(attrs, "id") {
        None => Err(ParseError::new("External elements must have 'id' attribute", span)),
        Some(i) => {
            let a = &attrs[i];
            match &a.value {
                JsxAttributeValue::Variable(v) => Ok(IdPlan::Variable(v.clone())),
                JsxAttributeValue::Literal(l, _) => {
                    let text = trim_matches(l.as_str(), '"');
                    match parse_uuid(text.as_str()) {
                        Some(bits) => Ok(IdPlan::Literal(bits)),
                        None => Err(
                            ParseError::new(
                                "External elements must have 'id' attribute with a valid UUID",
                                attr_span(a, span),
                            ),
                        ),
                    }
                },
                _ => Err(
                    ParseError::new(
                        "External elements must have 'id' attribute with a valid UUID",
                        attr_span(a, span),
                    ),
                ),
            }
        },
    }
}

/// The builder calls of a built-in element: every attribute but `key` and
/// the listeners, in order.
pub open spec fn builder_fields(a: Seq<AttrM>) -> Seq<FieldM>
    decreases a.len(),
{
    if a.len() == 0 {
        seq![]
    } else {
        let x = a.last();
        builder_fields(a.drop_last()) + if x.name == "key"@ || is_event_name(x.name) {
            seq![]
        } else {
            seq![FieldM { name: x.name, value: code_of(x.value) }]
        }
    }
}

/// The listeners of a built-in element: each attribute whose name starts
/// with `on_`, under the camel case of its name, in order.
pub open spec fn event_fields(a: Seq<AttrM>) -> Seq<FieldM>
    decreases a.len(),
{
    if a.len() == 0 {
        seq![]
    } else {
        let x = a.last();
        event_fields(a.drop_last()) + if x.name != "key"@ && is_event_name(x.name) {
            seq![FieldM { name: camel(x.name), value: code_of(x.value) }]
        } else {
            seq![]
        }
    }
}

/// The untyped properties of an external element: every attribute but
/// `id` and `key`, in order.
pub open spec fn external_fields(a: Seq<AttrM>) -> Seq<FieldM>
    decreases a.len(),
{
    if a.len() == 0 {
        seq![]
    } else {
        let x = a.last();
        external_fields(a.drop_last()) + if x.name == "key"@ || x.name == "id"@ {
            seq![]
        } else {
            seq![FieldM { name: x.name, value: code_of(x.value) }]
        }
    }
}

/// The builder calls of a user component: every attribute, in order.
pub open spec fn all_fields(a: Seq<AttrM>) -> Seq<FieldM> {
    a.map_values(|x: AttrM| FieldM { name: x.name, value: code_of(x.value) })
}

/// The builder calls and listeners of a built-in element.
pub fn native_attributes(attrs: &Vec<JsxAttribute>) -> (r: (Vec<FieldPlan>, Vec<EventPlan>))
    ensures
        fields_model(r.0@) == builder_fields(attrs_model(attrs@)),
        events_model(r.1@) == event_fields(attrs_model(attrs@)),
{
    let ghost m = attrs_model(attrs@);
    let mut fields: Vec<FieldPlan> = Vec::new();
    let mut events: Vec<EventPlan> = Vec::new();
    let mut i: usize = 0;
    while i < attrs.len()
        invariant
            i <= attrs.len(),
            m == attrs_model(attrs@),
            fields_model(fields@) == builder_fields(m.subrange(0, i as int)),
            events_model(events@) == event_fields(m.subrange(0, i as int)),
        decreases attrs.len() - i,
    {
        let a = &attrs[i];
        assert(m.subrange(0, i + 1).drop_last() =~= m.subrange(0, i as int));
        assert(m[i as int] == attr_model(*a));
        if !text_is(&a.name, "key") {
            if event_name_check(&a.name) {
                let e = EventPlan { name: to_camel_case(a.name.as_str()), handler: attribute_code(&a.value) };
                events.push(e);
            } else {
                let f = FieldPlan { name: a.name.clone(), value: attribute_code(&a.value) };
                fields.push(f);
            }
        }
        i = i + 1;
        assert(fields_model(fields@) =~= builder_fields(m.subrange(0, i as int)));
        assert(events_model(events@) =~= event_fields(m.subrange(0, i as int)));
    }
    assert(m.subrange(0, attrs.len() as int) =~= m);
    (fields, events)
}

/// The untyped properties of an external element.
pub fn external_attributes(attrs: &Vec<JsxAttribute>) -> (r: Vec<FieldPlan>)
    ensures
        fields_model(r@) == external_fields(attrs_model(attrs@)),
{
    let ghost m = attrs_model(attrs@);
    let mut fields: Vec<FieldPlan> = Vec::new();
    let mut i: usize = 0;
    while i < attrs.len()
        invariant
            i <= attrs.len(),
            m == attrs_model(attrs@),
            fields_model(fields@) == external_fields(m.subrange(0, i as int)),
        decreases attrs.len() - i,
    {
        let a = &attrs[i];
        assert(m.subrange(0, i + 1).drop_last() =~= m.subrange(0, i as int));
        assert(m[i as int] == attr_model(*a));
        if !text_is(&a.name, "key") && !text_is(&a.name, "id") {
            let f = FieldPlan { name: a.name.clone(), value: attribute_code(&a.value) };
            fields.push(f);
        }
        i = i + 1;
        assert(fields_model(fields@) =~= external_fields(m.subrange(0, i as int)));
    }
    assert(m.subrange(0, attrs.len() as int) =~= m);
    fields
}

/// The builder calls of a user component: every attribute.
pub fn component_attributes(attrs: &Vec<JsxAttribute>) -> (r: Vec<FieldPlan>)
    ensures
        fields_model(r@) == all_fields(attrs_model(attrs@)),
{
    let ghost m = attrs_model(attrs@);
    let mut fields: Vec<FieldPlan> = Vec::new();
    let mut i: usize = 0;
    while i < attrs.len()
        invariant
            i <= attrs.len(),
            m == attrs_model(attrs@),
            fields@.len() == i,
            fields_model(fields@) == all_fields(m.subrange(0, i as int)),
        decreases attrs.len() - i,
    {
        let f = FieldPlan { name: attrs[i].name.clone(), value: attribute_code(&attrs[i].value) };
        let ghost prev = fields@;
        fields.push(f);
        assert forall|j: int| 0 <= j < i + 1 implies #[trigger] fields_model(fields@)[j] == all_fields(
            m.subrange(0, i + 1),
        )[j] by {
            if j < i {
                assert(fields_model(prev)[j] == all_fields(m.subrange(0, i as int))[j]);
                assert(fields@[j] == prev[j]);
            } else {
                assert(m[i as int] == attr_model(attrs@[i as int]));
            }
        }
        i = i + 1;
        assert(fields_model(fields@) =~= all_fields(m.subrange(0, i as int)));
    }
    assert(m.subrange(0, attrs.len() as int) =~= m);
    fields
}

/// Whether a tag is written as an element entry among children: a fragment,
/// a built-in kind or `External`; a user component's output is used as it is.
pub open spec fn wrapped_as_element(tag: Option<Seq<char>>) -> bool {
    match tag {
        Some(t) => t == "External"@ || builtin_kind(t) is Some,
        None => true,
    }
}

/// How one child is written: text, a variable and an inline expression as
/// they are; a nested element by its own plan, as an element entry or, for
/// a user component, as the component's output.
pub open spec fn child_plan_spec(c: ChildM) -> Result<ChildPlanM, ErrM>
    decreases c, 0int,
{
    match c {
        ChildM::Text(s) => Ok(ChildPlanM::Text(s)),
        ChildM::Variable(v, _) => Ok(ChildPlanM::Variable(v)),
        ChildM::Functional(g) => Ok(ChildPlanM::Expression(g)),
        ChildM::Element(e) => match output_spec(e) {
            Ok(p) => if wrapped_as_element(e.tag) {
                Ok(ChildPlanM::Element(p))
            } else {
                Ok(ChildPlanM::Component(p))
            },
            Err(x) => Err(x),
        },
    }
}

/// The plans of the first `n` children; the first error stops.
pub open spec fn plans_spec(kids: Seq<ChildM>, n: nat) -> Result<Seq<ChildPlanM>, ErrM>
    decreases kids, n,
{
    if n == 0 || n > kids.len() {
        Ok(seq![])
    } else {
        match plans_spec(kids, (n - 1) as nat) {
            Err(x) => Err(x),
            Ok(ps) => match child_plan_spec(kids[n - 1]) {
                Err(x) => Err(x),
                Ok(p) => Ok(ps.push(p)),
            },
        }
    }
}

/// The construction plan of an element. The children are planned first
/// (none when there are none). A fragment builds a fragment; a built-in
/// tag builds that kind, with `key` taken out, each `on_` attribute
/// registered as a listener under its camel-case name and the rest set on
/// the kind's property builder (no builder when nothing is left);
/// `External` needs an `id` and forwards the other attributes as untyped
/// properties; any other tag is a user component that receives every
/// attribute and the children.
pub open spec fn output_spec(e: ElemM) -> Result<ConstructM, ErrM>
    decreases e, 2int,
{
    let planned = match e.children {
        Some(kids) => if kids.len() > 0 {
            match plans_spec(kids, kids.len()) {
                Ok(ps) => Ok(Some(ps)),
                Err(x) => Err(x),
            }
        } else {
            Ok(None)
        },
        None => Ok(None),
    };
    let attrs = match e.attributes {
        Some(a) => a,
        None => seq![],
    };
    match planned {
        Err(x) => Err(x),
        Ok(children) => match e.tag {
            None => Ok(ConstructM::Fragment { children }),
            Some(tag) => match builtin_kind(tag) {
                Some(kind) => match key_spec(attrs, e.span) {
                    Err(x) => Err(x),
                    Ok(key) => {
                        let fields = builder_fields(attrs);
                        Ok(
                            ConstructM::Native {
                                kind,
                                builder: if fields.len() > 0 {
                                    Some(fields)
                                } else {
                                    None
                                },
                                children,
                                key,
                                events: event_fields(attrs),
                            },
                        )
                    },
                },
                None => if tag == "External"@ {
                    match id_spec(attrs, e.span) {
                        Err(x) => Err(x),
                        Ok(id) => match key_spec(attrs, e.span) {
                            Err(x) => Err(x),
                            Ok(key) => Ok(
                                ConstructM::External { id, props: external_fields(attrs), children, key },
                            ),
                        },
                    }
                } else {
                    Ok(ConstructM::Component { name: tag, fields: all_fields(attrs), children })
                },
            },
        },
    }
}

pub open spec fn plan_result(r: Result<ChildPlan, ParseError>) -> Result<ChildPlanM, ErrM> {
    match r {
        Ok(p) => Ok(plan_model(p)),
        Err(e) => Err(err_model(e)),
    }
}

pub open spec fn plans_result(r: Result<Vec<ChildPlan>, ParseError>) -> Result<Seq<ChildPlanM>, ErrM> {
    match r {
        Ok(p) => Ok(plans_model(p)),
        Err(e) => Err(err_model(e)),
    }
}

pub open spec fn construct_result(r: Result<Construct, ParseError>) -> Result<ConstructM, ErrM> {
    match r {
        Ok(p) => Ok(construct_model(p)),
        Err(e) => Err(err_model(e)),
    }
}

/// How one child is written (see `child_plan_spec`).
pub fn plan_child(c: &JsxChild) -> (r: Result<ChildPlan, ParseError>)
    ensures
        plan_result(r) == child_plan_spec(jsx_child_model(*c)),
    decreases *c, 0int,
{
    proof {
        reveal_strlit("External");
    }
    match c {
        JsxChild::String(s) => Ok(ChildPlan::Text(s.clone())),
        JsxChild::Variable(v, _) => Ok(ChildPlan::Variable(v.clone())),
        JsxChild::Functional(g) => Ok(ChildPlan::Expression(copy_group(g))),
        JsxChild::Element(e) => {
            let wrapped = match &e.tag {
                Some(t) => text_is(t, "External") || builtin_kind_of(t).is_some(),
                None => true,
            };
            match generate_output_for_element(e) {
                Ok(plan) => if wrapped {
                    Ok(ChildPlan::Element(plan))
                } else {
                    Ok(ChildPlan::Component(plan))
                },
                Err(err) => Err(err),
            }
        },
    }
}

/// The plans of a list of children (see `plans_spec`).
fn plan_children(c: &Vec<JsxChild>) -> (r: Result<Vec<ChildPlan>, ParseError>)
    ensures
        plans_result(r) == plans_spec(jsx_kids_model(*c), c@.len()),
    decreases *c, 1int,
{
    let ghost km = jsx_kids_model(*c);
    let mut plans: Vec<ChildPlan> = Vec::new();
    let mut i: usize = 0;
    assert(plans_model(plans) =~= seq![]);
    while i < c.len()
        invariant
            i <= c.len(),
            km == jsx_kids_model(*c),
            plans_spec(km, i as nat) == Ok::<Seq<ChildPlanM>, ErrM>(plans_model(plans)),
        decreases c.len() - i,
    {
        assert(km[i as int] == jsx_child_model(c@[i as int]));
        match plan_child(&c[i]) {
            Ok(p) => {
                let ghost prev = plans_model(plans);
                plans.push(p);
                assert(plans_model(plans) =~= prev.push(plan_model(p)));
            },
            Err(e) => {
                assert(plans_spec(km, (i + 1) as nat) == Err::<Seq<ChildPlanM>, ErrM>(err_model(e)));
                assert forall|k: nat| i + 1 <= k <= c.len() implies #[trigger] plans_spec(km, k) == Err::<
                    Seq<ChildPlanM>,
                    ErrM,
                >(err_model(e)) by {
                    lemma_plans_error_stays(km, (i + 1) as nat, k);
                }
                return Err(e);
            },
        }
        i = i + 1;
    }
    Ok(plans)
}

proof fn lemma_plans_error_stays(kids: Seq<ChildM>, n: nat, k: nat)
    requires
        n <= k <= kids.len(),
        plans_spec(kids, n) is Err,
    ensures
        plans_spec(kids, k) == plans_spec(kids, n),
    decreases k - n,
{
    if k > n {
        lemma_plans_error_stays(kids, n, (k - 1) as nat);
    }
}

/// The construction plan of an element (see `output_spec`).
pub fn generate_output_for_element(element: &JsxElement) -> (r: Result<Construct, ParseError>)
    ensures
        construct_result(r) == output_spec(elem_model(*element)),
    decreases *element, 3int,
{
    proof {
        reveal_strlit("External");
        reveal_strlit("View");
        reveal_strlit("Text");
        reveal_strlit("FlatList");
        reveal_strlit("FlashList");
        reveal_strlit("TouchableOpacity");
        assert("External"@[0] != "FlatList"@[0]);
        assert(builtin_kind("External"@) is None);
    }
    let children = match &element.children {
        Some(c) => if c.len() > 0 {
            match plan_children(c) {
                Ok(p) => Some(p),
                Err(e) => {
                    return Err(e);
                },
            }
        } else {
            None
        },
        None => None,
    };
    let no_attrs: Vec<JsxAttribute> = Vec::new();
    let attrs: &Vec<JsxAttribute> = match &element.attributes {
        Some(a) => a,
        None => &no_attrs,
    };
    assert(attrs_model(attrs@) == match elem_model(*element).attributes {
        Some(a) => a,
        None => seq![],
    });
    match &element.tag {
        None => Ok(Construct::Fragment { children }),
        Some(tag) => {
            match builtin_kind_of(tag) {
                Some(kind) => {
                    let key = match key_plan(attrs, element.span) {
                        Ok(k) => k,
                        Err(e) => {
                            return Err(e);
                        },
                    };
                    let (fields, events) = native_attributes(attrs);
                    let builder = if fields.len() > 0 {
                        Some(fields)
                    } else {
                        None
                    };
                    Ok(Construct::Native { kind, builder, children, key, events })
                },
                None => {
                    if text_is(tag, "External") {
                        let id = match id_plan(attrs, element.span) {
                            Ok(i) => i,
                            Err(e) => {
                                return Err(e);
                            },
                        };
                        let key = match key_plan(attrs, element.span) {
                            Ok(k) => k,
                            Err(e) => {
                                return Err(e);
                            },
                        };
                        let props = external_attributes(attrs);
                        Ok(Construct::External { id, props, children, key })
                    } else {
                        let fields = component_attributes(attrs);
                        Ok(Construct::Component { name: tag.clone(), fields, children })
                    }
                },
            }
        },
    }
}

} // verus!
