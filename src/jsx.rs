//! The structural description that the template parser produces.
use vstd::prelude::*;
use crate::tokens::{group_model, Group, GroupModel, Span};

verus! {

/// One child of a parsed element.
#[derive(Debug)]
pub enum JsxChild {
    /// A run of text.
    String(String),
    /// A nested element.
    Element(JsxElement),
    /// A bracketed group holding exactly one identifier: a variable.
    Variable(String, Span),
    /// Any other bracketed group: an inline expression.
    Functional(Group),
}

/// The value of an attribute.
#[derive(Debug)]
pub enum JsxAttributeValue {
    /// A literal token, as written.
    Literal(String, Span),
    /// A bare identifier, inlined as it is.
    Ident(String, Span),
    /// A bracketed group passed through as an inline expression.
    Group(Group),
    /// A variable reference.
    Variable(String),
    /// An event-handler expression.
    Event(Group),
}

/// A `name = value` attribute.
#[derive(Debug)]
pub struct JsxAttribute {
    pub name: String,
    pub value: JsxAttributeValue,
    pub span: Option<Span>,
}

/// A parsed element; a fragment has no tag.
#[derive(Debug)]
pub struct JsxElement {
    pub tag: Option<String>,
    pub attributes: Option<Vec<JsxAttribute>>,
    pub children: Option<Vec<JsxChild>>,
    pub span: Option<Span>,
}

/// A parse failure, with the place of the offending token when there is one.
#[derive(Debug)]
pub struct ParseError {
    pub message: String,
    pub span: Option<Span>,
}

impl ParseError {
    /// An error with this message and place.
    pub fn new(message: &str, span: Option<Span>) -> (r: ParseError)
        ensures
            r.message@ == message@,
            r.span == span,
    {
        ParseError { message: message.to_string(), span }
    }
}

/// The model of a parsed child.
pub enum ChildM {
    Text(Seq<char>),
    Element(ElemM),
    Variable(Seq<char>, Span),
    Functional(GroupModel),
}

/// The model of an attribute value.
pub enum ValueM {
    Literal(Seq<char>, Span),
    Ident(Seq<char>, Span),
    Group(GroupModel),
    Variable(Seq<char>),
    Event(GroupModel),
}

/// The model of an attribute.
pub struct AttrM {
    pub name: Seq<char>,
    pub value: ValueM,
    pub span: Option<Span>,
}

/// The model of a parsed element.
pub struct ElemM {
    pub tag: Option<Seq<char>>,
    pub attributes: Option<Seq<AttrM>>,
    pub children: Option<Seq<ChildM>>,
    pub span: Option<Span>,
}

/// The model of a parse error.
pub struct ErrM {
    pub message: Seq<char>,
    pub span: Option<Span>,
}

pub open spec fn err_model(e: ParseError) -> ErrM {
    ErrM { message: e.message@, span: e.span }
}

pub open spec fn value_model(v: JsxAttributeValue) -> ValueM {
    match v {
        JsxAttributeValue::Literal(s, sp) => ValueM::Literal(s@, sp),
        JsxAttributeValue::Ident(s, sp) => ValueM::Ident(s@, sp),
        JsxAttributeValue::Group(g) => ValueM::Group(group_model(g)),
        JsxAttributeValue::Variable(s) => ValueM::Variable(s@),
        JsxAttributeValue::Event(g) => ValueM::Event(group_model(g)),
    }
}

pub open spec fn attr_model(a: JsxAttribute) -> AttrM {
    AttrM { name: a.name@, value: value_model(a.value), span: a.span }
}

pub open spec fn attrs_model(v: Seq<JsxAttribute>) -> Seq<AttrM> {
    v.map_values(|a: JsxAttribute| attr_model(a))
}

pub open spec fn elem_model(e: JsxElement) -> ElemM
    decreases e, 2int,
{
    ElemM {
        tag: match e.tag {
            Some(t) => Some(t@),
            None => None,
        },
        attributes: match e.attributes {
            Some(v) => Some(attrs_model(v@)),
            None => None,
        },
        children: match e.children {
            Some(v) => Some(jsx_kids_model(v)),
            None => None,
        },
        span: e.span,
    }
}

pub open spec fn jsx_kids_model(v: Vec<JsxChild>) -> Seq<ChildM>
    decreases v, 1int,
{
    Seq::new(
        v@.len(),
        |i: int|
            if 0 <= i < v@.len() {
                jsx_child_model(v@[i])
            } else {
                ChildM::Text(seq![])
            },
    )
}

pub open spec fn jsx_child_model(c: JsxChild) -> ChildM
    decreases c, 0int,
{
    match c {
        JsxChild::String(s) => ChildM::Text(s@),
        JsxChild::Element(e) => ChildM::Element(elem_model(e)),
        JsxChild::Variable(v, sp) => ChildM::Variable(v@, sp),
        JsxChild::Functional(g) => ChildM::Functional(group_model(g)),
    }
}

/// The children after a run of text is added: joined to the text child at
/// the end if there is one (after a space when `spaces`), else as a new
/// child; the text loses its quotes.
pub open spec fn merge_spec(kids: Seq<ChildM>, input: Seq<char>, spaces: bool) -> Seq<ChildM> {
    if kids.len() > 0 && kids.last() is Text {
        kids.drop_last().push(
            ChildM::Text(
                kids.last()->Text_0 + (if spaces {
                    seq![' ']
                } else {
                    seq![]
                }) + unquote(input),
            ),
        )
    } else {
        kids.push(ChildM::Text(unquote(input)))
    }
}

/// `s` without the leading copies of `c`.
pub open spec fn strip_front(s: Seq<char>, c: char) -> Seq<char>
    decreases s.len(),
{
    if s.len() > 0 && s[0] == c {
        strip_front(s.drop_first(), c)
    } else {
        s
    }
}

/// `s` without the trailing copies of `c`.
pub open spec fn strip_back(s: Seq<char>, c: char) -> Seq<char>
    decreases s.len(),
{
    if s.len() > 0 && s.last() == c {
        strip_back(s.drop_last(), c)
    } else {
        s
    }
}

/// `s` without the copies of `c` at either end.
pub open spec fn trim_char(s: Seq<char>, c: char) -> Seq<char> {
    strip_back(strip_front(s, c), c)
}

/// The text of a token with its quotes taken off: first double quotes,
/// then single quotes, at either end.
pub open spec fn unquote(s: Seq<char>) -> Seq<char> {
    trim_char(trim_char(s, '"'), '\'')
}

/// Relies on char::to_string: the one-character string.
#[verifier::external_body]
pub(crate) fn char_string(c: char) -> (r: String)
    ensures
        r@ == seq![c],
{
    c.to_string()
}

/// `s` without the copies of `c` at either end.
pub fn trim_matches(s: &str, c: char) -> (r: String)
    ensures
        r@ == trim_char(s@, c),
{
    let n = s.unicode_len();
    let mut start: usize = 0;
    assert(s@.subrange(0, n as int) =~= s@);
    while start < n && s.get_char(start) == c
        invariant
            start <= n,
            n == s@.len(),
            strip_front(s@, c) == strip_front(s@.subrange(start as int, n as int), c),
        decreases n - start,
    {
        assert(s@.subrange(start as int, n as int).drop_first() =~= s@.subrange(
            start as int + 1,
            n as int,
        ));
        start = start + 1;
    }
    assert(strip_front(s@.subrange(start as int, n as int), c) == s@.subrange(
        start as int,
        n as int,
    ));
    let mut end: usize = n;
    while end > start && s.get_char(end - 1) == c
        invariant
            start <= end <= n,
            n == s@.len(),
            strip_back(s@.subrange(start as int, n as int), c) == strip_back(
                s@.subrange(start as int, end as int),
                c,
            ),
        decreases end - start,
    {
        assert(s@.subrange(start as int, end as int).drop_last() =~= s@.subrange(
            start as int,
            end as int - 1,
        ));
        end = end - 1;
    }
    assert(strip_back(s@.subrange(start as int, end as int), c) == s@.subrange(
        start as int,
        end as int,
    ));
    s.substring_char(start, end).to_string()
}

/// The text of a token with its quotes taken off (see `unquote`).
pub fn unquoted(s: &str) -> (r: String)
    ensures
        r@ == unquote(s@),
{
    let a = trim_matches(s, '"');
    trim_matches(a.as_str(), '\'')
}

/// Whether no two neighbouring children are both text.
pub open spec fn no_adjacent_text(v: Seq<JsxChild>) -> bool {
    forall|i: int| 0 < i < v.len() ==> !(v[i - 1] is String && #[trigger] v[i] is String)
}

/// Adds a run of text to the children: joined to the text child at the
/// end if there is one (after a space when `spaces`), else as a new child.
/// The text loses its quotes.
pub fn merge_children_string(children: &mut Vec<JsxChild>, input: String, spaces: bool)
    requires
        no_adjacent_text(old(children)@),
    ensures
        no_adjacent_text(final(children)@),
        jsx_kids_model(*final(children)) == merge_spec(jsx_kids_model(*old(children)), input@, spaces),
        old(children)@.len() > 0 && old(children)@.last() is String ==> {
            &&& final(children)@.len() == old(children)@.len()
            &&& final(children)@.subrange(0, old(children)@.len() - 1) == old(children)@.subrange(
                0,
                old(children)@.len() - 1,
            )
            &&& final(children)@.last() is String
            &&& final(children)@.last()->String_0@ == old(children)@.last()->String_0@ + (if spaces {
                seq![' ']
            } else {
                seq![]
            }) + unquote(input@)
        },
        !(old(children)@.len() > 0 && old(children)@.last() is String) ==> {
            &&& final(children)@.len() == old(children)@.len() + 1
            &&& final(children)@.subrange(0, old(children)@.len() as int) == old(children)@
            &&& final(children)@.last() is String
            &&& final(children)@.last()->String_0@ == unquote(input@)
        },
{
    let text = unquoted(input.as_str());
    let n = children.len();
    if n > 0 {
        if let JsxChild::String(last) = &children[n - 1] {
            let mut joined = last.clone();
            if spaces {
                joined = joined.concat(" ");
            }
            joined = joined.concat(text.as_str());
            proof {
                reveal_strlit(" ");
            }
            assert(joined@ =~= last@ + (if spaces {
                seq![' ']
            } else {
                seq![]
            }) + text@);
            let ghost prev = children@;
            let ghost prev_model = jsx_kids_model(*children);
            children.set(n - 1, JsxChild::String(joined));
            assert(children@.subrange(0, n - 1) =~= prev.subrange(0, n - 1));
            assert(jsx_kids_model(*children) =~= merge_spec(prev_model, input@, spaces));
            assert forall|i: int| 0 < i < children@.len() implies !(children@[i - 1] is String
                && #[trigger] children@[i] is String) by {
                if i == n - 1 {
                    assert(prev[i] is String);
                    assert(!(prev[i - 1] is String && prev[i] is String));
                } else {
                    assert(children@[i] == prev[i] && children@[i - 1] == prev[i - 1]);
                }
            }
            return ;
        }
    }
    let ghost prev = children@;
    let ghost prev_model = jsx_kids_model(*children);
    children.push(JsxChild::String(text));
    assert(children@.subrange(0, prev.len() as int) =~= prev);
    assert(jsx_kids_model(*children) =~= merge_spec(prev_model, input@, spaces));
    assert forall|i: int| 0 < i < children@.len() implies !(children@[i - 1] is String
        && #[trigger] children@[i] is String) by {
        if i < prev.len() {
            assert(children@[i] == prev[i] && children@[i - 1] == prev[i - 1]);
        }
    }
}

} // verus!
