//! The template parser: a flat token sequence in, one element description out.
use vstd::prelude::*;
use crate::jsx::{
    attr_model, attrs_model, elem_model, err_model, jsx_child_model, jsx_kids_model,
    char_string, merge_children_string, merge_spec, no_adjacent_text, value_model, AttrM, ChildM, ElemM, ErrM,
    JsxAttribute, JsxAttributeValue, JsxChild, JsxElement, ParseError, ValueM,
};
use crate::tokens::{copy_group, group_model, Group, Span, Token, TokenKind};

verus! {

/// Whether `text` matches the regular expression `pattern` (false where
/// the pattern does not compile).
pub uninterp spec fn regex_matches(pattern: Seq<char>, text: Seq<char>) -> bool;

/// Relies on regex::Regex::is_match, on the pattern compiled by
/// regex::Regex::new (a pattern that does not compile matches nothing):
/// the answer depends on the pattern and the text alone.
#[verifier::external_body]
fn matches_pattern(pattern: &str, text: &str) -> (r: bool)
    ensures
        r == regex_matches(pattern@, text@),
{
    match regex::Regex::new(pattern) {
        Ok(re) => re.is_match(text),
        Err(_) => false,
    }
}

/// The shape of a number literal.
pub const NUMBER_PATTERN: &'static str = r"^\s*-?\d+(\.\d+)?([eE][+-]?\d+)?\s*$";

/// Whether the text has the shape of a number literal.
pub fn is_number(s: &str) -> (r: bool)
    ensures
        r == regex_matches(NUMBER_PATTERN@, s@),
{
    matches_pattern(NUMBER_PATTERN, s)
}

fn same_text(a: &String, b: &str) -> (r: bool)
    ensures
        r == (a@ == b@),
{
    *a == b.to_string()
}

pub open spec fn span_at(tokens: Seq<Token>, pos: int) -> Option<Span> {
    if 0 <= pos < tokens.len() {
        Some(tokens[pos].span)
    } else {
        None
    }
}

fn span_of(tokens: &Vec<Token>, pos: usize) -> (r: Option<Span>)
    ensures
        r == span_at(tokens@, pos as int),
{
    if pos < tokens.len() {
        Some(tokens[pos].span)
    } else {
        None
    }
}

/// Whether an identifier is inlined as it is: `true`, `false`, or a number.
pub open spec fn is_literal_word(s: Seq<char>) -> bool {
    s == "true"@ || s == "false"@ || regex_matches(NUMBER_PATTERN@, s)
}

pub open spec fn err(message: Seq<char>, span: Option<Span>) -> ErrM {
    ErrM { message, span }
}

pub open spec fn is_punct_at(toks: Seq<Token>, p: int, c: char) -> bool {
    0 <= p < toks.len() && toks[p].is_punct(c)
}

pub open spec fn is_ident_at(toks: Seq<Token>, p: int) -> bool {
    0 <= p < toks.len() && toks[p].is_ident()
}

/// The value of a bracketed attribute group, read from its `i`-th token:
/// the first identifier decides (`true`, `false` or a number is inlined; a
/// lone identifier is a variable; one followed by `|` makes the group an
/// event handler; otherwise the group is passed through); a nested group
/// is passed through; a final punctuation passes the group through; a
/// final literal is the value.
pub open spec fn group_value_from(g: Group, i: int) -> Result<ValueM, ErrM>
    decreases g.stream@.len() - i,
{
    let s = g.stream@;
    if i < 0 || i >= s.len() {
        Err(err("Failed to parse the attribute value"@, Some(g.span)))
    } else {
        match s[i].kind {
            TokenKind::Ident(name) => if is_literal_word(name@) {
                Ok(ValueM::Ident(name@, s[i].span))
            } else if i + 1 < s.len() {
                if s[i + 1].is_punct('|') {
                    Ok(ValueM::Event(group_model(g)))
                } else {
                    Ok(ValueM::Group(group_model(g)))
                }
            } else {
                Ok(ValueM::Variable(name@))
            },
            TokenKind::Group(inner) => Ok(ValueM::Group(group_model(inner))),
            TokenKind::Punct(_) => if i + 1 >= s.len() {
                Ok(ValueM::Group(group_model(g)))
            } else {
                group_value_from(g, i + 1)
            },
            TokenKind::Literal(l) => if i + 1 >= s.len() {
                Ok(ValueM::Literal(l@, s[i].span))
            } else {
                group_value_from(g, i + 1)
            },
        }
    }
}

pub open spec fn value_result(r: Result<JsxAttributeValue, ParseError>) -> Result<ValueM, ErrM> {
    match r {
        Ok(v) => Ok(value_model(v)),
        Err(e) => Err(err_model(e)),
    }
}

/// The value of an attribute given as a bracketed group (see
/// `group_value_from`).
pub fn parse_attribute_group(group: &Group) -> (r: Result<JsxAttributeValue, ParseError>)
    ensures
        value_result(r) == group_value_from(*group, 0),
{
    let s = &group.stream;
    let mut i: usize = 0;
    while i < s.len()
        invariant
            i <= s.len(),
            s == group.stream,
            group_value_from(*group, 0) == group_value_from(*group, i as int),
        decreases s.len() - i,
    {
        match &s[i].kind {
            TokenKind::Ident(name) => {
                if same_text(name, "false") || same_text(name, "true") || is_number(name.as_str()) {
                    return Ok(JsxAttributeValue::Ident(name.clone(), s[i].span));
                }
                if i + 1 < s.len() {
                    if s[i + 1].punct_is('|') {
                        return Ok(JsxAttributeValue::Event(copy_group(group)));
                    }
                    return Ok(JsxAttributeValue::Group(copy_group(group)));
                }
                return Ok(JsxAttributeValue::Variable(name.clone()));
            },
            TokenKind::Group(inner) => {
                return Ok(JsxAttributeValue::Group(copy_group(inner)));
            },
            TokenKind::Punct(_) => {
                if i + 1 >= s.len() {
                    return Ok(JsxAttributeValue::Group(copy_group(group)));
                }
            },
            TokenKind::Literal(lit) => {
                if i + 1 >= s.len() {
                    return Ok(JsxAttributeValue::Literal(lit.clone(), s[i].span));
                }
            },
        }
        i = i + 1;
    }
    Err(ParseError::new("Failed to parse the attribute value", Some(group.span)))
}

/// `= value` after an attribute name, from `pos`; the position after it.
pub open spec fn attribute_spec(toks: Seq<Token>, pos: int, name: Seq<char>, name_span: Span) -> Result<
    (AttrM, int),
    ErrM,
> {
    let invalid = "Attribute value is invalid. Only String/Number/Boolean are allowed as literals"@;
    if !is_punct_at(toks, pos, '=') {
        Err(err("Expected '=' after attribute name"@, span_at(toks, pos)))
    } else if pos + 1 >= toks.len() {
        Err(err(invalid, None))
    } else {
        let t = toks[pos + 1];
        let value = match t.kind {
            TokenKind::Literal(l) => Ok(ValueM::Literal(l@, t.span)),
            TokenKind::Group(g) => group_value_from(g, 0),
            TokenKind::Ident(i) => Ok(ValueM::Ident(i@, t.span)),
            TokenKind::Punct(_) => Err(err(invalid, Some(t.span))),
        };
        match value {
            Ok(v) => Ok((AttrM { name, value: v, span: Some(name_span) }, pos + 2)),
            Err(e) => Err(e),
        }
    }
}

pub open spec fn attr_result(r: Result<(JsxAttribute, usize), ParseError>) -> Result<(AttrM, int), ErrM> {
    match r {
        Ok((a, n)) => Ok((attr_model(a), n as int)),
        Err(e) => Err(err_model(e)),
    }
}

/// Parses `= value` after the attribute name (see `attribute_spec`).
fn parse_attribute(tokens: &Vec<Token>, pos: usize, name: &String, name_span: Span) -> (r: Result<
    (JsxAttribute, usize),
    ParseError,
>)
    requires
        pos <= tokens@.len(),
    ensures
        attr_result(r) == attribute_spec(tokens@, pos as int, name@, name_span),
        r matches Ok((_, next)) ==> next == pos + 2 && next <= tokens@.len(),
{
    if pos >= tokens.len() || !tokens[pos].punct_is('=') {
        return Err(ParseError::new("Expected '=' after attribute name", span_of(tokens, pos)));
    }
    let at = pos + 1;
    if at >= tokens.len() {
        return Err(
            ParseError::new(
                "Attribute value is invalid. Only String/Number/Boolean are allowed as literals",
                None,
            ),
        );
    }
    let value = match &tokens[at].kind {
        TokenKind::Literal(lit) => JsxAttributeValue::Literal(lit.clone(), tokens[at].span),
        TokenKind::Group(g) => {
            match parse_attribute_group(g) {
                Ok(v) => v,
                Err(e) => {
                    return Err(e);
                },
            }
        },
        TokenKind::Ident(id) => JsxAttributeValue::Ident(id.clone(), tokens[at].span),
        TokenKind::Punct(_) => {
            return Err(
                ParseError::new(
                    "Attribute value is invalid. Only String/Number/Boolean are allowed as literals",
                    Some(tokens[at].span),
                ),
            );
        },
    };
    Ok((JsxAttribute { name: name.clone(), value, span: Some(name_span) }, at + 1))
}

fn has_attribute(attributes: &Vec<JsxAttribute>, name: &String) -> (r: bool)
    ensures
        r == has_name(attrs_model(attributes@), name@),
{
    let mut i: usize = 0;
    while i < attributes.len()
        invariant
            i <= attributes.len(),
            forall|j: int| 0 <= j < i ==> (#[trigger] attributes@[j]).name@ != name@,
        decreases attributes.len() - i,
    {
        if attributes[i].name == *name {
            assert(attrs_model(attributes@)[i as int].name == name@);
            return true;
        }
        i = i + 1;
    }
    assert forall|j: int| 0 <= j < attributes@.len() implies (#[trigger] attrs_model(attributes@)[j]).name
        != name@ by {
        assert(attributes@[j].name@ != name@);
    }
    false
}

/// Whether an attribute of this name was read.
pub open spec fn has_name(attrs: Seq<AttrM>, name: Seq<char>) -> bool {
    exists|j: int| 0 <= j < attrs.len() && (#[trigger] attrs[j]).name == name
}

/// How an opening tag ended.
pub enum OpenTag {
    /// With `/>`: the element is complete.
    SelfClosed(Seq<AttrM>, int),
    /// With `>` (or `/`, or the end of the input): children follow.
    Opened(Seq<AttrM>, int),
}

/// The attributes of an opening tag from `p`, after those already read:
/// each is an identifier with its `= value` (a repeated name is an error);
/// `/` `>` closes the element, `>` or a lone `/` opens it, any other token
/// is an error.
pub open spec fn open_tag_spec(toks: Seq<Token>, p: int, attrs: Seq<AttrM>) -> Result<OpenTag, ErrM>
    decreases toks.len() - p,
{
    if p < 0 || p >= toks.len() {
        Ok(OpenTag::Opened(attrs, p))
    } else {
        let t = toks[p];
        match t.kind {
            TokenKind::Punct(c) => if c != '>' && c != '/' {
                Err(err("Invalid character was found"@, Some(t.span)))
            } else if c == '/' && is_punct_at(toks, p + 1, '>') {
                Ok(OpenTag::SelfClosed(attrs, p + 2))
            } else {
                Ok(OpenTag::Opened(attrs, p + 1))
            },
            TokenKind::Ident(n) => match attribute_spec(toks, p + 1, n@, t.span) {
                Err(e) => Err(e),
                Ok((a, next)) => if has_name(attrs, n@) {
                    Err(err("Multiple attributes with the same name detected"@, Some(t.span)))
                } else if next > p {
                    open_tag_spec(toks, next, attrs.push(a))
                } else {
                    Err(err(seq![], None))
                },
            },
            _ => Err(err("Invalid character was found"@, Some(t.span))),
        }
    }
}

pub open spec fn open_result(r: Result<(Vec<JsxAttribute>, usize, bool), ParseError>) -> Result<
    OpenTag,
    ErrM,
> {
    match r {
        Ok((a, n, true)) => Ok(OpenTag::SelfClosed(attrs_model(a@), n as int)),
        Ok((a, n, false)) => Ok(OpenTag::Opened(attrs_model(a@), n as int)),
        Err(e) => Err(err_model(e)),
    }
}

/// The attributes of an opening tag from `pos` (see `open_tag_spec`);
/// the flag tells whether the element closed itself.
fn parse_open_tag(tokens: &Vec<Token>, pos: usize) -> (r: Result<(Vec<JsxAttribute>, usize, bool), ParseError>)
    requires
        pos <= tokens@.len(),
    ensures
        open_result(r) == open_tag_spec(tokens@, pos as int, seq![]),
        r matches Ok((a, next, _)) ==> pos <= next <= tokens@.len() && distinct_names(a@),
{
    let n = tokens.len();
    let mut at = pos;
    let mut attributes: Vec<JsxAttribute> = Vec::new();
    assert(attrs_model(attributes@) =~= seq![]);
    while at < n
        invariant
            pos <= at <= n,
            n == tokens@.len(),
            distinct_names(attributes@),
            open_tag_spec(tokens@, pos as int, seq![]) == open_tag_spec(
                tokens@,
                at as int,
                attrs_model(attributes@),
            ),
        decreases n - at,
    {
        let t = &tokens[at];
        match &t.kind {
            TokenKind::Punct(c) => {
                if *c != '>' && *c != '/' {
                    return Err(ParseError::new("Invalid character was found", Some(t.span)));
                }
                if *c == '/' && at + 1 < n && tokens[at + 1].punct_is('>') {
                    return Ok((attributes, at + 2, true));
                }
                return Ok((attributes, at + 1, false));
            },
            TokenKind::Ident(attr_name) => {
                let (attr, next) = match parse_attribute(tokens, at + 1, attr_name, t.span) {
                    Ok(a) => a,
                    Err(e) => {
                        return Err(e);
                    },
                };
                if has_attribute(&attributes, attr_name) {
                    return Err(
                        ParseError::new("Multiple attributes with the same name detected", Some(t.span)),
                    );
                }
                let ghost prev = attributes@;
                attributes.push(attr);
                assert(attrs_model(attributes@) =~= attrs_model(prev).push(attr_model(attr)));
                assert forall|i: int, j: int|
                    0 <= i < j < attributes@.len() implies (#[trigger] attributes@[i]).name@
                    != (#[trigger] attributes@[j]).name@ by {
                    if j < prev.len() {
                        assert(attributes@[i] == prev[i] && attributes@[j] == prev[j]);
                    } else {
                        assert(attributes@[i] == prev[i]);
                        assert(attrs_model(prev)[i].name == prev[i].name@);
                    }
                }
                at = next;
            },
            _ => {
                return Err(ParseError::new("Invalid character was found", Some(t.span)));
            },
        }
    }
    Ok((attributes, at, false))
}

/// Whether the attribute names are pairwise distinct.
pub open spec fn distinct_names(a: Seq<JsxAttribute>) -> bool {
    forall|i: int, j: int| 0 <= i < j < a.len() ==> (#[trigger] a[i]).name@ != (#[trigger] a[j]).name@
}

/// The message for a missing or mismatched closing tag.
pub open spec fn closing_message(tag: Seq<char>) -> Seq<char> {
    "Expected closing tag for the JSX element <"@ + tag + ">"@
}

fn closing_error(tag: &Option<String>, span: Option<Span>) -> (r: ParseError)
    ensures
        r.message@ == closing_message(
            match tag {
                Some(t) => t@,
                None => seq![],
            },
        ),
        r.span == span,
{
    let name = match tag {
        Some(t) => t.clone(),
        None => String::new(),
    };
    let message = "Expected closing tag for the JSX element <".to_string().concat(name.as_str()).concat(">");
    ParseError { message, span }
}

/// Checks the token that closes an element (after `<` and `/`): the tag's
/// own identifier, or a bare `>` for a fragment.
pub fn check_close_tag(tag: &Option<String>, token: &Token) -> (r: Result<(), ParseError>)
    ensures
        r is Ok <==> match tag {
            Some(t) => token.kind is Ident && token.kind->Ident_0@ == t@,
            None => token.is_punct('>'),
        },
        r matches Err(e) ==> e.span == Some(token.span) && e.message@ == closing_message(
            match tag {
                Some(t) => t@,
                None => seq![],
            },
        ),
{
    let good = match (tag, &token.kind) {
        (Some(t), TokenKind::Ident(name)) => *name == *t,
        (None, TokenKind::Punct(c)) => *c == '>',
        _ => false,
    };
    if good {
        Ok(())
    } else {
        Err(closing_error(tag, Some(token.span)))
    }
}

/// The identifiers from `p` on, each after a space; the text and the
/// position after the last identifier.
pub open spec fn idents_suffix(toks: Seq<Token>, p: int) -> (Seq<char>, int)
    decreases toks.len() - p,
{
    if is_ident_at(toks, p) {
        let rest = idents_suffix(toks, p + 1);
        (" "@ + toks[p].kind->Ident_0@ + rest.0, rest.1)
    } else {
        (seq![], p)
    }
}

/// A bracketed group among the children: a variable when it holds one
/// identifier, else an inline expression.
pub open spec fn group_child_spec(g: Group) -> ChildM {
    if g.stream@.len() == 1 && g.stream@[0].kind is Ident {
        ChildM::Variable(g.stream@[0].kind->Ident_0@, g.stream@[0].span)
    } else {
        ChildM::Functional(group_model(g))
    }
}

/// The children from `p`, after those already read, up to `<` `/` (not
/// followed by another `/`) or the end of the input; the position after
/// what was read. Punctuation, literals and runs of identifiers are text;
/// `<` with an identifier opens a nested element; `<` `/` `/` escapes a
/// literal `</` (the `<` is text here, the second `/` is read next as
/// punctuation); a bracketed group is a variable or an inline expression.
pub open spec fn children_spec(toks: Seq<Token>, p: int, kids: Seq<ChildM>) -> Result<
    (Seq<ChildM>, int),
    ErrM,
>
    decreases toks.len() - p, 0int,
{
    if p < 0 || p >= toks.len() {
        Ok((kids, p))
    } else {
        let t = toks[p];
        match t.kind {
            TokenKind::Punct(c) => if c != '<' {
                children_spec(toks, p + 1, merge_spec(kids, seq![c], false))
            } else if is_punct_at(toks, p + 1, '/') {
                if is_punct_at(toks, p + 2, '/') {
                    children_spec(toks, p + 2, merge_spec(kids, seq!['<'], false))
                } else {
                    Ok((kids, p + 2))
                }
            } else if is_ident_at(toks, p + 1) {
                match element_spec(toks, p + 1, true) {
                    Err(e) => Err(e),
                    Ok((child, next)) => if p < next <= toks.len() {
                        children_spec(toks, next, kids.push(ChildM::Element(child)))
                    } else {
                        Err(err(seq![], None))
                    },
                }
            } else {
                Err(err("Unknown element children provided"@, Some(t.span)))
            },
            TokenKind::Literal(l) => children_spec(toks, p + 1, merge_spec(kids, l@, true)),
            TokenKind::Ident(w) => {
                let (suffix, next) = idents_suffix(toks, p + 1);
                if p < next <= toks.len() {
                    children_spec(toks, next, merge_spec(kids, w@ + suffix, true))
                } else {
                    Err(err(seq![], None))
                }
            },
            TokenKind::Group(g) => children_spec(toks, p + 1, kids.push(group_child_spec(g))),
        }
    }
}

/// Whether `t` closes an element with this tag (after `<` `/`): the tag's
/// own identifier, or a bare `>` for a fragment.
pub open spec fn closes(tag: Option<Seq<char>>, t: Token) -> bool {
    match tag {
        Some(name) => t.kind is Ident && t.kind->Ident_0@ == name,
        None => t.is_punct('>'),
    }
}

pub open spec fn opt_attrs(a: Seq<AttrM>) -> Option<Seq<AttrM>> {
    if a.len() > 0 {
        Some(a)
    } else {
        None
    }
}

/// The rest of an element after its opening tag: the children from `at`,
/// then the closing tag.
pub open spec fn finish_spec(
    toks: Seq<Token>,
    at: int,
    tag: Option<Seq<char>>,
    attributes: Option<Seq<AttrM>>,
    span: Option<Span>,
) -> Result<(ElemM, int), ErrM>
    decreases toks.len() - at, 2int,
{
    match children_spec(toks, at, seq![]) {
        Err(e) => Err(e),
        Ok((kids, a2)) => {
            let children = if kids.len() > 0 {
                Some(kids)
            } else {
                None
            };
            let tag_text = match tag {
                Some(t) => t,
                None => seq![],
            };
            let e = ElemM { tag, attributes, children, span };
            if a2 < 0 || a2 >= toks.len() {
                Err(err(closing_message(tag_text), None))
            } else if !closes(tag, toks[a2]) {
                Err(err(closing_message(tag_text), Some(toks[a2].span)))
            } else if tag is Some {
                if is_punct_at(toks, a2 + 1, '>') {
                    Ok((e, a2 + 2))
                } else {
                    Err(
                        err(
                            "The element closing tag should end with '>'"@,
                            if a2 + 1 < toks.len() {
                                Some(toks[a2 + 1].span)
                            } else {
                                span
                            },
                        ),
                    )
                }
            } else {
                Ok((e, a2 + 1))
            }
        },
    }
}

/// One element from `pos` (with `open_tag_missing`, the `<` is taken as
/// already read) and the position after it: `<` then a tag with its
/// attributes, or `>` for a fragment; children; the closing tag.
pub open spec fn element_spec(toks: Seq<Token>, pos: int, open_tag_missing: bool) -> Result<
    (ElemM, int),
    ErrM,
>
    decreases toks.len() - pos, 1int,
{
    if !open_tag_missing && !is_punct_at(toks, pos, '<') {
        Err(err("Expected '<' as a start of an element"@, span_at(toks, pos)))
    } else {
        let p = if open_tag_missing {
            pos
        } else {
            pos + 1
        };
        if p < 0 || p >= toks.len() {
            Err(err("Expected '>' or 'Tag' after start of an element"@, None))
        } else {
            let span = Some(toks[p].span);
            match toks[p].kind {
                TokenKind::Ident(name) => match open_tag_spec(toks, p + 1, seq![]) {
                    Err(e) => Err(e),
                    Ok(OpenTag::SelfClosed(attrs, next)) => Ok(
                        (
                            ElemM {
                                tag: Some(name@),
                                attributes: opt_attrs(attrs),
                                children: None,
                                span,
                            },
                            next,
                        ),
                    ),
                    Ok(OpenTag::Opened(attrs, next)) => if pos < next <= toks.len() {
                        finish_spec(toks, next, Some(name@), opt_attrs(attrs), span)
                    } else {
                        Err(err(seq![], None))
                    },
                },
                TokenKind::Punct(c) => if c != '>' {
                    Err(err("Expected '>' or 'Tag' after start of an element"@, span))
                } else {
                    finish_spec(toks, p + 1, None, None, span)
                },
                _ => Err(err("Expected '>' or 'Tag' after start of an element"@, span)),
            }
        }
    }
}

pub open spec fn element_result(r: Result<(JsxElement, usize), ParseError>) -> Result<(ElemM, int), ErrM> {
    match r {
        Ok((e, n)) => Ok((elem_model(e), n as int)),
        Err(e) => Err(err_model(e)),
    }
}

pub open spec fn children_result(r: Result<(Vec<JsxChild>, usize), ParseError>) -> Result<
    (Seq<ChildM>, int),
    ErrM,
> {
    match r {
        Ok((c, n)) => Ok((jsx_kids_model(c), n as int)),
        Err(e) => Err(err_model(e)),
    }
}

fn push_child(children: &mut Vec<JsxChild>, c: JsxChild)
    requires
        no_adjacent_text(old(children)@),
        !(c is String),
    ensures
        no_adjacent_text(final(children)@),
        jsx_kids_model(*final(children)) == jsx_kids_model(*old(children)).push(jsx_child_model(c)),
{
    let ghost prev = children@;
    let ghost prev_model = jsx_kids_model(*children);
    children.push(c);
    assert(jsx_kids_model(*children) =~= prev_model.push(jsx_child_model(c)));
    assert forall|i: int| 0 < i < children@.len() implies !(children@[i - 1] is String
        && #[trigger] children@[i] is String) by {
        if i < prev.len() {
            assert(children@[i] == prev[i] && children@[i - 1] == prev[i - 1]);
        }
    }
}

/// The identifiers that follow from `pos`, each after a space (see
/// `idents_suffix`), none when the next token is no identifier; and the
/// position after them.
pub fn merge_idents(tokens: &Vec<Token>, pos: usize) -> (r: (Option<String>, usize))
    requires
        pos <= tokens@.len(),
    ensures
        pos <= r.1 <= tokens@.len(),
        r.1 == idents_suffix(tokens@, pos as int).1,
        r.0 is None <==> !is_ident_at(tokens@, pos as int),
        r.0 matches Some(s) ==> s@ == idents_suffix(tokens@, pos as int).0,
        r.0 is None ==> idents_suffix(tokens@, pos as int).0 == Seq::<char>::empty(),
{
    let n = tokens.len();
    if pos >= n || !tokens[pos].is_ident_token() {
        return (None, pos);
    }
    let mut text = String::new();
    let mut at = pos;
    while at < n && tokens[at].is_ident_token()
        invariant
            pos <= at <= n,
            n == tokens@.len(),
            idents_suffix(tokens@, pos as int) == (text@ + idents_suffix(tokens@, at as int).0, idents_suffix(
                tokens@,
                at as int,
            ).1),
        decreases n - at,
    {
        let ghost before = text@;
        if let TokenKind::Ident(next_word) = &tokens[at].kind {
            text = text.concat(" ").concat(next_word.as_str());
        }
        let ghost rest = idents_suffix(tokens@, at + 1);
        assert(before + idents_suffix(tokens@, at as int).0 =~= text@ + rest.0);
        at = at + 1;
    }
    assert(text@ + idents_suffix(tokens@, at as int).0 =~= text@);
    (Some(text), at)
}

/// A bracketed group among the children (see `group_child_spec`).
fn group_child(g: &Group) -> (r: JsxChild)
    ensures
        !(r is String),
        jsx_child_model(r) == group_child_spec(*g),
{
    if g.stream.len() == 1 {
        match &g.stream[0].kind {
            TokenKind::Ident(v) => JsxChild::Variable(v.clone(), g.stream[0].span),
            _ => JsxChild::Functional(copy_group(g)),
        }
    } else {
        JsxChild::Functional(copy_group(g))
    }
}

/// Parses children from `pos` (see `children_spec`).
fn parse_children(tokens: &Vec<Token>, pos: usize) -> (r: Result<(Vec<JsxChild>, usize), ParseError>)
    requires
        pos <= tokens@.len(),
    ensures
        children_result(r) == children_spec(tokens@, pos as int, seq![]),
        r matches Ok((c, next)) ==> pos <= next <= tokens@.len() && no_adjacent_text(c@),
    decreases tokens@.len() - pos, 0int,
{
    let n = tokens.len();
    let mut at = pos;
    let mut children: Vec<JsxChild> = Vec::new();
    assert(jsx_kids_model(children) =~= seq![]);
    while at < n
        invariant
            pos <= at <= n,
            n == tokens@.len(),
            no_adjacent_text(children@),
            children_spec(tokens@, pos as int, seq![]) == children_spec(
                tokens@,
                at as int,
                jsx_kids_model(children),
            ),
        decreases n - at,
    {
        let t = &tokens[at];
        match &t.kind {
            TokenKind::Punct(c) => {
                if *c != '<' {
                    merge_children_string(&mut children, char_string(*c), false);
                    at = at + 1;
                } else if at + 1 < n && tokens[at + 1].punct_is('/') {
                    if at + 2 < n && tokens[at + 2].punct_is('/') {
                        merge_children_string(&mut children, char_string('<'), false);
                        at = at + 2;
                    } else {
                        return Ok((children, at + 2));
                    }
                } else if at + 1 < n && tokens[at + 1].is_ident_token() {
                    match parse_jsx_element(tokens, at + 1, true) {
                        Ok((child, next)) => {
                            push_child(&mut children, JsxChild::Element(child));
                            at = next;
                        },
                        Err(e) => {
                            return Err(e);
                        },
                    }
                } else {
                    return Err(ParseError::new("Unknown element children provided", Some(t.span)));
                }
            },
            TokenKind::Literal(lit) => {
                merge_children_string(&mut children, lit.clone(), true);
                at = at + 1;
            },
            TokenKind::Ident(word) => {
                let (suffix, next) = merge_idents(tokens, at + 1);
                let text = match suffix {
                    Some(rest) => word.clone().concat(rest.as_str()),
                    None => word.clone(),
                };
                assert(text@ =~= word@ + idents_suffix(tokens@, at + 1).0);
                merge_children_string(&mut children, text, true);
                at = next;
            },
            TokenKind::Group(g) => {
                push_child(&mut children, group_child(g));
                at = at + 1;
            },
        }
    }
    Ok((children, at))
}

/// Parses one element from `pos` (see `element_spec`); with
/// `open_tag_missing` the `<` is taken as already read.
pub fn parse_jsx_element(tokens: &Vec<Token>, pos: usize, open_tag_missing: bool) -> (r: Result<
    (JsxElement, usize),
    ParseError,
>)
    requires
        pos <= tokens@.len(),
    ensures
        element_result(r) == element_spec(tokens@, pos as int, open_tag_missing),
        r matches Ok((e, next)) ==> pos < next <= tokens@.len(),
    decreases tokens@.len() - pos, 1int,
{
    let n = tokens.len();
    let mut p = pos;
    if !open_tag_missing {
        if pos >= n || !tokens[pos].punct_is('<') {
            return Err(ParseError::new("Expected '<' as a start of an element", span_of(tokens, pos)));
        }
        p = pos + 1;
    }
    if p >= n {
        return Err(ParseError::new("Expected '>' or 'Tag' after start of an element", None));
    }
    let span: Option<Span> = Some(tokens[p].span);
    let (tag, attrs, at): (Option<String>, Option<Vec<JsxAttribute>>, usize) = match &tokens[p].kind {
        TokenKind::Ident(name) => {
            match parse_open_tag(tokens, p + 1) {
                Err(e) => {
                    return Err(e);
                },
                Ok((attributes, next, self_closed)) => {
                    let attrs = if attributes.len() > 0 {
                        Some(attributes)
                    } else {
                        None
                    };
                    if self_closed {
                        let element = JsxElement { tag: Some(name.clone()), attributes: attrs, children: None, span };
                        return Ok((element, next));
                    }
                    (Some(name.clone()), attrs, next)
                },
            }
        },
        TokenKind::Punct(c) => {
            if *c != '>' {
                return Err(ParseError::new("Expected '>' or 'Tag' after start of an element", span));
            }
            (None, None, p + 1)
        },
        _ => {
            return Err(ParseError::new("Expected '>' or 'Tag' after start of an element", span));
        },
    };
    let (children, a2) = match parse_children(tokens, at) {
        Ok(c) => c,
        Err(e) => {
            return Err(e);
        },
    };
    let kids = if children.len() > 0 {
        Some(children)
    } else {
        None
    };
    if a2 >= n {
        return Err(closing_error(&tag, None));
    }
    match check_close_tag(&tag, &tokens[a2]) {
        Ok(()) => {},
        Err(e) => {
            return Err(e);
        },
    }
    let mut end = a2 + 1;
    if tag.is_some() {
        if end >= n || !tokens[end].punct_is('>') {
            return Err(
                ParseError::new(
                    "The element closing tag should end with '>'",
                    if end < n {
                        Some(tokens[end].span)
                    } else {
                        span
                    },
                ),
            );
        }
        end = end + 1;
    }
    Ok((JsxElement { tag, attributes: attrs, children: kids, span }, end))
}

/// An element opened with a tag, whose children end at a closing tag that
/// names another identifier, fails with the closing-tag error for its own
/// tag, placed at the mismatched identifier.
pub proof fn lemma_mismatched_close(
    toks: Seq<Token>,
    pos: int,
    attrs: Seq<AttrM>,
    next: int,
    kids: Seq<ChildM>,
    close: int,
)
    requires
        is_punct_at(toks, pos, '<'),
        is_ident_at(toks, pos + 1),
        open_tag_spec(toks, pos + 2, seq![]) == Ok::<OpenTag, ErrM>(OpenTag::Opened(attrs, next)),
        pos < next <= toks.len(),
        children_spec(toks, next, seq![]) == Ok::<(Seq<ChildM>, int), ErrM>((kids, close)),
        0 <= close < toks.len(),
        toks[close].kind is Ident,
        toks[close].kind->Ident_0@ != toks[pos + 1].kind->Ident_0@,
    ensures
        element_spec(toks, pos, false) == Err::<(ElemM, int), ErrM>(
            err(closing_message(toks[pos + 1].kind->Ident_0@), Some(toks[close].span)),
        ),
{
}

/// Parses one markup expression (see `element_spec`).
pub fn parse_jsx_syntax(input: &Vec<Token>) -> (r: Result<JsxElement, ParseError>)
    ensures
        match r {
            Ok(e) => element_spec(input@, 0, false) matches Ok((m, _)) && m == elem_model(e),
            Err(e) => element_spec(input@, 0, false) == Err::<(ElemM, int), ErrM>(err_model(e)),
        },
        !(input@.len() > 0 && input@[0].is_punct('<')) ==> (r matches Err(e) && e.message@
            == "Expected '<' as a start of an element"@ && e.span == span_at(input@, 0)),
{
    match parse_jsx_element(input, 0, false) {
        Ok((element, _)) => Ok(element),
        Err(e) => Err(e),
    }
}

} // verus!
