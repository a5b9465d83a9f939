//! The builder derive: how each field of a property struct is finalized
//! when it was not set (required, the type's default, a literal default,
//! or a default-computing function).
use vstd::prelude::*;
use crate::jsx::{err_model, ErrM, ParseError};
use crate::tokens::{
    copy_group, group_model, stream_model, token_model, Delimiter, Group, GroupModel, Span, Tok, Token,
    TokenKind,
};

verus! {

/// One attribute on a field: its name when its path is a single
/// identifier, and its tokens.
#[derive(Debug)]
pub struct AttrDecl {
    pub name: Option<String>,
    pub tokens: Vec<Token>,
    pub span: Span,
}

/// One field of a property struct: its name, the segments of its type's
/// path (empty when the type is not a path), and its attributes.
#[derive(Debug)]
pub struct FieldDecl {
    pub name: String,
    pub type_path: Vec<String>,
    pub attributes: Vec<AttrDecl>,
}

/// How a field is finalized when unset.
#[derive(Debug)]
pub enum FieldType {
    /// It must be set (an optional field stays unset).
    Required,
    /// The type's default value.
    Default,
    /// This literal, converted into the field's type.
    DefaultValue(String),
    /// The value that this function returns.
    DefaultFunction(String),
}

/// The builder's view of one field.
#[derive(Debug)]
pub struct FieldSpec {
    pub name: String,
    pub kind: FieldType,
    /// Whether the field's type is an `Option`: the setter then takes the
    /// inner type.
    pub is_option: bool,
}

/// The code that finalizes one field of the builder.
#[derive(Debug, PartialEq, Eq, Structural)]
pub enum FieldBuild {
    /// The value, or the type's default.
    UnwrapOrDefault,
    /// The value, or the literal default.
    UnwrapOr,
    /// The value, or what the default function returns.
    UnwrapOrElse,
    /// The value as it is: an optional field that may stay unset.
    Keep,
    /// The value, which must have been set.
    Expect,
}

/// Whether a type path names an `Option` (its last segment).
pub open spec fn is_option_path(path: Seq<String>) -> bool {
    path.len() > 0 && path.last()@ == "Option"@
}

fn text_is(a: &String, b: &str) -> (r: bool)
    ensures
        r == (a@ == b@),
{
    *a == b.to_string()
}

/// Whether the field's type is an `Option`.
pub fn is_type_option(type_path: &Vec<String>) -> (r: bool)
    ensures
        r == is_option_path(type_path@),
{
    type_path.len() > 0 && text_is(&type_path[type_path.len() - 1], "Option")
}

/// The first group of `s` from index `i` on, if it is in parentheses;
/// else the same search inside that group.
pub open spec fn first_paren_from(s: Seq<Tok>, i: int) -> Option<GroupModel>
    decreases s, s.len() - i,
{
    if i < 0 || i >= s.len() {
        None
    } else {
        match s[i] {
            Tok::Group(g) => if g.delimiter == Delimiter::Parenthesis {
                Some(g)
            } else {
                first_paren_from(g.stream, 0)
            },
            _ => first_paren_from(s, i + 1),
        }
    }
}

/// The first group reached through leading groups that is in parentheses
/// (see `first_paren_from`).
pub fn get_first_group_parentheses(tokens: &Vec<Token>) -> (r: Option<Group>)
    ensures
        match r {
            Some(g) => first_paren_from(stream_model(*tokens), 0) == Some(group_model(g)),
            None => first_paren_from(stream_model(*tokens), 0) is None,
        },
    decreases *tokens,
{
    let ghost m = stream_model(*tokens);
    let mut i: usize = 0;
    while i < tokens.len()
        invariant
            i <= tokens.len(),
            m == stream_model(*tokens),
            first_paren_from(m, 0) == first_paren_from(m, i as int),
        decreases tokens.len() - i,
    {
        assert(m[i as int] == token_model(tokens@[i as int]));
        if let TokenKind::Group(g) = &tokens[i].kind {
            if g.delimiter == Delimiter::Parenthesis {
                return Some(copy_group(g));
            }
            return get_first_group_parentheses(&g.stream);
        }
        i = i + 1;
    }
    None
}

/// The text of the one literal that the tokens hold, if they hold exactly one.
pub fn is_single_literal(tokens: &Vec<Token>) -> (r: Option<String>)
    ensures
        r is Some <==> tokens@.len() == 1 && tokens@[0].kind is Literal,
        r matches Some(s) ==> s@ == tokens@[0].kind->Literal_0@,
{
    if tokens.len() == 1 {
        if let TokenKind::Literal(l) = &tokens[0].kind {
            return Some(l.clone());
        }
    }
    None
}

/// The one identifier that the tokens hold, if they hold exactly one.
pub fn is_single_ident(tokens: &Vec<Token>) -> (r: Option<String>)
    ensures
        r is Some <==> tokens@.len() == 1 && tokens@[0].kind is Ident,
        r matches Some(s) ==> s@ == tokens@[0].kind->Ident_0@,
{
    if tokens.len() == 1 {
        if let TokenKind::Ident(l) = &tokens[0].kind {
            return Some(l.clone());
        }
    }
    None
}

/// The default that an attribute gives between its parentheses: the one
/// literal (with `literal`) or identifier (without) that they hold.
pub open spec fn attr_default(tokens: Seq<Tok>, span: Span, literal: bool) -> Result<Seq<char>, ErrM> {
    match first_paren_from(tokens, 0) {
        None => Err(ErrM { message: "Expected a default value for attribute"@, span: Some(span) }),
        Some(g) => if literal && g.stream.len() == 1 && g.stream[0] is Literal {
            Ok(g.stream[0]->Literal_0)
        } else if !literal && g.stream.len() == 1 && g.stream[0] is Ident {
            Ok(g.stream[0]->Ident_0)
        } else {
            Err(ErrM { message: "Expected a valid default value for attribute"@, span: Some(span) })
        },
    }
}

pub open spec fn text_result(r: Result<String, ParseError>) -> Result<Seq<char>, ErrM> {
    match r {
        Ok(s) => Ok(s@),
        Err(e) => Err(err_model(e)),
    }
}

/// The literal default of a `default_value(...)` attribute (see
/// `attr_default`).
pub fn extract_literal_attr(attr: &AttrDecl) -> (r: Result<String, ParseError>)
    ensures
        text_result(r) == attr_default(stream_model(attr.tokens), attr.span, true),
{
    match get_first_group_parentheses(&attr.tokens) {
        None => Err(ParseError::new("Expected a default value for attribute", Some(attr.span))),
        Some(g) => {
            assert(group_model(g).stream.len() == g.stream@.len());
            if g.stream.len() == 1 {
                assert(group_model(g).stream[0] == token_model(g.stream@[0]));
            }
            match is_single_literal(&g.stream) {
                Some(l) => Ok(l),
                None => Err(ParseError::new("Expected a valid default value for attribute", Some(attr.span))),
            }
        },
    }
}

/// The function of a `default_function(...)` attribute (see
/// `attr_default`).
pub fn extract_ident_attr(attr: &AttrDecl) -> (r: Result<String, ParseError>)
    ensures
        text_result(r) == attr_default(stream_model(attr.tokens), attr.span, false),
{
    match get_first_group_parentheses(&attr.tokens) {
        None => Err(ParseError::new("Expected a default value for attribute", Some(attr.span))),
        Some(g) => {
            assert(group_model(g).stream.len() == g.stream@.len());
            if g.stream.len() == 1 {
                assert(group_model(g).stream[0] == token_model(g.stream@[0]));
            }
            match is_single_ident(&g.stream) {
                Some(l) => Ok(l),
                None => Err(ParseError::new("Expected a valid default value for attribute", Some(attr.span))),
            }
        },
    }
}

/// The model of how a field defaults.
pub enum KindM {
    Required,
    Default,
    DefaultValue(Seq<char>),
    DefaultFunction(Seq<char>),
}

/// The model of a field spec.
pub struct FieldSpecM {
    pub name: Seq<char>,
    pub kind: KindM,
    pub is_option: bool,
}

pub open spec fn kind_model(k: FieldType) -> KindM {
    match k {
        FieldType::Required => KindM::Required,
        FieldType::Default => KindM::Default,
        FieldType::DefaultValue(s) => KindM::DefaultValue(s@),
        FieldType::DefaultFunction(s) => KindM::DefaultFunction(s@),
    }
}

pub open spec fn spec_model(f: FieldSpec) -> FieldSpecM {
    FieldSpecM { name: f.name@, kind: kind_model(f.kind), is_option: f.is_option }
}

/// How a field defaults, from its `i`-th attribute on: the first `default`
/// gives the type's default, `default_value(lit)` the literal,
/// `default_function(f)` the function's value; a field with none of them
/// is required.
pub open spec fn kind_from(attrs: Seq<AttrDecl>, i: int) -> Result<KindM, ErrM>
    decreases attrs.len() - i,
{
    if i < 0 || i >= attrs.len() {
        Ok(KindM::Required)
    } else {
        let a = attrs[i];
        if a.name matches Some(n) && n@ == "default"@ {
            Ok(KindM::Default)
        } else if a.name matches Some(n) && n@ == "default_value"@ {
            match attr_default(stream_model(a.tokens), a.span, true) {
                Ok(l) => Ok(KindM::DefaultValue(l)),
                Err(e) => Err(e),
            }
        } else if a.name matches Some(n) && n@ == "default_function"@ {
            match attr_default(stream_model(a.tokens), a.span, false) {
                Ok(f) => Ok(KindM::DefaultFunction(f)),
                Err(e) => Err(e),
            }
        } else {
            kind_from(attrs, i + 1)
        }
    }
}

/// The builder's view of a field.
pub open spec fn classify_spec(field: FieldDecl) -> Result<FieldSpecM, ErrM> {
    match kind_from(field.attributes@, 0) {
        Ok(kind) => Ok(
            FieldSpecM { name: field.name@, kind, is_option: is_option_path(field.type_path@) },
        ),
        Err(e) => Err(e),
    }
}

pub open spec fn spec_result(r: Result<FieldSpec, ParseError>) -> Result<FieldSpecM, ErrM> {
    match r {
        Ok(f) => Ok(spec_model(f)),
        Err(e) => Err(err_model(e)),
    }
}

/// How a field defaults (see `classify_spec`).
pub fn classify_field(field: &FieldDecl) -> (r: Result<FieldSpec, ParseError>)
    ensures
        spec_result(r) == classify_spec(*field),
{
    let is_option = is_type_option(&field.type_path);
    let mut i: usize = 0;
    while i < field.attributes.len()
        invariant
            i <= field.attributes@.len(),
            is_option == is_option_path(field.type_path@),
            kind_from(field.attributes@, 0) == kind_from(field.attributes@, i as int),
        decreases field.attributes@.len() - i,
    {
        let a = &field.attributes[i];
        if let Some(n) = &a.name {
            if text_is(n, "default") {
                return Ok(FieldSpec { name: field.name.clone(), kind: FieldType::Default, is_option });
            } else if text_is(n, "default_value") {
                return match extract_literal_attr(a) {
                    Ok(l) => Ok(
                        FieldSpec { name: field.name.clone(), kind: FieldType::DefaultValue(l), is_option },
                    ),
                    Err(e) => Err(e),
                };
            } else if text_is(n, "default_function") {
                return match extract_ident_attr(a) {
                    Ok(f) => Ok(
                        FieldSpec {
                            name: field.name.clone(),
                            kind: FieldType::DefaultFunction(f),
                            is_option,
                        },
                    ),
                    Err(e) => Err(e),
                };
            }
        }
        i = i + 1;
    }
    Ok(FieldSpec { name: field.name.clone(), kind: FieldType::Required, is_option })
}

/// The specs of the first `n` fields; the first error stops.
pub open spec fn derive_spec(fields: Seq<FieldDecl>, n: nat) -> Result<Seq<FieldSpecM>, ErrM>
    decreases n,
{
    if n == 0 || n > fields.len() {
        Ok(seq![])
    } else {
        match derive_spec(fields, (n - 1) as nat) {
            Err(e) => Err(e),
            Ok(specs) => match classify_spec(fields[n - 1]) {
                Err(e) => Err(e),
                Ok(s) => Ok(specs.push(s)),
            },
        }
    }
}

proof fn lemma_derive_error_stays(fields: Seq<FieldDecl>, n: nat, k: nat)
    requires
        n <= k <= fields.len(),
        derive_spec(fields, n) is Err,
    ensures
        derive_spec(fields, k) == derive_spec(fields, n),
    decreases k - n,
{
    if k > n {
        lemma_derive_error_stays(fields, n, (k - 1) as nat);
    }
}

/// The builder of a property struct: one spec per field, in order (see
/// `derive_spec`).
pub fn derive_builder(fields: &Vec<FieldDecl>) -> (r: Result<Vec<FieldSpec>, ParseError>)
    ensures
        match r {
            Ok(v) => derive_spec(fields@, fields@.len()) == Ok::<Seq<FieldSpecM>, ErrM>(
                v@.map_values(|f: FieldSpec| spec_model(f)),
            ),
            Err(e) => derive_spec(fields@, fields@.len()) == Err::<Seq<FieldSpecM>, ErrM>(err_model(e)),
        },
{
    let mut specs: Vec<FieldSpec> = Vec::new();
    let mut i: usize = 0;
    assert(specs@.map_values(|f: FieldSpec| spec_model(f)) =~= seq![]);
    while i < fields.len()
        invariant
            i <= fields.len(),
            derive_spec(fields@, i as nat) == Ok::<Seq<FieldSpecM>, ErrM>(
                specs@.map_values(|f: FieldSpec| spec_model(f)),
            ),
        decreases fields.len() - i,
    {
        match classify_field(&fields[i]) {
            Ok(s) => {
                let ghost prev = specs@;
                specs.push(s);
                assert(specs@.map_values(|f: FieldSpec| spec_model(f)) =~= prev.map_values(
                    |f: FieldSpec| spec_model(f),
                ).push(spec_model(s)));
            },
            Err(e) => {
                proof {
                    lemma_derive_error_stays(fields@, (i + 1) as nat, fields@.len());
                }
                return Err(e);
            },
        }
        i = i + 1;
    }
    Ok(specs)
}

/// How the builder finalizes a field.
pub open spec fn build_rule(kind: FieldType, is_option: bool) -> FieldBuild {
    match kind {
        FieldType::Default => FieldBuild::UnwrapOrDefault,
        FieldType::DefaultValue(_) => FieldBuild::UnwrapOr,
        FieldType::DefaultFunction(_) => FieldBuild::UnwrapOrElse,
        FieldType::Required => if is_option {
            FieldBuild::Keep
        } else {
            FieldBuild::Expect
        },
    }
}

/// How the builder finalizes this field (see `build_rule`).
pub fn generate_field_build(field: &FieldSpec) -> (r: FieldBuild)
    ensures
        r == build_rule(field.kind, field.is_option),
{
    match &field.kind {
        FieldType::Default => FieldBuild::UnwrapOrDefault,
        FieldType::DefaultValue(_) => FieldBuild::UnwrapOr,
        FieldType::DefaultFunction(_) => FieldBuild::UnwrapOrElse,
        FieldType::Required => if field.is_option {
            FieldBuild::Keep
        } else {
            FieldBuild::Expect
        },
    }
}

} // verus!
