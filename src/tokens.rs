//! The lexical tokens that one markup expression arrives as.
use vstd::prelude::*;

verus! {

/// Where a token stands in the source.
#[derive(Clone, Copy, Debug, PartialEq, Eq, Structural)]
pub struct Span {
    pub line: usize,
    pub column: usize,
}

/// The bracket around a group.
#[derive(Clone, Copy, Debug, PartialEq, Eq, Structural)]
pub enum Delimiter {
    Parenthesis,
    Brace,
    Bracket,
    Invisible,
}

/// A bracketed group of tokens.
#[derive(Debug)]
pub struct Group {
    pub delimiter: Delimiter,
    pub stream: Vec<Token>,
    pub span: Span,
}

/// What a token is.
#[derive(Debug)]
pub enum TokenKind {
    /// An identifier or keyword.
    Ident(String),
    /// A single punctuation character.
    Punct(char),
    /// A literal, as written (a string literal keeps its quotes).
    Literal(String),
    /// A bracketed group.
    Group(Group),
}

/// One token and its place.
#[derive(Debug)]
pub struct Token {
    pub kind: TokenKind,
    pub span: Span,
}

impl Token {
    pub open spec fn is_punct(&self, c: char) -> bool {
        self.kind == TokenKind::Punct(c)
    }

    pub open spec fn is_ident(&self) -> bool {
        self.kind is Ident
    }

    /// Whether the token is an identifier.
    pub fn is_ident_token(&self) -> (r: bool)
        ensures
            r == self.is_ident(),
    {
        match &self.kind {
            TokenKind::Ident(_) => true,
            _ => false,
        }
    }

    /// Whether the token is the punctuation character `c`.
    pub fn punct_is(&self, c: char) -> (r: bool)
        ensures
            r == self.is_punct(c),
    {
        match &self.kind {
            TokenKind::Punct(p) => *p == c,
            _ => false,
        }
    }
}

/// The model of a token: its strings as sequences.
pub enum Tok {
    Ident(Seq<char>, Span),
    Punct(char, Span),
    Literal(Seq<char>, Span),
    Group(GroupModel),
}

/// The model of a group.
pub struct GroupModel {
    pub delimiter: Delimiter,
    pub stream: Seq<Tok>,
    pub span: Span,
}

pub open spec fn token_model(t: Token) -> Tok
    decreases t, 0int,
{
    match t.kind {
        TokenKind::Ident(s) => Tok::Ident(s@, t.span),
        TokenKind::Punct(c) => Tok::Punct(c, t.span),
        TokenKind::Literal(s) => Tok::Literal(s@, t.span),
        TokenKind::Group(g) => Tok::Group(group_model(g)),
    }
}

pub open spec fn group_model(g: Group) -> GroupModel
    decreases g, 2int,
{
    GroupModel { delimiter: g.delimiter, stream: stream_model(g.stream), span: g.span }
}

pub open spec fn stream_model(v: Vec<Token>) -> Seq<Tok>
    decreases v, 1int,
{
    Seq::new(
        v@.len(),
        |i: int|
            if 0 <= i < v@.len() {
                token_model(v@[i])
            } else {
                Tok::Punct(' ', Span { line: 0, column: 0 })
            },
    )
}

/// A copy of a token list.
pub fn copy_tokens(v: &Vec<Token>) -> (r: Vec<Token>)
    ensures
        stream_model(r) == stream_model(*v),
    decreases *v, 1int,
{
    let mut r: Vec<Token> = Vec::new();
    let mut i: usize = 0;
    while i < v.len()
        invariant
            i <= v.len(),
            r@.len() == i,
            forall|j: int| 0 <= j < i ==> token_model(#[trigger] r@[j]) == token_model(v@[j]),
        decreases v.len() - i,
    {
        let t = copy_token(&v[i]);
        r.push(t);
        i = i + 1;
    }
    assert(stream_model(r) =~= stream_model(*v));
    r
}

/// A copy of a token.
pub fn copy_token(t: &Token) -> (r: Token)
    ensures
        token_model(r) == token_model(*t),
    decreases *t, 0int,
{
    let kind = match &t.kind {
        TokenKind::Ident(s) => TokenKind::Ident(s.clone()),
        TokenKind::Punct(c) => TokenKind::Punct(*c),
        TokenKind::Literal(s) => TokenKind::Literal(s.clone()),
        TokenKind::Group(g) => TokenKind::Group(copy_group(g)),
    };
    Token { kind, span: t.span }
}

/// A copy of a group.
pub fn copy_group(g: &Group) -> (r: Group)
    ensures
        group_model(r) == group_model(*g),
    decreases *g, 2int,
{
    Group { delimiter: g.delimiter, stream: copy_tokens(&g.stream), span: g.span }
}

} // verus!
