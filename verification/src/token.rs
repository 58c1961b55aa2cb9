//! Lexed tokens, and the error values that the token grammars report.
use vstd::prelude::*;
use crate::diag::Span;
use crate::stmt::ParsedError;

verus! {

/// A lexed token kind, as far as the grammars here tell kinds apart.
#[derive(Debug)]
pub enum TokenKind {
    Hash,
    LBracket,
    RBracket,
    LParen,
    RParen,
    Comma,
    Dot,
    Colon,
    LBrace,
    RBrace,
    Less,
    Greater,
    FatArrow,
    At,
    Ident(String),
    Import,
    Export,
    Pragma,
    Type,
    Data,
    Class,
    Instance,
    Contract,
    Public,
    Payable,
    Function,
    Constructor,
    Fallback,
    Forall,
    Default,
    Other,
}

/// A lexed token with its source span.
#[derive(Debug)]
pub struct Token {
    pub kind: TokenKind,
    pub span: Span,
}

/// The punctuation and keyword token kinds that carry no text.
#[derive(Clone, Copy, Debug, PartialEq, Eq, Structural)]
pub enum Mark {
    RBracket,
    LParen,
    RParen,
    Comma,
    Dot,
    Colon,
    Less,
    Greater,
    FatArrow,
    At,
    Function,
}

pub open spec fn has_mark(k: TokenKind, m: Mark) -> bool {
    match m {
        Mark::RBracket => k is RBracket,
        Mark::LParen => k is LParen,
        Mark::RParen => k is RParen,
        Mark::Comma => k is Comma,
        Mark::Dot => k is Dot,
        Mark::Colon => k is Colon,
        Mark::Less => k is Less,
        Mark::Greater => k is Greater,
        Mark::FatArrow => k is FatArrow,
        Mark::At => k is At,
        Mark::Function => k is Function,
    }
}

/// Whether a token of the kind `m` stands at `i`.
pub fn mark_at(toks: &[Token], i: usize, m: Mark) -> (r: bool)
    ensures
        r == (i < toks@.len() && has_mark(toks@[i as int].kind, m)),
{
    if i >= toks.len() {
        return false;
    }
    match (&toks[i].kind, m) {
        (TokenKind::RBracket, Mark::RBracket) => true,
        (TokenKind::LParen, Mark::LParen) => true,
        (TokenKind::RParen, Mark::RParen) => true,
        (TokenKind::Comma, Mark::Comma) => true,
        (TokenKind::Dot, Mark::Dot) => true,
        (TokenKind::Colon, Mark::Colon) => true,
        (TokenKind::Less, Mark::Less) => true,
        (TokenKind::Greater, Mark::Greater) => true,
        (TokenKind::FatArrow, Mark::FatArrow) => true,
        (TokenKind::At, Mark::At) => true,
        (TokenKind::Function, Mark::Function) => true,
        _ => false,
    }
}

/// The errors as span and message.
pub open spec fn errors_view(v: Seq<ParsedError>) -> Seq<(Span, Seq<char>)> {
    Seq::new(v.len(), |i: int| (v[i].span, v[i].message@))
}

/// The error for an identifier spelled with a hyphen.
pub open spec fn hyphen_text(name: Seq<char>) -> Seq<char> {
    "identifier `"@ + name + "` cannot contain hyphens"@
}

/// The span from the start of `a` to the end of `b`.
pub open spec fn join(a: Span, b: Span) -> Span {
    Span { start: a.start, end: b.end }
}

pub proof fn lemma_errors_view_push(v: Seq<ParsedError>, e: ParsedError)
    ensures
        errors_view(v.push(e)) == errors_view(v).push((e.span, e.message@)),
{
    assert(errors_view(v.push(e)) =~= errors_view(v).push((e.span, e.message@)));
}

} // verus!
