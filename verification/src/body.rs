//! Function bodies over lexed tokens: the brace-balanced span that an item
//! captures as its body, and the bound on delimiter nesting that is checked
//! before a body is parsed.
use vstd::prelude::*;
use crate::diag::Span;
use crate::stmt::ParsedError;
use crate::text::string_of;
use crate::token::{errors_view, join, Token, TokenKind};

verus! {

/// The deepest nesting of `(`, `[` and `{` that parsing accepts.
pub const MAX_SYNTAX_NESTING: usize = 128;

pub open spec fn is_opening(k: TokenKind) -> bool {
    k is LParen || k is LBracket || k is LBrace
}

pub open spec fn is_closing(k: TokenKind) -> bool {
    k is RParen || k is RBracket || k is RBrace
}

/// The index of the `}` that closes a body whose contents start at `i`,
/// inside `depth` nested braces; `None` if the tokens end first.
pub open spec fn closing_brace(toks: Seq<Token>, i: int, depth: nat) -> Option<int>
    decreases toks.len() - i,
{
    if !(0 <= i < toks.len()) {
        None
    } else if toks[i].kind is LBrace {
        closing_brace(toks, i + 1, depth + 1)
    } else if toks[i].kind is RBrace {
        if depth == 0 {
            Some(i)
        } else {
            closing_brace(toks, i + 1, (depth - 1) as nat)
        }
    } else {
        closing_brace(toks, i + 1, depth)
    }
}

/// A body at `pos`: `{`, tokens in which braces balance, and the matching
/// `}`. Its span runs from `{` to `}`; the position after it comes second.
pub open spec fn body_span_grammar(toks: Seq<Token>, pos: int) -> Option<(Span, int)> {
    if 0 <= pos < toks.len() && toks[pos].kind is LBrace {
        match closing_brace(toks, pos + 1, 0) {
            Some(k) => Some((join(toks[pos].span, toks[k].span), k + 1)),
            None => None,
        }
    } else {
        None
    }
}

/// The span of the first opening delimiter from `i` on that nests deeper than
/// `MAX_SYNTAX_NESTING`, inside `depth` open delimiters; a closing delimiter
/// with none open is ignored.
pub open spec fn too_deep_from(toks: Seq<Token>, i: int, depth: nat) -> Option<Span>
    decreases toks.len() - i,
{
    if !(0 <= i < toks.len()) {
        None
    } else if is_opening(toks[i].kind) {
        if depth + 1 > MAX_SYNTAX_NESTING {
            Some(toks[i].span)
        } else {
            too_deep_from(toks, i + 1, depth + 1)
        }
    } else if is_closing(toks[i].kind) {
        too_deep_from(toks, i + 1, if depth == 0 { 0 } else { (depth - 1) as nat })
    } else {
        too_deep_from(toks, i + 1, depth)
    }
}

/// The number of `(`, `[` and `{` among the first `n` tokens.
pub open spec fn opened_before(toks: Seq<Token>, n: int) -> int
    decreases n,
{
    if n <= 0 || n > toks.len() {
        0
    } else {
        opened_before(toks, n - 1) + match toks[n - 1].kind {
            TokenKind::LParen | TokenKind::LBracket | TokenKind::LBrace => 1int,
            _ => 0int,
        }
    }
}

/// The number of `)`, `]` and `}` among the first `n` tokens.
pub open spec fn closed_before(toks: Seq<Token>, n: int) -> int
    decreases n,
{
    if n <= 0 || n > toks.len() {
        0
    } else {
        closed_before(toks, n - 1) + match toks[n - 1].kind {
            TokenKind::RParen | TokenKind::RBracket | TokenKind::RBrace => 1int,
            _ => 0int,
        }
    }
}

/// How many delimiters are open after the first `n` tokens.
pub open spec fn open_depth(toks: Seq<Token>, n: int) -> int {
    opened_before(toks, n) - closed_before(toks, n)
}

/// No prefix of `toks` closes more delimiters than it opens.
pub open spec fn never_overclosed(toks: Seq<Token>) -> bool {
    forall|n: int| 0 <= n <= toks.len() ==> #[trigger] open_depth(toks, n) >= 0
}

/// The nesting depth never exceeds `MAX_SYNTAX_NESTING`.
pub open spec fn depth_within_limit(toks: Seq<Token>) -> bool {
    forall|n: int| 0 <= n <= toks.len() ==> #[trigger] open_depth(toks, n) <= MAX_SYNTAX_NESTING
}

/// From position `i`, reached at the true depth `open_depth(toks, i)`, the
/// scan finds no delimiter too deep exactly when no later prefix is nested
/// deeper than the limit.
pub proof fn lemma_too_deep_tracks_depth(toks: Seq<Token>, i: int)
    requires
        0 <= i <= toks.len(),
        never_overclosed(toks),
        0 <= open_depth(toks, i) <= MAX_SYNTAX_NESTING,
    ensures
        too_deep_from(toks, i, open_depth(toks, i) as nat) is None <==> forall|n: int|
            i <= n <= toks.len() ==> #[trigger] open_depth(toks, n) <= MAX_SYNTAX_NESTING,
    decreases toks.len() - i,
{
    if i < toks.len() {
        let d = open_depth(toks, i);
        assert(open_depth(toks, i + 1) >= 0);
        if is_opening(toks[i].kind) {
            assert(open_depth(toks, i + 1) == d + 1);
            if d + 1 <= MAX_SYNTAX_NESTING {
                lemma_too_deep_tracks_depth(toks, i + 1);
            }
        } else if is_closing(toks[i].kind) {
            assert(open_depth(toks, i + 1) == d - 1);
            lemma_too_deep_tracks_depth(toks, i + 1);
        } else {
            assert(open_depth(toks, i + 1) == d);
            lemma_too_deep_tracks_depth(toks, i + 1);
        }
    }
}

pub open spec fn nesting_text() -> Seq<char> {
    "delimiter nesting exceeds the compiler limit of 128"@
}

/// The errors of the nesting bound: one, at the first delimiter that nests
/// too deep, if any does.
pub open spec fn nesting_errors(toks: Seq<Token>) -> Seq<(Span, Seq<char>)> {
    match too_deep_from(toks, 0, 0) {
        Some(span) => seq![(span, nesting_text())],
        None => Seq::empty(),
    }
}

/// Captures the body at `pos`: its span and the position after it, or
/// `None` where no `{` stands at `pos` or it is never closed.
pub fn parse_body_span(toks: &[Token], pos: usize) -> (r: Option<(Span, usize)>)
    ensures
        match body_span_grammar(toks@, pos as int) {
            Some((span, end)) => r matches Some((s, e)) && s == span && e == end,
            None => r is None,
        },
{
    if pos >= toks.len() {
        return None;
    }
    match toks[pos].kind {
        TokenKind::LBrace => {},
        _ => {
            return None;
        },
    }
    let mut i: usize = pos + 1;
    let mut depth: usize = 0;
    while i < toks.len()
        invariant
            pos < toks@.len(),
            pos + 1 <= i <= toks@.len(),
            depth <= i - pos - 1,
            toks@[pos as int].kind is LBrace,
            closing_brace(toks@, pos + 1, 0) == closing_brace(toks@, i as int, depth as nat),
        decreases toks@.len() - i,
    {
        match toks[i].kind {
            TokenKind::LBrace => {
                depth = depth + 1;
            },
            TokenKind::RBrace => {
                if depth == 0 {
                    let span = Span { start: toks[pos].span.start, end: toks[i].span.end };
                    return Some((span, i + 1));
                }
                depth = depth - 1;
            },
            _ => {},
        }
        i = i + 1;
    }
    None
}

/// Checks the bound on delimiter nesting: the errors `nesting_errors` says.
pub fn check_delimiter_nesting(toks: &[Token]) -> (r: Vec<ParsedError>)
    ensures
        errors_view(r@) == nesting_errors(toks@),
{
    let mut i: usize = 0;
    let mut depth: usize = 0;
    let mut errors: Vec<ParsedError> = Vec::new();
    while i < toks.len()
        invariant
            i <= toks@.len(),
            depth <= MAX_SYNTAX_NESTING,
            too_deep_from(toks@, 0, 0) == too_deep_from(toks@, i as int, depth as nat),
            errors@.len() == 0,
        decreases toks@.len() - i,
    {
        let opening = match toks[i].kind {
            TokenKind::LParen | TokenKind::LBracket | TokenKind::LBrace => true,
            _ => false,
        };
        let closing = match toks[i].kind {
            TokenKind::RParen | TokenKind::RBracket | TokenKind::RBrace => true,
            _ => false,
        };
        if opening {
            if depth + 1 > MAX_SYNTAX_NESTING {
                errors.push(
                    ParsedError { span: toks[i].span, message: string_of("delimiter nesting exceeds the compiler limit of 128") },
                );
                assert(errors_view(errors@) =~= nesting_errors(toks@));
                return errors;
            }
            depth = depth + 1;
        } else if closing {
            if depth > 0 {
                depth = depth - 1;
            }
        }
        i = i + 1;
    }
    assert(errors_view(errors@) =~= nesting_errors(toks@));
    errors
}

/// Whether `i` falls on a character boundary of the UTF-8 text `src`.
pub open spec fn is_char_boundary(src: Seq<u8>, i: int) -> bool {
    i == src.len() || (0 <= i < src.len() && !(0x80 <= src[i] && src[i] < 0xc0))
}

/// What a function body's span gives to parse: nothing when it holds only
/// its braces, an error when its inside is not a slice of the source, else
/// the byte range inside the braces.
#[derive(Debug)]
pub enum BodyFrame {
    Empty,
    Invalid(ParsedError),
    Contents { start: usize, end: usize },
}

pub open spec fn invalid_body_text() -> Seq<char> {
    "invalid function body span"@
}

/// The frame of the body at `body` in `src`.
pub open spec fn body_frame_matches(src: Seq<u8>, body: Span, r: BodyFrame) -> bool {
    if body.end <= body.start + 2 {
        r is Empty
    } else {
        let start = body.start + 1;
        let end = body.end - 1;
        if end <= src.len() && is_char_boundary(src, start) && is_char_boundary(src, end) {
            r matches BodyFrame::Contents { start: s, end: e } && s == start && e == end
        } else {
            r matches BodyFrame::Invalid(err) && err.span == body && err.message@ == invalid_body_text()
        }
    }
}

fn char_boundary(src: &[u8], i: usize) -> (r: bool)
    ensures
        r == is_char_boundary(src@, i as int),
{
    if i == src.len() {
        true
    } else if i < src.len() {
        !(0x80 <= src[i] && src[i] < 0xc0)
    } else {
        false
    }
}

/// Frames the body at `body` in the UTF-8 source `src` before it is
/// tokenized: a body of at most its two braces is empty, and one whose inside
/// leaves the source or splits a character is an invalid span.
pub fn body_frame(src: &[u8], body: Span) -> (r: BodyFrame)
    ensures
        body_frame_matches(src@, body, r),
{
    if body.end <= body.start || body.end - body.start <= 2 {
        return BodyFrame::Empty;
    }
    let start = body.start + 1;
    let end = body.end - 1;
    if end <= src.len() && char_boundary(src, start) && char_boundary(src, end) {
        BodyFrame::Contents { start, end }
    } else {
        BodyFrame::Invalid(ParsedError { span: body, message: string_of("invalid function body span") })
    }
}

} // verus!
