//! The grammar of source types over lexed tokens: named types with
//! qualifiers and angle-bracket arguments, `mapping(K => V)`, tuples,
//! function types, `comptime<T>` and proxies `@T`.
use vstd::prelude::*;
use crate::diag::Span;
use crate::stmt::ParsedError;
use crate::text::{has_hyphen, push_str, str_eq, string_of};
use crate::token::{errors_view, hyphen_text, join, lemma_errors_view_push, mark_at, Mark, Token, TokenKind};

verus! {

/// A parsed source type with its span.
#[derive(Debug)]
pub struct ParsedTy {
    pub span: Span,
    pub kind: ParsedTyKind,
}

#[derive(Debug)]
pub enum ParsedTyKind {
    Named { qualifiers: Vec<(String, Span)>, name: (String, Span), args: Vec<ParsedTy>, args_span: Option<Span> },
    Comptime { kw: Span, inner: Box<ParsedTy> },
    Tuple { elems: Vec<ParsedTy> },
    Fn { params: Vec<ParsedTy>, params_span: Span, ret: Box<ParsedTy> },
    Proxy { at: Span, inner: Box<ParsedTy> },
}

/// The mathematical value of a `ParsedTy`.
pub struct TyV {
    pub span: Span,
    pub kind: TyKindV,
}

pub enum TyKindV {
    Named { qualifiers: Seq<(Seq<char>, Span)>, name: (Seq<char>, Span), args: Seq<TyV>, args_span: Option<Span> },
    Comptime { kw: Span, inner: Box<TyV> },
    Tuple { elems: Seq<TyV> },
    Fn { params: Seq<TyV>, params_span: Span, ret: Box<TyV> },
    Proxy { at: Span, inner: Box<TyV> },
}

pub open spec fn idents_view(v: Seq<(String, Span)>) -> Seq<(Seq<char>, Span)> {
    Seq::new(v.len(), |i: int| (v[i].0@, v[i].1))
}

pub open spec fn ty_view(t: ParsedTy) -> TyV
    decreases t,
{
    TyV {
        span: t.span,
        kind: match t.kind {
            ParsedTyKind::Named { qualifiers, name, args, args_span } => TyKindV::Named {
                qualifiers: idents_view(qualifiers@),
                name: (name.0@, name.1),
                args: tys_view(args@),
                args_span,
            },
            ParsedTyKind::Comptime { kw, inner } => TyKindV::Comptime { kw, inner: Box::new(ty_view(*inner)) },
            ParsedTyKind::Tuple { elems } => TyKindV::Tuple { elems: tys_view(elems@) },
            ParsedTyKind::Fn { params, params_span, ret } => TyKindV::Fn {
                params: tys_view(params@),
                params_span,
                ret: Box::new(ty_view(*ret)),
            },
            ParsedTyKind::Proxy { at, inner } => TyKindV::Proxy { at, inner: Box::new(ty_view(*inner)) },
        },
    }
}

pub open spec fn tys_view(s: Seq<ParsedTy>) -> Seq<TyV>
    decreases s,
{
    if s.len() == 0 {
        Seq::empty()
    } else {
        tys_view(s.drop_last()).push(ty_view(s.last()))
    }
}

impl View for ParsedTy {
    type V = TyV;

    open spec fn view(&self) -> TyV {
        ty_view(*self)
    }
}

/// Errors as span and message.
pub type Errs = Seq<(Span, Seq<char>)>;

/// A type parse: the type, the errors reported inside it, and the position
/// after it.
pub type TyParse = Option<(TyV, Errs, int)>;

/// A list parse: the elements, their errors, and the position after the list.
pub type ListParse = (Seq<TyV>, Errs, int);

pub open spec fn is_ident(toks: Seq<Token>, i: int) -> bool {
    0 <= i < toks.len() && toks[i].kind is Ident
}

pub open spec fn ident_text(toks: Seq<Token>, i: int) -> Seq<char> {
    match toks[i].kind {
        TokenKind::Ident(n) => n@,
        _ => Seq::empty(),
    }
}

pub open spec fn is_keyword(toks: Seq<Token>, i: int, word: Seq<char>) -> bool {
    is_ident(toks, i) && ident_text(toks, i) == word
}

pub open spec fn ident_errors(toks: Seq<Token>, i: int) -> Errs {
    if ident_text(toks, i).contains('-') {
        seq![(toks[i].span, hyphen_text(ident_text(toks, i)))]
    } else {
        Seq::empty()
    }
}

/// Whether the qualified name whose identifier is at `i` goes on with `. ident`.
pub open spec fn continues_qualified(toks: Seq<Token>, i: int) -> bool {
    i + 2 < toks.len() && toks[i + 1].kind is Dot && is_ident(toks, i + 2)
}

pub open spec fn qualified_end(toks: Seq<Token>, i: int) -> int
    decreases toks.len() - i,
{
    if continues_qualified(toks, i) {
        qualified_end(toks, i + 2)
    } else {
        i + 1
    }
}

pub open spec fn qualified_path(toks: Seq<Token>, i: int) -> Seq<(Seq<char>, Span)>
    decreases toks.len() - i,
{
    let head = seq![(ident_text(toks, i), toks[i].span)];
    if continues_qualified(toks, i) {
        head + qualified_path(toks, i + 2)
    } else {
        head
    }
}

pub open spec fn qualified_errors(toks: Seq<Token>, i: int) -> Errs
    decreases toks.len() - i,
{
    if continues_qualified(toks, i) {
        ident_errors(toks, i) + qualified_errors(toks, i + 2)
    } else {
        ident_errors(toks, i)
    }
}

pub open spec fn mapping_text() -> Seq<char> {
    "the `mapping` type uses `mapping(Key => Value)`"@
}

/// Types separated by commas, with an optional trailing comma, from `p`.
pub open spec fn ty_list(toks: Seq<Token>, p: int) -> ListParse
    decreases toks.len() - p, 3int,
{
    match type_grammar(toks, p) {
        None => (Seq::empty(), Seq::empty(), p),
        Some((t, errs, e)) => if p < e && e < toks.len() && toks[e].kind is Comma {
            let (rest, rest_errs, end) = ty_list(toks, e + 1);
            (seq![t] + rest, errs + rest_errs, end)
        } else {
            (seq![t], errs, e)
        },
    }
}

/// `returns (rets)` at `after`: one return type stands for itself, several
/// for their tuple.
pub open spec fn function_rets(toks: Seq<Token>, after: int) -> TyParse
    decreases toks.len() - after, 1int,
{
    if is_keyword(toks, after, "returns"@) && after + 1 < toks.len() && toks[after + 1].kind is LParen {
        let (rs, rerrs, re) = ty_list(toks, after + 2);
        if 0 <= re < toks.len() && toks[re].kind is RParen {
            let ret = if rs.len() == 1 {
                rs[0]
            } else {
                TyV { span: join(toks[after + 1].span, toks[re].span), kind: TyKindV::Tuple { elems: rs } }
            };
            Some((ret, rerrs, re + 1))
        } else {
            None
        }
    } else {
        None
    }
}

/// `function (params) [returns (rets)]` at `pos`. A single return type stands
/// for itself, several for their tuple; without `returns` the function
/// returns the empty tuple spanning the whole function type.
pub open spec fn function_alt(toks: Seq<Token>, pos: int) -> TyParse
    decreases toks.len() - pos, 1int,
{
    if !(0 <= pos && pos + 1 < toks.len() && toks[pos].kind is Function && toks[pos + 1].kind is LParen) {
        None
    } else {
        let (params, perrs, pe) = ty_list(toks, pos + 2);
        if !(pos < pe && pe < toks.len() && toks[pe].kind is RParen) {
            None
        } else {
            let params_span = join(toks[pos + 1].span, toks[pe].span);
            let after = pe + 1;
            let rets = function_rets(toks, after);
            match rets {
                Some((ret, rerrs, end)) => Some(
                    (
                        TyV {
                            span: join(toks[pos].span, toks[end - 1].span),
                            kind: TyKindV::Fn { params, params_span, ret: Box::new(ret) },
                        },
                        perrs + rerrs,
                        end,
                    ),
                ),
                None => {
                    let span = join(toks[pos].span, toks[pe].span);
                    let unit = TyV { span, kind: TyKindV::Tuple { elems: Seq::empty() } };
                    Some((TyV { span, kind: TyKindV::Fn { params, params_span, ret: Box::new(unit) } }, perrs, after))
                },
            }
        }
    }
}

/// `comptime < T >` at `pos`.
pub open spec fn comptime_alt(toks: Seq<Token>, pos: int) -> TyParse
    decreases toks.len() - pos, 1int,
{
    if !(0 <= pos && pos + 2 < toks.len() && is_keyword(toks, pos, "comptime"@) && toks[pos + 1].kind is Less) {
        None
    } else {
        match type_grammar(toks, pos + 2) {
            Some((inner, errs, e)) => if 0 <= e < toks.len() && toks[e].kind is Greater {
                Some(
                    (
                        TyV {
                            span: join(toks[pos].span, toks[e].span),
                            kind: TyKindV::Comptime { kw: toks[pos].span, inner: Box::new(inner) },
                        },
                        errs,
                        e + 1,
                    ),
                )
            } else {
                None
            },
            None => None,
        }
    }
}

/// `mapping ( K => V )` at `pos`.
pub open spec fn mapping_alt(toks: Seq<Token>, pos: int) -> TyParse
    decreases toks.len() - pos, 1int,
{
    if !(0 <= pos && pos + 2 < toks.len() && is_keyword(toks, pos, "mapping"@) && toks[pos + 1].kind is LParen) {
        None
    } else {
        match type_grammar(toks, pos + 2) {
            Some((key, kerrs, e1)) => if pos < e1 && e1 + 1 < toks.len() && toks[e1].kind is FatArrow {
                match type_grammar(toks, e1 + 1) {
                    Some((value, verrs, e2)) => if 0 <= e2 < toks.len() && toks[e2].kind is RParen {
                        let span = join(toks[pos].span, toks[e2].span);
                        Some(
                            (
                                TyV {
                                    span,
                                    kind: TyKindV::Named {
                                        qualifiers: Seq::empty(),
                                        name: ("mapping"@, toks[pos].span),
                                        args: seq![key, value],
                                        args_span: Some(span),
                                    },
                                },
                                kerrs + verrs,
                                e2 + 1,
                            ),
                        )
                    } else {
                        None
                    },
                    None => None,
                }
            } else {
                None
            },
            None => None,
        }
    }
}

/// `@ T` at `pos`.
pub open spec fn proxy_alt(toks: Seq<Token>, pos: int) -> TyParse
    decreases toks.len() - pos, 1int,
{
    if !(0 <= pos && pos + 1 < toks.len() && toks[pos].kind is At) {
        None
    } else {
        match type_grammar(toks, pos + 1) {
            Some((inner, errs, e)) => Some(
                (
                    TyV {
                        span: join(toks[pos].span, inner.span),
                        kind: TyKindV::Proxy { at: toks[pos].span, inner: Box::new(inner) },
                    },
                    errs,
                    e,
                ),
            ),
            None => None,
        }
    }
}

/// `( T, ... )` at `pos`.
pub open spec fn tuple_alt(toks: Seq<Token>, pos: int) -> TyParse
    decreases toks.len() - pos, 1int,
{
    if !(0 <= pos && pos + 1 <= toks.len() && pos < toks.len() && toks[pos].kind is LParen) {
        None
    } else {
        let (elems, errs, e) = ty_list(toks, pos + 1);
        if 0 <= e < toks.len() && toks[e].kind is RParen {
            Some((TyV { span: join(toks[pos].span, toks[e].span), kind: TyKindV::Tuple { elems } }, errs, e + 1))
        } else {
            None
        }
    }
}

/// `a.b.Name` with optional `< T, ... >` arguments at `pos`; the bare name
/// `mapping` is reported.
pub open spec fn named_alt(toks: Seq<Token>, pos: int) -> TyParse
    decreases toks.len() - pos, 1int,
{
    if !is_ident(toks, pos) {
        None
    } else {
        let q = qualified_end(toks, pos);
        let path = qualified_path(toks, pos);
        let qualifiers = path.drop_last();
        let name = path.last();
        let angle = if pos < q && q + 1 < toks.len() && toks[q].kind is Less {
            let (args, aerrs, ae) = ty_list(toks, q + 1);
            if args.len() >= 1 && 0 <= ae < toks.len() && toks[ae].kind is Greater {
                Some((args, aerrs, ae))
            } else {
                None
            }
        } else {
            None
        };
        let (args, args_span, aerrs, end) = match angle {
            Some((args, aerrs, ae)) => (args, Some(join(toks[q].span, toks[ae].span)), aerrs, ae + 1),
            None => (Seq::empty(), None, Seq::empty(), q),
        };
        let span = join(toks[pos].span, toks[end - 1].span);
        let bare_mapping = if qualifiers.len() == 0 && name.0 == "mapping"@ {
            seq![(span, mapping_text())]
        } else {
            Seq::empty()
        };
        Some(
            (
                TyV { span, kind: TyKindV::Named { qualifiers, name, args, args_span } },
                qualified_errors(toks, pos) + aerrs + bare_mapping,
                end,
            ),
        )
    }
}

/// A type at `pos`: the first alternative that parses, in the order
/// function type, `comptime`, `mapping`, proxy, tuple, named type.
pub open spec fn type_grammar(toks: Seq<Token>, pos: int) -> TyParse
    decreases toks.len() - pos, 2int,
{
    if !(0 <= pos < toks.len()) {
        None
    } else if function_alt(toks, pos) is Some {
        function_alt(toks, pos)
    } else if comptime_alt(toks, pos) is Some {
        comptime_alt(toks, pos)
    } else if mapping_alt(toks, pos) is Some {
        mapping_alt(toks, pos)
    } else if proxy_alt(toks, pos) is Some {
        proxy_alt(toks, pos)
    } else if tuple_alt(toks, pos) is Some {
        tuple_alt(toks, pos)
    } else {
        named_alt(toks, pos)
    }
}

/// A type that parses takes at least one token and ends within the tokens.
pub proof fn lemma_type_grammar_bounds(toks: Seq<Token>, pos: int)
    ensures
        type_grammar(toks, pos) matches Some((_, _, e)) ==> pos < e <= toks.len(),
    decreases toks.len() - pos, 2int,
{
    if 0 <= pos < toks.len() {
        lemma_alt_bounds(toks, pos);
    }
}

proof fn lemma_alt_bounds(toks: Seq<Token>, pos: int)
    requires
        0 <= pos < toks.len(),
    ensures
        function_alt(toks, pos) matches Some((_, _, e)) ==> pos < e <= toks.len(),
        comptime_alt(toks, pos) matches Some((_, _, e)) ==> pos < e <= toks.len(),
        mapping_alt(toks, pos) matches Some((_, _, e)) ==> pos < e <= toks.len(),
        proxy_alt(toks, pos) matches Some((_, _, e)) ==> pos < e <= toks.len(),
        tuple_alt(toks, pos) matches Some((_, _, e)) ==> pos < e <= toks.len(),
        named_alt(toks, pos) matches Some((_, _, e)) ==> pos < e <= toks.len(),
    decreases toks.len() - pos, 1int,
{
    if pos + 1 < toks.len() {
        lemma_ty_list_bounds(toks, pos + 2);
        let pe = ty_list(toks, pos + 2).2;
        let after = pe + 1;
        if pos < pe && pe < toks.len() && after + 1 < toks.len() {
            lemma_ty_list_bounds(toks, after + 2);
        }
        lemma_type_grammar_bounds(toks, pos + 1);
    }
    if pos + 2 < toks.len() {
        lemma_type_grammar_bounds(toks, pos + 2);
        match type_grammar(toks, pos + 2) {
            Some((_, _, e1)) => if pos < e1 && e1 + 1 < toks.len() {
                lemma_type_grammar_bounds(toks, e1 + 1);
            },
            None => {},
        }
    }
    lemma_ty_list_bounds(toks, pos + 1);
    if is_ident(toks, pos) {
        lemma_qualified(toks, pos);
    }
}

pub proof fn lemma_ty_list_bounds(toks: Seq<Token>, p: int)
    requires
        0 <= p <= toks.len(),
    ensures
        p <= ty_list(toks, p).2 <= toks.len(),
    decreases toks.len() - p, 3int,
{
    lemma_type_grammar_bounds(toks, p);
    match type_grammar(toks, p) {
        Some((_, _, e)) => if p < e && e < toks.len() && toks[e].kind is Comma {
            lemma_ty_list_bounds(toks, e + 1);
        },
        None => {},
    }
}

/// An executable type parse agrees with the grammar's.
pub open spec fn parse_matches(r: Option<(ParsedTy, Vec<ParsedError>, usize)>, g: TyParse) -> bool {
    match g {
        None => r is None,
        Some((t, errs, e)) => r matches Some((x, xe, xend)) && x@ == t && errors_view(xe@) == errs && xend == e,
    }
}

pub open spec fn list_matches(r: (Vec<ParsedTy>, Vec<ParsedError>, usize), g: ListParse) -> bool {
    tys_view(r.0@) == g.0 && errors_view(r.1@) == g.1 && r.2 == g.2
}

pub proof fn lemma_tys_view(s: Seq<ParsedTy>)
    ensures
        tys_view(s).len() == s.len(),
        forall|i: int| 0 <= i < s.len() ==> #[trigger] tys_view(s)[i] == ty_view(s[i]),
    decreases s.len(),
{
    if s.len() > 0 {
        lemma_tys_view(s.drop_last());
    }
}

pub proof fn lemma_tys_view_append(a: Seq<ParsedTy>, b: Seq<ParsedTy>)
    ensures
        tys_view(a + b) == tys_view(a) + tys_view(b),
    decreases b.len(),
{
    if b.len() == 0 {
        assert(a + b =~= a);
        assert(tys_view(a) + tys_view(b) =~= tys_view(a));
    } else {
        lemma_tys_view_append(a, b.drop_last());
        assert((a + b).drop_last() =~= a + b.drop_last());
        assert(tys_view(a + b) =~= tys_view(a) + tys_view(b));
    }
}

pub proof fn lemma_errors_view_append(a: Seq<ParsedError>, b: Seq<ParsedError>)
    ensures
        errors_view(a + b) == errors_view(a) + errors_view(b),
{
    assert(errors_view(a + b) =~= errors_view(a) + errors_view(b));
}

proof fn lemma_qualified(toks: Seq<Token>, i: int)
    requires
        is_ident(toks, i),
    ensures
        i < qualified_end(toks, i) <= toks.len(),
        qualified_path(toks, i).len() >= 1,
    decreases toks.len() - i,
{
    if continues_qualified(toks, i) {
        lemma_qualified(toks, i + 2);
    }
}

/// Whether the identifier `word` stands at `i`.
pub fn keyword_at(toks: &[Token], i: usize, word: &str) -> (r: bool)
    ensures
        r == is_keyword(toks@, i as int, word@),
{
    if i >= toks.len() {
        return false;
    }
    match &toks[i].kind {
        TokenKind::Ident(n) => str_eq(n.as_str(), word),
        _ => false,
    }
}

pub fn ident_at(toks: &[Token], i: usize) -> (r: Option<String>)
    ensures
        match r {
            Some(n) => is_ident(toks@, i as int) && n@ == ident_text(toks@, i as int),
            None => !is_ident(toks@, i as int),
        },
{
    if i >= toks.len() {
        return None;
    }
    match &toks[i].kind {
        TokenKind::Ident(n) => Some(n.clone()),
        _ => None,
    }
}

/// Parses the qualified name whose first identifier is at `i`.
fn parse_qualified(toks: &[Token], i: usize) -> (r: (Vec<(String, Span)>, Vec<ParsedError>, usize))
    requires
        is_ident(toks@, i as int),
        toks@.len() < usize::MAX,
    ensures
        idents_view(r.0@) == qualified_path(toks@, i as int),
        errors_view(r.1@) == qualified_errors(toks@, i as int),
        r.2 == qualified_end(toks@, i as int),
    decreases toks@.len() - i,
{
    let name = match ident_at(toks, i) {
        Some(n) => n,
        None => {
            proof {
                assert(false);
            }
            return (Vec::new(), Vec::new(), i);
        },
    };
    let span = toks[i].span;
    let mut errors: Vec<ParsedError> = Vec::new();
    if has_hyphen(name.as_str()) {
        let mut message = string_of("identifier `");
        push_str(&mut message, name.as_str());
        push_str(&mut message, "` cannot contain hyphens");
        errors.push(ParsedError { span, message });
    }
    assert(errors_view(errors@) =~= ident_errors(toks@, i as int));
    let ghost head = seq![(name@, span)];
    let mut out: Vec<(String, Span)> = Vec::new();
    out.push((name, span));
    assert(idents_view(out@) =~= head);
    if i + 2 < toks.len() && mark_at(toks, i + 1, Mark::Dot) {
        if let Some(_) = ident_at(toks, i + 2) {
            let (mut rest, mut rest_errors, end) = parse_qualified(toks, i + 2);
            let ghost rest_v = idents_view(rest@);
            let ghost e1 = errors@;
            let ghost e2 = rest_errors@;
            out.append(&mut rest);
            errors.append(&mut rest_errors);
            proof {
                lemma_errors_view_append(e1, e2);
            }
            assert(idents_view(out@) =~= head + rest_v);
            return (out, errors, end);
        }
    }
    (out, errors, i + 1)
}

/// Parses types separated by commas, with an optional trailing comma, from `p`.
pub fn parse_ty_list(toks: &[Token], p: usize) -> (r: (Vec<ParsedTy>, Vec<ParsedError>, usize))
    requires
        p <= toks@.len() < usize::MAX,
    ensures
        list_matches(r, ty_list(toks@, p as int)),
    decreases toks@.len() - p, 3int,
{
    match parse_type(toks, p) {
        None => {
            assert(tys_view(Seq::<ParsedTy>::empty()) =~= Seq::empty());
            assert(errors_view(Seq::<ParsedError>::empty()) =~= Seq::empty());
            (Vec::new(), Vec::new(), p)
        },
        Some((t, mut errors, e)) => {
            let ghost tv = t@;
            let mut out: Vec<ParsedTy> = Vec::new();
            out.push(t);
            proof {
                lemma_tys_view(out@);
            }
            assert(tys_view(out@) =~= seq![tv]);
            if p < e && e < toks.len() && mark_at(toks, e, Mark::Comma) {
                let (mut rest, mut rest_errors, end) = parse_ty_list(toks, e + 1);
                let ghost o1 = out@;
                let ghost o2 = rest@;
                let ghost e1 = errors@;
                let ghost e2 = rest_errors@;
                out.append(&mut rest);
                errors.append(&mut rest_errors);
                proof {
                    lemma_tys_view_append(o1, o2);
                    lemma_errors_view_append(e1, e2);
                }
                (out, errors, end)
            } else {
                (out, errors, e)
            }
        },
    }
}

fn parse_function(toks: &[Token], pos: usize) -> (r: Option<(ParsedTy, Vec<ParsedError>, usize)>)
    requires
        toks@.len() < usize::MAX,
    ensures
        parse_matches(r, function_alt(toks@, pos as int)),
    decreases toks@.len() - pos, 1int,
{
    if !(pos < toks.len() && pos + 1 < toks.len() && mark_at(toks, pos, Mark::Function) && mark_at(
        toks,
        pos + 1,
        Mark::LParen,
    )) {
        return None;
    }
    let (params, mut errors, pe) = parse_ty_list(toks, pos + 2);
    if !(pos < pe && pe < toks.len() && mark_at(toks, pe, Mark::RParen)) {
        return None;
    }
    let params_span = Span { start: toks[pos + 1].span.start, end: toks[pe].span.end };
    let after = pe + 1;
    if keyword_at(toks, after, "returns") && after + 1 < toks.len() && mark_at(toks, after + 1, Mark::LParen) {
        let (mut rs, mut rerrs, re) = parse_ty_list(toks, after + 2);
        if re < toks.len() && mark_at(toks, re, Mark::RParen) {
            let ghost rs_v = tys_view(rs@);
            proof {
                lemma_tys_view(rs@);
            }
            let ret = if rs.len() == 1 {
                let ghost only = rs@[0];
                let t = rs.pop().unwrap();
                assert(t == only);
                t
            } else {
                ParsedTy {
                    span: Span { start: toks[after + 1].span.start, end: toks[re].span.end },
                    kind: ParsedTyKind::Tuple { elems: rs },
                }
            };
            assert(ret@ == (if rs_v.len() == 1 {
                rs_v[0]
            } else {
                TyV {
                    span: join(toks@[after + 1].span, toks@[re as int].span),
                    kind: TyKindV::Tuple { elems: rs_v },
                }
            }));
            let ghost e1 = errors@;
            let ghost e2 = rerrs@;
            errors.append(&mut rerrs);
            proof {
                lemma_errors_view_append(e1, e2);
            }
            let end = re + 1;
            let span = Span { start: toks[pos].span.start, end: toks[re].span.end };
            return Some(
                (ParsedTy { span, kind: ParsedTyKind::Fn { params, params_span, ret: Box::new(ret) } }, errors, end),
            );
        }
    }
    assert(function_rets(toks@, after as int) is None);
    let span = Span { start: toks[pos].span.start, end: toks[pe].span.end };
    let unit = ParsedTy { span, kind: ParsedTyKind::Tuple { elems: Vec::new() } };
    assert(tys_view(Seq::<ParsedTy>::empty()) =~= Seq::empty());
    assert(unit@ == TyV { span, kind: TyKindV::Tuple { elems: Seq::empty() } });
    Some((ParsedTy { span, kind: ParsedTyKind::Fn { params, params_span, ret: Box::new(unit) } }, errors, after))
}

fn parse_comptime(toks: &[Token], pos: usize) -> (r: Option<(ParsedTy, Vec<ParsedError>, usize)>)
    requires
        toks@.len() < usize::MAX,
    ensures
        parse_matches(r, comptime_alt(toks@, pos as int)),
    decreases toks@.len() - pos, 1int,
{
    if !(pos < toks.len() && pos + 2 < toks.len() && keyword_at(toks, pos, "comptime") && mark_at(
        toks,
        pos + 1,
        Mark::Less,
    )) {
        return None;
    }
    match parse_type(toks, pos + 2) {
        Some((inner, errors, e)) => {
            if e < toks.len() && mark_at(toks, e, Mark::Greater) {
                let span = Span { start: toks[pos].span.start, end: toks[e].span.end };
                Some((ParsedTy { span, kind: ParsedTyKind::Comptime { kw: toks[pos].span, inner: Box::new(inner) } }, errors, e + 1))
            } else {
                None
            }
        },
        None => None,
    }
}

fn parse_mapping(toks: &[Token], pos: usize) -> (r: Option<(ParsedTy, Vec<ParsedError>, usize)>)
    requires
        toks@.len() < usize::MAX,
    ensures
        parse_matches(r, mapping_alt(toks@, pos as int)),
    decreases toks@.len() - pos, 1int,
{
    if !(pos < toks.len() && pos + 2 < toks.len() && keyword_at(toks, pos, "mapping") && mark_at(
        toks,
        pos + 1,
        Mark::LParen,
    )) {
        return None;
    }
    let (key, mut errors, e1) = match parse_type(toks, pos + 2) {
        Some(k) => k,
        None => return None,
    };
    if !(pos < e1 && e1 < toks.len() && e1 + 1 < toks.len() && mark_at(toks, e1, Mark::FatArrow)) {
        return None;
    }
    let (value, mut verrs, e2) = match parse_type(toks, e1 + 1) {
        Some(v) => v,
        None => return None,
    };
    if !(e2 < toks.len() && mark_at(toks, e2, Mark::RParen)) {
        return None;
    }
    let ghost kv = key@;
    let ghost vv = value@;
    let ghost e1v = errors@;
    let ghost e2v = verrs@;
    errors.append(&mut verrs);
    proof {
        lemma_errors_view_append(e1v, e2v);
    }
    let span = Span { start: toks[pos].span.start, end: toks[e2].span.end };
    let mut args: Vec<ParsedTy> = Vec::new();
    args.push(key);
    args.push(value);
    proof {
        lemma_tys_view(args@);
    }
    assert(tys_view(args@) =~= seq![kv, vv]);
    let mut name_text = string_of("mapping");
    proof {
        reveal_strlit("mapping");
    }
    let kind = ParsedTyKind::Named {
        qualifiers: Vec::new(),
        name: (name_text, toks[pos].span),
        args,
        args_span: Some(span),
    };
    assert(idents_view(Seq::<(String, Span)>::empty()) =~= Seq::empty());
    Some((ParsedTy { span, kind }, errors, e2 + 1))
}

fn parse_proxy(toks: &[Token], pos: usize) -> (r: Option<(ParsedTy, Vec<ParsedError>, usize)>)
    requires
        toks@.len() < usize::MAX,
    ensures
        parse_matches(r, proxy_alt(toks@, pos as int)),
    decreases toks@.len() - pos, 1int,
{
    if !(pos < toks.len() && pos + 1 < toks.len() && mark_at(toks, pos, Mark::At)) {
        return None;
    }
    match parse_type(toks, pos + 1) {
        Some((inner, errors, e)) => {
            let span = Span { start: toks[pos].span.start, end: inner.span.end };
            Some((ParsedTy { span, kind: ParsedTyKind::Proxy { at: toks[pos].span, inner: Box::new(inner) } }, errors, e))
        },
        None => None,
    }
}

fn parse_tuple(toks: &[Token], pos: usize) -> (r: Option<(ParsedTy, Vec<ParsedError>, usize)>)
    requires
        toks@.len() < usize::MAX,
    ensures
        parse_matches(r, tuple_alt(toks@, pos as int)),
    decreases toks@.len() - pos, 1int,
{
    if !(pos < toks.len() && mark_at(toks, pos, Mark::LParen)) {
        return None;
    }
    let (elems, errors, e) = parse_ty_list(toks, pos + 1);
    if e < toks.len() && mark_at(toks, e, Mark::RParen) {
        let span = Span { start: toks[pos].span.start, end: toks[e].span.end };
        Some((ParsedTy { span, kind: ParsedTyKind::Tuple { elems } }, errors, e + 1))
    } else {
        None
    }
}

fn parse_named(toks: &[Token], pos: usize) -> (r: Option<(ParsedTy, Vec<ParsedError>, usize)>)
    requires
        toks@.len() < usize::MAX,
    ensures
        parse_matches(r, named_alt(toks@, pos as int)),
    decreases toks@.len() - pos, 1int,
{
    if ident_at(toks, pos).is_none() {
        return None;
    }
    proof {
        lemma_qualified(toks@, pos as int);
    }
    let (path, mut errors, q) = parse_qualified(toks, pos);
    let ghost path_v = idents_view(path@);
    let mut qualifiers = path;
    let name = qualifiers.pop().unwrap();
    assert(idents_view(qualifiers@) =~= path_v.drop_last());
    assert((name.0@, name.1) == path_v.last());
    let mut args: Vec<ParsedTy> = Vec::new();
    let mut args_span: Option<Span> = None;
    let mut end = q;
    assert(tys_view(args@) =~= Seq::empty());
    let ghost before = errors_view(errors@);
    if pos < q && q + 1 < toks.len() && mark_at(toks, q, Mark::Less) {
        let (a, mut aerrs, ae) = parse_ty_list(toks, q + 1);
        proof {
            lemma_tys_view(a@);
        }
        if a.len() >= 1 && ae < toks.len() && mark_at(toks, ae, Mark::Greater) {
            args = a;
            args_span = Some(Span { start: toks[q].span.start, end: toks[ae].span.end });
            let ghost e1 = errors@;
            let ghost e2 = aerrs@;
            errors.append(&mut aerrs);
            proof {
                lemma_errors_view_append(e1, e2);
            }
            end = ae + 1;
        }
    }
    let span = Span { start: toks[pos].span.start, end: toks[end - 1].span.end };
    let ghost with_args = errors_view(errors@);
    proof {
        reveal_strlit("mapping");
    }
    if qualifiers.len() == 0 && str_eq(name.0.as_str(), "mapping") {
        let e = ParsedError { span, message: string_of("the `mapping` type uses `mapping(Key => Value)`") };
        proof {
            lemma_errors_view_push(errors@, e);
        }
        errors.push(e);
    }
    let ty = ParsedTy { span, kind: ParsedTyKind::Named { qualifiers, name, args, args_span } };
    proof {
        let g = named_alt(toks@, pos as int);
        let (gv, gerrs, gend) = g.unwrap();
        assert(ty@ == gv);
        assert(errors_view(errors@) =~= gerrs);
    }
    Some((ty, errors, end))
}

/// Parses a type at `pos`: the type, the errors reported inside it and the
/// position after it; `None` where no type starts at `pos`.
pub fn parse_type(toks: &[Token], pos: usize) -> (r: Option<(ParsedTy, Vec<ParsedError>, usize)>)
    requires
        toks@.len() < usize::MAX,
    ensures
        parse_matches(r, type_grammar(toks@, pos as int)),
    decreases toks@.len() - pos, 2int,
{
    if pos >= toks.len() {
        return None;
    }
    let f = parse_function(toks, pos);
    if f.is_some() {
        return f;
    }
    let c = parse_comptime(toks, pos);
    if c.is_some() {
        return c;
    }
    let m = parse_mapping(toks, pos);
    if m.is_some() {
        return m;
    }
    let p = parse_proxy(toks, pos);
    if p.is_some() {
        return p;
    }
    let t = parse_tuple(toks, pos);
    if t.is_some() {
        return t;
    }
    parse_named(toks, pos)
}

} // verus!
