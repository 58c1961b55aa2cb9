//! The grammar of enum declarations over lexed tokens:
//! `enum Name<a, ...> { Ctor(T, ...), ... }`, optionally preceded by a
//! `#[derive(...)]` attribute, which the declaration then carries.
use vstd::prelude::*;
use crate::attr::{derive_attr_grammar, parse_derive_attr, DeriveAttr, DeriveAttrView};
use crate::diag::Span;
use crate::stmt::ParsedError;
use crate::text::{has_hyphen, push_str, string_of};
use crate::token::{errors_view, hyphen_text, join, mark_at, Mark, Token};
use crate::typarse::{
    ident_at, ident_errors, ident_text, idents_view, is_ident, is_keyword, keyword_at, lemma_errors_view_append,
    lemma_tys_view, lemma_tys_view_append, lemma_type_grammar_bounds, parse_type, tys_view, type_grammar, Errs,
    ListParse, ParsedTy, TyV,
};

verus! {

/// A constructor of an enum: its span, the `{` or `,` that introduces it, its
/// name and its field types.
#[derive(Debug)]
pub struct EnumCtor {
    pub span: Span,
    pub introducer: Option<Span>,
    pub name: (String, Span),
    pub fields: Vec<ParsedTy>,
}

/// An enum declaration: its span (from the derive attribute, if any), the
/// attribute, its name, type parameters and constructors.
#[derive(Debug)]
pub struct EnumDecl {
    pub span: Span,
    pub derive_attr: Option<DeriveAttr>,
    pub name: (String, Span),
    pub ty_params: Vec<(String, Span)>,
    pub ctors: Vec<EnumCtor>,
}

pub struct EnumCtorV {
    pub span: Span,
    pub introducer: Option<Span>,
    pub name: (Seq<char>, Span),
    pub fields: Seq<TyV>,
}

pub struct EnumDeclV {
    pub span: Span,
    pub derive_attr: Option<DeriveAttrView>,
    pub name: (Seq<char>, Span),
    pub ty_params: Seq<(Seq<char>, Span)>,
    pub ctors: Seq<EnumCtorV>,
}

impl View for EnumCtor {
    type V = EnumCtorV;

    open spec fn view(&self) -> EnumCtorV {
        EnumCtorV {
            span: self.span,
            introducer: self.introducer,
            name: (self.name.0@, self.name.1),
            fields: tys_view(self.fields@),
        }
    }
}

pub open spec fn ctors_view(s: Seq<EnumCtor>) -> Seq<EnumCtorV> {
    Seq::new(s.len(), |i: int| s[i]@)
}

impl View for EnumDecl {
    type V = EnumDeclV;

    open spec fn view(&self) -> EnumDeclV {
        EnumDeclV {
            span: self.span,
            derive_attr: match self.derive_attr {
                Some(a) => Some(a@),
                None => None,
            },
            name: (self.name.0@, self.name.1),
            ty_params: idents_view(self.ty_params@),
            ctors: ctors_view(self.ctors@),
        }
    }
}

/// Types separated by commas, from `p`, with no trailing comma.
pub open spec fn ty_seq(toks: Seq<Token>, p: int) -> ListParse
    decreases toks.len() - p,
{
    match type_grammar(toks, p) {
        None => (Seq::empty(), Seq::empty(), p),
        Some((t, errs, e)) => if p < e && e + 1 < toks.len() && toks[e].kind is Comma && type_grammar(toks, e + 1) is Some {
            let (rest, rest_errs, end) = ty_seq(toks, e + 1);
            (seq![t] + rest, errs + rest_errs, end)
        } else {
            (seq![t], errs, e)
        },
    }
}

/// A constructor `Name` or `Name(T, ...)` at `i`, introduced by `introducer`.
pub open spec fn data_ctor(toks: Seq<Token>, i: int, introducer: Option<Span>) -> Option<(EnumCtorV, Errs, int)> {
    if !is_ident(toks, i) {
        None
    } else {
        let fields = if i + 1 < toks.len() && toks[i + 1].kind is LParen {
            let (fs, ferrs, fe) = ty_seq(toks, i + 2);
            if 0 <= fe < toks.len() && toks[fe].kind is RParen {
                Some((fs, ferrs, fe + 1))
            } else {
                None
            }
        } else {
            None
        };
        let (fs, ferrs, end) = match fields {
            Some(f) => f,
            None => (Seq::empty(), Seq::empty(), i + 1),
        };
        Some(
            (
                EnumCtorV {
                    span: join(toks[i].span, toks[end - 1].span),
                    introducer,
                    name: (ident_text(toks, i), toks[i].span),
                    fields: fs,
                },
                ident_errors(toks, i) + ferrs,
                end,
            ),
        )
    }
}

/// The constructors `, Ctor` that follow one ending at `e`.
pub open spec fn more_ctors(toks: Seq<Token>, e: int) -> (Seq<EnumCtorV>, Errs, int)
    decreases toks.len() - e,
{
    if 0 <= e && e + 1 < toks.len() && toks[e].kind is Comma {
        match data_ctor(toks, e + 1, Some(toks[e].span)) {
            Some((c, cerrs, ce)) => if e < ce {
                let (rest, rest_errs, end) = more_ctors(toks, ce);
                (seq![c] + rest, cerrs + rest_errs, end)
            } else {
                (Seq::empty(), Seq::empty(), e)
            },
            None => (Seq::empty(), Seq::empty(), e),
        }
    } else {
        (Seq::empty(), Seq::empty(), e)
    }
}

/// `{ Ctor, ... }` at `b`, with an optional trailing comma; the first
/// constructor is introduced by the `{`.
pub open spec fn ctor_block(toks: Seq<Token>, b: int) -> Option<(Seq<EnumCtorV>, Errs, int)> {
    if !(0 <= b < toks.len() && toks[b].kind is LBrace) {
        None
    } else {
        let (ctors, errs, ce) = match data_ctor(toks, b + 1, Some(toks[b].span)) {
            Some((first, ferrs, fe)) => {
                let (rest, rest_errs, re) = more_ctors(toks, fe);
                let end = if 0 <= re < toks.len() && toks[re].kind is Comma {
                    re + 1
                } else {
                    re
                };
                (seq![first] + rest, ferrs + rest_errs, end)
            },
            None => (Seq::empty(), Seq::empty(), b + 1),
        };
        if 0 <= ce < toks.len() && toks[ce].kind is RBrace {
            Some((ctors, errs, ce + 1))
        } else {
            None
        }
    }
}

/// Identifiers separated by commas from `p`, with an optional trailing comma.
pub open spec fn ident_list(toks: Seq<Token>, p: int) -> (Seq<(Seq<char>, Span)>, Errs, int)
    decreases toks.len() - p,
{
    if !is_ident(toks, p) {
        (Seq::empty(), Seq::empty(), p)
    } else {
        let head = seq![(ident_text(toks, p), toks[p].span)];
        if p + 1 < toks.len() && toks[p + 1].kind is Comma {
            if is_ident(toks, p + 2) {
                let (rest, rest_errs, end) = ident_list(toks, p + 2);
                (head + rest, ident_errors(toks, p) + rest_errs, end)
            } else {
                (head, ident_errors(toks, p), p + 2)
            }
        } else {
            (head, ident_errors(toks, p), p + 1)
        }
    }
}

/// Optional type parameters `< a, ... >` at `q`: none, with the position
/// unchanged, unless at least one parameter is closed by `>`.
pub open spec fn generic_params(toks: Seq<Token>, q: int) -> (Seq<(Seq<char>, Span)>, Errs, int) {
    if 0 <= q < toks.len() && toks[q].kind is Less && is_ident(toks, q + 1) {
        let (ps, perrs, pe) = ident_list(toks, q + 1);
        if 0 <= pe < toks.len() && toks[pe].kind is Greater {
            (ps, perrs, pe + 1)
        } else {
            (Seq::empty(), Seq::empty(), q)
        }
    } else {
        (Seq::empty(), Seq::empty(), q)
    }
}

/// `enum Name<params> { ctors }` at `pos`: the declaration, its errors
/// (hyphenated names, then those inside field types), and the position after it.
pub open spec fn enum_grammar(toks: Seq<Token>, pos: int) -> Option<(EnumDeclV, Errs, int)> {
    if !(is_keyword(toks, pos, "enum"@) && is_ident(toks, pos + 1)) {
        None
    } else {
        let (params, perrs, g) = generic_params(toks, pos + 2);
        match ctor_block(toks, g) {
            Some((ctors, cerrs, end)) => Some(
                (
                    EnumDeclV {
                        span: join(toks[pos].span, toks[end - 1].span),
                        derive_attr: None,
                        name: (ident_text(toks, pos + 1), toks[pos + 1].span),
                        ty_params: params,
                        ctors,
                    },
                    ident_errors(toks, pos + 1) + perrs + cerrs,
                    end,
                ),
            ),
            None => None,
        }
    }
}

/// An enum declaration at `pos`, after a derive attribute if `#[` stands
/// there: the declaration then carries the attribute, its span starts at the
/// attribute, and the attribute's errors come first.
pub open spec fn derived_enum_grammar(toks: Seq<Token>, pos: int) -> Option<(EnumDeclV, Errs, int)> {
    match derive_attr_grammar(toks, pos) {
        Some((attr, aerrs, e)) => match enum_grammar(toks, e) {
            Some((d, derrs, end)) => Some(
                (
                    EnumDeclV {
                        span: Span { start: attr.span.start, end: d.span.end },
                        derive_attr: Some(attr),
                        ..d
                    },
                    aerrs + derrs,
                    end,
                ),
            ),
            None => None,
        },
        None => enum_grammar(toks, pos),
    }
}

proof fn lemma_ty_seq_bounds(toks: Seq<Token>, p: int)
    requires
        0 <= p <= toks.len(),
    ensures
        p <= ty_seq(toks, p).2 <= toks.len(),
        ty_seq(toks, p).0.len() > 0 <==> type_grammar(toks, p) is Some,
    decreases toks.len() - p,
{
    lemma_type_grammar_bounds(toks, p);
    match type_grammar(toks, p) {
        Some((_, _, e)) => if p < e && e + 1 < toks.len() && toks[e].kind is Comma && type_grammar(toks, e + 1) is Some {
            lemma_ty_seq_bounds(toks, e + 1);
        },
        None => {},
    }
}

proof fn lemma_ident_list_bounds(toks: Seq<Token>, p: int)
    requires
        0 <= p <= toks.len(),
    ensures
        p <= ident_list(toks, p).2 <= toks.len(),
    decreases toks.len() - p,
{
    if is_ident(toks, p) && p + 1 < toks.len() && toks[p + 1].kind is Comma && is_ident(toks, p + 2) {
        lemma_ident_list_bounds(toks, p + 2);
    }
}

/// The hyphen error of the identifier `name` at `i`, if it has one.
fn ident_hyphen_errors(toks: &[Token], i: usize, name: &String) -> (r: Vec<ParsedError>)
    requires
        is_ident(toks@, i as int),
        name@ == ident_text(toks@, i as int),
    ensures
        errors_view(r@) == ident_errors(toks@, i as int),
{
    let mut errors: Vec<ParsedError> = Vec::new();
    if has_hyphen(name.as_str()) {
        let mut message = string_of("identifier `");
        push_str(&mut message, name.as_str());
        push_str(&mut message, "` cannot contain hyphens");
        errors.push(ParsedError { span: toks[i].span, message });
    }
    assert(errors_view(errors@) =~= ident_errors(toks@, i as int));
    errors
}

fn parse_ty_seq(toks: &[Token], p: usize) -> (r: (Vec<ParsedTy>, Vec<ParsedError>, usize))
    requires
        p <= toks@.len() < usize::MAX,
    ensures
        tys_view(r.0@) == ty_seq(toks@, p as int).0,
        errors_view(r.1@) == ty_seq(toks@, p as int).1,
        r.2 == ty_seq(toks@, p as int).2,
    decreases toks@.len() - p,
{
    proof {
        lemma_type_grammar_bounds(toks@, p as int);
    }
    match parse_type(toks, p) {
        None => {
            assert(tys_view(Seq::<ParsedTy>::empty()) =~= Seq::empty());
            assert(errors_view(Seq::<ParsedError>::empty()) =~= Seq::empty());
            (Vec::new(), Vec::new(), p)
        },
        Some((t, mut errors, e)) => {
            let ghost tv = t@;
            let mut out: Vec<ParsedTy> = Vec::new();
            out.push(t);
            proof {
                lemma_tys_view(out@);
            }
            assert(tys_view(out@) =~= seq![tv]);
            if p < e && e + 1 < toks.len() && mark_at(toks, e, Mark::Comma) {
                proof {
                    lemma_ty_seq_bounds(toks@, e + 1);
                }
                let (mut rest, mut rest_errors, end) = parse_ty_seq(toks, e + 1);
                if rest.len() > 0 {
                    let ghost o1 = out@;
                    let ghost o2 = rest@;
                    let ghost e1 = errors@;
                    let ghost e2 = rest_errors@;
                    proof {
                        lemma_tys_view(o2);
                    }
                    out.append(&mut rest);
                    errors.append(&mut rest_errors);
                    proof {
                        lemma_tys_view_append(o1, o2);
                        lemma_errors_view_append(e1, e2);
                    }
                    return (out, errors, end);
                }
                proof {
                    lemma_tys_view(rest@);
                }
            }
            (out, errors, e)
        },
    }
}

/// Parses the constructor at `i`, introduced by `introducer`.
fn parse_data_ctor(toks: &[Token], i: usize, introducer: Option<Span>) -> (r: Option<(EnumCtor, Vec<ParsedError>, usize)>)
    requires
        toks@.len() < usize::MAX,
    ensures
        match data_ctor(toks@, i as int, introducer) {
            None => r is None,
            Some((c, errs, end)) => r matches Some((x, xe, xend)) && x@ == c && errors_view(xe@) == errs && xend == end,
        },
        r matches Some((_, _, end)) ==> i < end <= toks@.len(),
{
    let name = match ident_at(toks, i) {
        Some(n) => n,
        None => {
            return None;
        },
    };
    let mut errors = ident_hyphen_errors(toks, i, &name);
    let mut fields: Vec<ParsedTy> = Vec::new();
    let mut end = i + 1;
    let ghost e0 = errors@;
    assert(tys_view(fields@) =~= Seq::empty());
    if i + 1 < toks.len() && mark_at(toks, i + 1, Mark::LParen) {
        proof {
            lemma_ty_seq_bounds(toks@, i + 2);
        }
        let (fs, mut ferrs, fe) = parse_ty_seq(toks, i + 2);
        if fe < toks.len() && mark_at(toks, fe, Mark::RParen) {
            fields = fs;
            let ghost e2 = ferrs@;
            errors.append(&mut ferrs);
            proof {
                lemma_errors_view_append(e0, e2);
            }
            end = fe + 1;
        }
    }
    if end == i + 1 {
        assert(errors_view(errors@) =~= errors_view(e0) + Seq::<(Span, Seq<char>)>::empty());
    }
    let span = Span { start: toks[i].span.start, end: toks[end - 1].span.end };
    let ctor = EnumCtor { span, introducer, name: (name, toks[i].span), fields };
    Some((ctor, errors, end))
}

fn parse_more_ctors(toks: &[Token], e: usize) -> (r: (Vec<EnumCtor>, Vec<ParsedError>, usize))
    requires
        e <= toks@.len() < usize::MAX,
    ensures
        ctors_view(r.0@) == more_ctors(toks@, e as int).0,
        errors_view(r.1@) == more_ctors(toks@, e as int).1,
        r.2 == more_ctors(toks@, e as int).2,
        e <= r.2 <= toks@.len(),
    decreases toks@.len() - e,
{
    if e + 1 < toks.len() && mark_at(toks, e, Mark::Comma) {
        if let Some((c, mut errors, ce)) = parse_data_ctor(toks, e + 1, Some(toks[e].span)) {
            let (mut rest, mut rest_errors, end) = parse_more_ctors(toks, ce);
            let ghost cv = c@;
            let ghost rv = ctors_view(rest@);
            let ghost e1 = errors@;
            let ghost e2 = rest_errors@;
            let mut out: Vec<EnumCtor> = Vec::new();
            out.push(c);
            out.append(&mut rest);
            errors.append(&mut rest_errors);
            proof {
                lemma_errors_view_append(e1, e2);
            }
            assert(ctors_view(out@) =~= seq![cv] + rv);
            return (out, errors, end);
        }
    }
    assert(ctors_view(Seq::<EnumCtor>::empty()) =~= Seq::empty());
    assert(errors_view(Seq::<ParsedError>::empty()) =~= Seq::empty());
    (Vec::new(), Vec::new(), e)
}

fn parse_ctor_block(toks: &[Token], b: usize) -> (r: Option<(Vec<EnumCtor>, Vec<ParsedError>, usize)>)
    requires
        toks@.len() < usize::MAX,
    ensures
        match ctor_block(toks@, b as int) {
            None => r is None,
            Some((cs, errs, end)) => r matches Some((x, xe, xend)) && ctors_view(x@) == cs && errors_view(xe@) == errs
                && xend == end,
        },
{
    if !(b < toks.len()) {
        return None;
    }
    let opens = match toks[b].kind {
        crate::token::TokenKind::LBrace => true,
        _ => false,
    };
    if !opens {
        return None;
    }
    let (ctors, errors, ce) = match parse_data_ctor(toks, b + 1, Some(toks[b].span)) {
        Some((first, mut errors, fe)) => {
            let (mut rest, mut rest_errors, re) = parse_more_ctors(toks, fe);
            let ghost fv = first@;
            let ghost rv = ctors_view(rest@);
            let ghost e1 = errors@;
            let ghost e2 = rest_errors@;
            let mut out: Vec<EnumCtor> = Vec::new();
            out.push(first);
            out.append(&mut rest);
            errors.append(&mut rest_errors);
            proof {
                lemma_errors_view_append(e1, e2);
            }
            assert(ctors_view(out@) =~= seq![fv] + rv);
            let end = if re < toks.len() && mark_at(toks, re, Mark::Comma) {
                re + 1
            } else {
                re
            };
            (out, errors, end)
        },
        None => {
            assert(ctors_view(Seq::<EnumCtor>::empty()) =~= Seq::empty());
            assert(errors_view(Seq::<ParsedError>::empty()) =~= Seq::empty());
            (Vec::new(), Vec::new(), b + 1)
        },
    };
    let closes = ce < toks.len() && match toks[ce].kind {
        crate::token::TokenKind::RBrace => true,
        _ => false,
    };
    if closes {
        Some((ctors, errors, ce + 1))
    } else {
        None
    }
}

fn parse_ident_list(toks: &[Token], p: usize) -> (r: (Vec<(String, Span)>, Vec<ParsedError>, usize))
    requires
        p <= toks@.len() < usize::MAX,
    ensures
        idents_view(r.0@) == ident_list(toks@, p as int).0,
        errors_view(r.1@) == ident_list(toks@, p as int).1,
        r.2 == ident_list(toks@, p as int).2,
    decreases toks@.len() - p,
{
    let name = match ident_at(toks, p) {
        Some(n) => n,
        None => {
            assert(idents_view(Seq::<(String, Span)>::empty()) =~= Seq::empty());
            assert(errors_view(Seq::<ParsedError>::empty()) =~= Seq::empty());
            return (Vec::new(), Vec::new(), p);
        },
    };
    let mut errors = ident_hyphen_errors(toks, p, &name);
    let ghost head = seq![(name@, toks@[p as int].span)];
    let mut out: Vec<(String, Span)> = Vec::new();
    out.push((name, toks[p].span));
    assert(idents_view(out@) =~= head);
    if p + 1 < toks.len() && mark_at(toks, p + 1, Mark::Comma) {
        if ident_at(toks, p + 2).is_some() {
            let (mut rest, mut rest_errors, end) = parse_ident_list(toks, p + 2);
            let ghost rv = idents_view(rest@);
            let ghost e1 = errors@;
            let ghost e2 = rest_errors@;
            out.append(&mut rest);
            errors.append(&mut rest_errors);
            proof {
                lemma_errors_view_append(e1, e2);
            }
            assert(idents_view(out@) =~= head + rv);
            return (out, errors, end);
        }
        return (out, errors, p + 2);
    }
    (out, errors, p + 1)
}

fn parse_generic_params(toks: &[Token], q: usize) -> (r: (Vec<(String, Span)>, Vec<ParsedError>, usize))
    requires
        q <= toks@.len() < usize::MAX,
    ensures
        idents_view(r.0@) == generic_params(toks@, q as int).0,
        errors_view(r.1@) == generic_params(toks@, q as int).1,
        r.2 == generic_params(toks@, q as int).2,
{
    assert(idents_view(Seq::<(String, Span)>::empty()) =~= Seq::empty());
    assert(errors_view(Seq::<ParsedError>::empty()) =~= Seq::empty());
    if q < toks.len() && mark_at(toks, q, Mark::Less) && ident_at(toks, q + 1).is_some() {
        proof {
            lemma_ident_list_bounds(toks@, q + 1);
        }
        let (ps, perrs, pe) = parse_ident_list(toks, q + 1);
        if pe < toks.len() && mark_at(toks, pe, Mark::Greater) {
            return (ps, perrs, pe + 1);
        }
    }
    (Vec::new(), Vec::new(), q)
}

/// Parses an enum declaration at `pos`: the declaration, its errors and the
/// position after it; `None` where none stands at `pos`.
pub fn parse_enum(toks: &[Token], pos: usize) -> (r: Option<(EnumDecl, Vec<ParsedError>, usize)>)
    requires
        toks@.len() < usize::MAX,
    ensures
        match enum_grammar(toks@, pos as int) {
            None => r is None,
            Some((d, errs, end)) => r matches Some((x, xe, xend)) && x@ == d && errors_view(xe@) == errs && xend == end,
        },
{
    if !(pos < toks.len() && keyword_at(toks, pos, "enum")) {
        return None;
    }
    let name = match ident_at(toks, pos + 1) {
        Some(n) => n,
        None => {
            return None;
        },
    };
    let mut errors = ident_hyphen_errors(toks, pos + 1, &name);
    let (params, mut perrs, g) = parse_generic_params(toks, pos + 2);
    let (ctors, mut cerrs, end) = match parse_ctor_block(toks, g) {
        Some(c) => c,
        None => {
            return None;
        },
    };
    let ghost e1 = errors@;
    let ghost e2 = perrs@;
    let ghost e3 = cerrs@;
    errors.append(&mut perrs);
    errors.append(&mut cerrs);
    proof {
        lemma_errors_view_append(e1, e2);
        lemma_errors_view_append(e1 + e2, e3);
    }
    let span = Span { start: toks[pos].span.start, end: toks[end - 1].span.end };
    let decl = EnumDecl { span, derive_attr: None, name: (name, toks[pos + 1].span), ty_params: params, ctors };
    Some((decl, errors, end))
}

/// Parses an enum declaration at `pos`, after a derive attribute if `#[`
/// stands there, as `derived_enum_grammar` says.
pub fn parse_derived_enum(toks: &[Token], pos: usize) -> (r: Option<(EnumDecl, Vec<ParsedError>, usize)>)
    requires
        toks@.len() < usize::MAX,
    ensures
        match derived_enum_grammar(toks@, pos as int) {
            None => r is None,
            Some((d, errs, end)) => r matches Some((x, xe, xend)) && x@ == d && errors_view(xe@) == errs && xend == end,
        },
{
    let (attr, mut errors) = parse_derive_attr(toks, pos);
    match attr {
        Some((a, e)) => match parse_enum(toks, e) {
            Some((mut decl, mut derrs, end)) => {
                let ghost e1 = errors@;
                let ghost e2 = derrs@;
                errors.append(&mut derrs);
                proof {
                    lemma_errors_view_append(e1, e2);
                }
                decl.span = Span { start: a.span.start, end: decl.span.end };
                decl.derive_attr = Some(a);
                Some((decl, errors, end))
            },
            None => None,
        },
        None => parse_enum(toks, pos),
    }
}

} // verus!
