//! The grammar of class predicates over lexed tokens: `T: Class<A, ...>`,
//! and lists of them, bare or in parentheses, as `where` clauses and
//! instance heads write them.
use vstd::prelude::*;
use crate::diag::Span;
use crate::stmt::ParsedError;
use crate::text::{has_hyphen, push_str, string_of};
use crate::token::{errors_view, join, mark_at, Mark, Token};
use crate::typarse::{
    ident_at, ident_errors, ident_text, is_ident, lemma_errors_view_append, lemma_ty_list_bounds,
    lemma_type_grammar_bounds, lemma_tys_view, parse_ty_list, parse_type, ty_list, type_grammar, Errs, ParsedTy,
    TyV, tys_view,
};

verus! {

/// A parsed predicate `ty: class<args>`.
#[derive(Debug)]
pub struct ParsedPred {
    pub ty: ParsedTy,
    pub class: (String, Span),
    pub args: Vec<ParsedTy>,
    pub args_span: Option<Span>,
}

pub struct PredV {
    pub ty: TyV,
    pub class: (Seq<char>, Span),
    pub args: Seq<TyV>,
    pub args_span: Option<Span>,
}

impl View for ParsedPred {
    type V = PredV;

    open spec fn view(&self) -> PredV {
        PredV { ty: self.ty@, class: (self.class.0@, self.class.1), args: tys_view(self.args@), args_span: self.args_span }
    }
}

pub open spec fn preds_view(s: Seq<ParsedPred>) -> Seq<PredV> {
    Seq::new(s.len(), |i: int| s[i]@)
}

/// A predicate at `p`: a type, `:`, the class name, and optional class
/// arguments `< A, ... >` (at least one, trailing comma allowed).
pub open spec fn pred_grammar(toks: Seq<Token>, p: int) -> Option<(PredV, Errs, int)> {
    match type_grammar(toks, p) {
        None => None,
        Some((t, terrs, e)) => if !(p < e && e < toks.len() && toks[e].kind is Colon && is_ident(toks, e + 1)) {
            None
        } else {
            let c = e + 1;
            let class = (ident_text(toks, c), toks[c].span);
            let q = c + 1;
            let angle = if q < toks.len() && toks[q].kind is Less {
                let (args, aerrs, ae) = ty_list(toks, q + 1);
                if args.len() >= 1 && 0 <= ae < toks.len() && toks[ae].kind is Greater {
                    Some((args, aerrs, join(toks[q].span, toks[ae].span), ae + 1))
                } else {
                    None
                }
            } else {
                None
            };
            match angle {
                Some((args, aerrs, span, end)) => Some(
                    (PredV { ty: t, class, args, args_span: Some(span) }, terrs + ident_errors(toks, c) + aerrs, end),
                ),
                None => Some(
                    (PredV { ty: t, class, args: Seq::empty(), args_span: None }, terrs + ident_errors(toks, c), q),
                ),
            }
        },
    }
}

/// Predicates separated by commas from `p`, with an optional trailing comma.
pub open spec fn pred_seq(toks: Seq<Token>, p: int) -> (Seq<PredV>, Errs, int)
    decreases toks.len() - p,
{
    match pred_grammar(toks, p) {
        None => (Seq::empty(), Seq::empty(), p),
        Some((x, errs, e)) => if p < e && e < toks.len() && toks[e].kind is Comma {
            let (rest, rest_errs, end) = pred_seq(toks, e + 1);
            (seq![x] + rest, errs + rest_errs, end)
        } else {
            (seq![x], errs, e)
        },
    }
}

/// A predicate list at `p`: at least one predicate, in parentheses, or else
/// bare.
pub open spec fn pred_list_grammar(toks: Seq<Token>, p: int) -> Option<(Seq<PredV>, Errs, int)> {
    let (ps, errs, e) = pred_seq(toks, p + 1);
    let (bs, berrs, be) = pred_seq(toks, p);
    if 0 <= p < toks.len() && toks[p].kind is LParen && ps.len() >= 1 && 0 <= e < toks.len() && toks[e].kind is RParen {
        Some((ps, errs, e + 1))
    } else if bs.len() >= 1 {
        Some((bs, berrs, be))
    } else {
        None
    }
}

proof fn lemma_pred_bounds(toks: Seq<Token>, p: int)
    requires
        0 <= p <= toks.len(),
    ensures
        pred_grammar(toks, p) matches Some((_, _, e)) ==> p < e <= toks.len(),
{
    lemma_type_grammar_bounds(toks, p);
    match type_grammar(toks, p) {
        Some((_, _, e)) => if p < e && e < toks.len() && e + 2 < toks.len() {
            lemma_ty_list_bounds(toks, e + 3);
        },
        None => {},
    }
}

proof fn lemma_pred_seq_bounds(toks: Seq<Token>, p: int)
    requires
        0 <= p <= toks.len(),
    ensures
        p <= pred_seq(toks, p).2 <= toks.len(),
    decreases toks.len() - p,
{
    lemma_pred_bounds(toks, p);
    match pred_grammar(toks, p) {
        Some((_, _, e)) => if p < e && e < toks.len() && toks[e].kind is Comma {
            lemma_pred_seq_bounds(toks, e + 1);
        },
        None => {},
    }
}

/// Parses a predicate at `p`.
pub fn parse_pred(toks: &[Token], p: usize) -> (r: Option<(ParsedPred, Vec<ParsedError>, usize)>)
    requires
        toks@.len() < usize::MAX,
    ensures
        match pred_grammar(toks@, p as int) {
            None => r is None,
            Some((x, errs, end)) => r matches Some((v, ve, vend)) && v@ == x && errors_view(ve@) == errs && vend == end,
        },
{
    proof {
        lemma_type_grammar_bounds(toks@, p as int);
    }
    let (ty, mut errors, e) = match parse_type(toks, p) {
        Some(t) => t,
        None => {
            return None;
        },
    };
    if !(p < e && e < toks.len() && mark_at(toks, e, Mark::Colon)) {
        return None;
    }
    let name = match ident_at(toks, e + 1) {
        Some(n) => n,
        None => {
            return None;
        },
    };
    let c = e + 1;
    let ghost e0 = errors@;
    if has_hyphen(name.as_str()) {
        let mut message = string_of("identifier `");
        push_str(&mut message, name.as_str());
        push_str(&mut message, "` cannot contain hyphens");
        errors.push(ParsedError { span: toks[c].span, message });
    }
    assert(errors_view(errors@) =~= errors_view(e0) + ident_errors(toks@, c as int));
    let class = (name, toks[c].span);
    let q = c + 1;
    if q < toks.len() && mark_at(toks, q, Mark::Less) {
        proof {
            lemma_ty_list_bounds(toks@, q + 1);
        }
        let (args, mut aerrs, ae) = parse_ty_list(toks, q + 1);
        proof {
            lemma_tys_view(args@);
        }
        if args.len() >= 1 && ae < toks.len() && mark_at(toks, ae, Mark::Greater) {
            let ghost e1 = errors@;
            let ghost e2 = aerrs@;
            errors.append(&mut aerrs);
            proof {
                lemma_errors_view_append(e1, e2);
            }
            let args_span = Some(Span { start: toks[q].span.start, end: toks[ae].span.end });
            return Some((ParsedPred { ty, class, args, args_span }, errors, ae + 1));
        }
    }
    assert(tys_view(Seq::<ParsedTy>::empty()) =~= Seq::empty());
    Some((ParsedPred { ty, class, args: Vec::new(), args_span: None }, errors, q))
}

/// Parses predicates separated by commas from `p`.
pub fn parse_pred_seq(toks: &[Token], p: usize) -> (r: (Vec<ParsedPred>, Vec<ParsedError>, usize))
    requires
        p <= toks@.len() < usize::MAX,
    ensures
        preds_view(r.0@) == pred_seq(toks@, p as int).0,
        errors_view(r.1@) == pred_seq(toks@, p as int).1,
        r.2 == pred_seq(toks@, p as int).2,
    decreases toks@.len() - p,
{
    proof {
        lemma_pred_bounds(toks@, p as int);
    }
    match parse_pred(toks, p) {
        None => {
            assert(preds_view(Seq::<ParsedPred>::empty()) =~= Seq::empty());
            assert(errors_view(Seq::<ParsedError>::empty()) =~= Seq::empty());
            (Vec::new(), Vec::new(), p)
        },
        Some((x, mut errors, e)) => {
            let ghost xv = x@;
            let mut out: Vec<ParsedPred> = Vec::new();
            out.push(x);
            assert(preds_view(out@) =~= seq![xv]);
            if p < e && e < toks.len() && mark_at(toks, e, Mark::Comma) {
                let (mut rest, mut rest_errors, end) = parse_pred_seq(toks, e + 1);
                let ghost rv = preds_view(rest@);
                let ghost e1 = errors@;
                let ghost e2 = rest_errors@;
                out.append(&mut rest);
                errors.append(&mut rest_errors);
                proof {
                    lemma_errors_view_append(e1, e2);
                }
                assert(preds_view(out@) =~= seq![xv] + rv);
                return (out, errors, end);
            }
            (out, errors, e)
        },
    }
}

/// Parses a predicate list at `p`, as `pred_list_grammar` says.
pub fn parse_pred_list(toks: &[Token], p: usize) -> (r: Option<(Vec<ParsedPred>, Vec<ParsedError>, usize)>)
    requires
        p <= toks@.len() < usize::MAX,
    ensures
        match pred_list_grammar(toks@, p as int) {
            None => r is None,
            Some((xs, errs, end)) => r matches Some((v, ve, vend)) && preds_view(v@) == xs && errors_view(ve@) == errs
                && vend == end,
        },
{
    if p < toks.len() && mark_at(toks, p, Mark::LParen) {
        let (ps, errors, e) = parse_pred_seq(toks, p + 1);
        if ps.len() >= 1 && e < toks.len() && mark_at(toks, e, Mark::RParen) {
            return Some((ps, errors, e + 1));
        }
    }
    let (bs, berrors, be) = parse_pred_seq(toks, p);
    if bs.len() >= 1 {
        Some((bs, berrors, be))
    } else {
        None
    }
}

} // verus!
