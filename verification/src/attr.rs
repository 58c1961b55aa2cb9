//! The grammar of `#[derive(Trait, ...)]` attributes over lexed tokens,
//! with the recovery of malformed and unclosed attributes.
use vstd::prelude::*;
use crate::diag::Span;
use crate::stmt::ParsedError;
use crate::token::{errors_view, hyphen_text, join, lemma_errors_view_push, mark_at, Mark, Token, TokenKind};
use crate::text::{has_hyphen, push_str, str_eq, string_of};

verus! {

/// One derived trait path, such as `std.Eq`: its span and its segments.
#[derive(Debug)]
pub struct DeriveTarget {
    pub span: Span,
    pub path: Vec<(String, Span)>,
}

/// A derive attribute: its span and the trait paths it names.
#[derive(Debug)]
pub struct DeriveAttr {
    pub span: Span,
    pub targets: Vec<DeriveTarget>,
}

pub struct DeriveTargetView {
    pub span: Span,
    pub path: Seq<(Seq<char>, Span)>,
}

pub struct DeriveAttrView {
    pub span: Span,
    pub targets: Seq<DeriveTargetView>,
}

pub open spec fn segments_view(v: Seq<(String, Span)>) -> Seq<(Seq<char>, Span)> {
    Seq::new(v.len(), |i: int| (v[i].0@, v[i].1))
}

impl View for DeriveTarget {
    type V = DeriveTargetView;

    open spec fn view(&self) -> DeriveTargetView {
        DeriveTargetView { span: self.span, path: segments_view(self.path@) }
    }
}

pub open spec fn targets_view(v: Seq<DeriveTarget>) -> Seq<DeriveTargetView> {
    Seq::new(v.len(), |i: int| v[i]@)
}

impl View for DeriveAttr {
    type V = DeriveAttrView;

    open spec fn view(&self) -> DeriveAttrView {
        DeriveAttrView { span: self.span, targets: targets_view(self.targets@) }
    }
}

/// The name that a token gives a path segment, and whether it is a reserved
/// keyword; `None` for a token that cannot name one.
pub open spec fn segment_word(k: TokenKind) -> Option<(Seq<char>, bool)> {
    match k {
        TokenKind::Ident(n) => Some((n@, false)),
        TokenKind::Import => Some(("import"@, true)),
        TokenKind::Export => Some(("export"@, true)),
        TokenKind::Pragma => Some(("pragma"@, true)),
        TokenKind::Type => Some(("type"@, true)),
        TokenKind::Data => Some(("data"@, true)),
        TokenKind::Class => Some(("class"@, true)),
        TokenKind::Instance => Some(("instance"@, true)),
        TokenKind::Contract => Some(("contract"@, true)),
        TokenKind::Public => Some(("public"@, true)),
        TokenKind::Payable => Some(("payable"@, true)),
        TokenKind::Function => Some(("function"@, true)),
        TokenKind::Constructor => Some(("constructor"@, true)),
        TokenKind::Fallback => Some(("fallback"@, true)),
        TokenKind::Forall => Some(("forall"@, true)),
        TokenKind::Default => Some(("default"@, true)),
        _ => None,
    }
}

pub open spec fn is_word(toks: Seq<Token>, i: int) -> bool {
    0 <= i < toks.len() && segment_word(toks[i].kind) is Some
}

/// Whether a top-level declaration starts at `i`.
pub open spec fn is_item_start(toks: Seq<Token>, i: int) -> bool {
    0 <= i < toks.len() && match toks[i].kind {
        TokenKind::Hash | TokenKind::Import | TokenKind::Export | TokenKind::Pragma | TokenKind::Type
        | TokenKind::Contract | TokenKind::Function | TokenKind::Default => true,
        TokenKind::Ident(n) => n@ == "enum"@ || n@ == "trait"@ || n@ == "impl"@,
        _ => false,
    }
}

/// Whether the declaration that follows an attribute starts at `i`: a `}`
/// closing the enclosing contract, a top-level declaration, or a contract
/// field `name :`.
pub open spec fn is_boundary(toks: Seq<Token>, i: int) -> bool {
    0 <= i < toks.len() && (toks[i].kind is RBrace || is_item_start(toks, i) || (toks[i].kind is Ident && i + 1
        < toks.len() && toks[i + 1].kind is Colon))
}

/// Whether the path whose segment is at `i` goes on with `. segment`.
pub open spec fn continues_path(toks: Seq<Token>, i: int) -> bool {
    i + 2 < toks.len() && toks[i + 1].kind is Dot && is_word(toks, i + 2)
}

/// The end (exclusive) of the dotted path whose segment is at `i`.
pub open spec fn path_end(toks: Seq<Token>, i: int) -> int
    decreases toks.len() - i,
{
    if continues_path(toks, i) {
        path_end(toks, i + 2)
    } else {
        i + 1
    }
}

pub open spec fn path_segments(toks: Seq<Token>, i: int) -> Seq<(Seq<char>, Span)>
    decreases toks.len() - i,
{
    let head = seq![(segment_word(toks[i].kind).unwrap().0, toks[i].span)];
    if continues_path(toks, i) {
        head + path_segments(toks, i + 2)
    } else {
        head
    }
}

pub open spec fn reserved_text(name: Seq<char>) -> Seq<char> {
    "reserved keyword `"@ + name + "` cannot name a derived trait"@
}

/// The errors of one path segment: a reserved keyword, then a hyphen.
pub open spec fn segment_errors(t: Token) -> Seq<(Span, Seq<char>)> {
    let (name, reserved) = segment_word(t.kind).unwrap();
    (if reserved {
        seq![(t.span, reserved_text(name))]
    } else {
        Seq::empty()
    }) + (if name.contains('-') {
        seq![(t.span, hyphen_text(name))]
    } else {
        Seq::empty()
    })
}

pub open spec fn path_errors(toks: Seq<Token>, i: int) -> Seq<(Span, Seq<char>)>
    decreases toks.len() - i,
{
    if continues_path(toks, i) {
        segment_errors(toks[i]) + path_errors(toks, i + 2)
    } else {
        segment_errors(toks[i])
    }
}

/// The derive target whose first segment is at `i`.
pub open spec fn target_at(toks: Seq<Token>, i: int) -> DeriveTargetView {
    DeriveTargetView { span: join(toks[i].span, toks[path_end(toks, i) - 1].span), path: path_segments(toks, i) }
}

/// Whether another `, target` follows a target that ends at `e`.
pub open spec fn more_targets(toks: Seq<Token>, i: int) -> bool {
    let e = path_end(toks, i);
    i < e && e + 1 < toks.len() && toks[e].kind is Comma && is_word(toks, e + 1)
}

pub open spec fn target_list(toks: Seq<Token>, i: int) -> Seq<DeriveTargetView>
    decreases toks.len() - i,
{
    if more_targets(toks, i) {
        seq![target_at(toks, i)] + target_list(toks, path_end(toks, i) + 1)
    } else {
        seq![target_at(toks, i)]
    }
}

pub open spec fn target_list_errors(toks: Seq<Token>, i: int) -> Seq<(Span, Seq<char>)>
    decreases toks.len() - i,
{
    if more_targets(toks, i) {
        path_errors(toks, i) + target_list_errors(toks, path_end(toks, i) + 1)
    } else {
        path_errors(toks, i)
    }
}

pub open spec fn target_list_end(toks: Seq<Token>, i: int) -> int
    decreases toks.len() - i,
{
    if more_targets(toks, i) {
        target_list_end(toks, path_end(toks, i) + 1)
    } else {
        path_end(toks, i)
    }
}

/// The targets between `(` and `)`, from `p`: none, or a comma-separated list.
pub open spec fn list_targets(toks: Seq<Token>, p: int) -> Seq<DeriveTargetView> {
    if is_word(toks, p) {
        target_list(toks, p)
    } else {
        Seq::empty()
    }
}

pub open spec fn list_errors(toks: Seq<Token>, p: int) -> Seq<(Span, Seq<char>)> {
    if is_word(toks, p) {
        target_list_errors(toks, p)
    } else {
        Seq::empty()
    }
}

pub open spec fn list_end(toks: Seq<Token>, p: int) -> int {
    if is_word(toks, p) {
        target_list_end(toks, p)
    } else {
        p
    }
}

pub open spec fn is_derive_kw(toks: Seq<Token>, i: int) -> bool {
    &&& 0 <= i < toks.len()
    &&& toks[i].kind matches TokenKind::Ident(n) && n@ == "derive"@
}

/// Whether `#[` at `pos` opens a well-formed `#[derive(...)]`.
pub open spec fn valid_derive(toks: Seq<Token>, pos: int) -> bool {
    let q = list_end(toks, pos + 4);
    &&& is_derive_kw(toks, pos + 2)
    &&& pos + 3 < toks.len()
    &&& toks[pos + 3].kind is LParen
    &&& 0 <= q && q + 1 < toks.len()
    &&& toks[q].kind is RParen
    &&& toks[q + 1].kind is RBracket
}

/// The first index from `i` on that holds `]` or starts the following
/// declaration; the length of `toks` if there is none.
pub open spec fn scan_stop(toks: Seq<Token>, i: int) -> int
    decreases toks.len() - i,
{
    if !(0 <= i < toks.len()) {
        toks.len() as int
    } else if toks[i].kind is RBracket || is_boundary(toks, i) {
        i
    } else {
        scan_stop(toks, i + 1)
    }
}

pub open spec fn empty_derive_text() -> Seq<char> {
    "derive attribute requires at least one trait path"@
}

pub open spec fn malformed_derive_text() -> Seq<char> {
    "malformed derive attribute; expected `#[derive(Trait, ...)]`"@
}

pub open spec fn unclosed_derive_text() -> Seq<char> {
    "unclosed derive attribute; expected `]`"@
}

/// A derive attribute at `pos`: the attribute, its errors and the position
/// after it; `None` unless `#[` stands at `pos`. A well-formed
/// `#[derive(...)]` yields its targets (and an error if it names none); else
/// an attribute closed by `]` before the next declaration is malformed, and
/// one that reaches the next declaration or the end is unclosed; both yield
/// no target.
pub open spec fn derive_attr_grammar(toks: Seq<Token>, pos: int) -> Option<
    (DeriveAttrView, Seq<(Span, Seq<char>)>, int),
> {
    if !(0 <= pos && pos + 1 < toks.len() && toks[pos].kind is Hash && toks[pos + 1].kind is LBracket) {
        None
    } else if valid_derive(toks, pos) {
        let q = list_end(toks, pos + 4);
        let span = join(toks[pos].span, toks[q + 1].span);
        let targets = list_targets(toks, pos + 4);
        let empty = if targets.len() == 0 {
            seq![(span, empty_derive_text())]
        } else {
            Seq::empty()
        };
        Some((DeriveAttrView { span, targets }, list_errors(toks, pos + 4) + empty, q + 2))
    } else {
        let s = scan_stop(toks, pos + 2);
        if s < toks.len() && toks[s].kind is RBracket {
            let span = join(toks[pos].span, toks[s].span);
            Some((DeriveAttrView { span, targets: Seq::empty() }, seq![(span, malformed_derive_text())], s + 1))
        } else {
            let span = join(toks[pos].span, toks[s - 1].span);
            Some((DeriveAttrView { span, targets: Seq::empty() }, seq![(span, unclosed_derive_text())], s))
        }
    }
}

proof fn lemma_path_end(toks: Seq<Token>, i: int)
    requires
        is_word(toks, i),
    ensures
        i < path_end(toks, i) <= toks.len(),
        is_word(toks, path_end(toks, i) - 1),
    decreases toks.len() - i,
{
    if continues_path(toks, i) {
        lemma_path_end(toks, i + 2);
    }
}

pub proof fn lemma_target_list_end(toks: Seq<Token>, i: int)
    requires
        is_word(toks, i),
    ensures
        i < target_list_end(toks, i) <= toks.len(),
    decreases toks.len() - i,
{
    lemma_path_end(toks, i);
    if more_targets(toks, i) {
        lemma_target_list_end(toks, path_end(toks, i) + 1);
    }
}

pub proof fn lemma_scan_stop(toks: Seq<Token>, i: int)
    requires
        0 <= i <= toks.len(),
    ensures
        i <= scan_stop(toks, i) <= toks.len(),
        forall|k: int| i <= k < scan_stop(toks, i) ==> !is_boundary(toks, k) && !(toks[k].kind is RBracket),
        scan_stop(toks, i) < toks.len() ==> toks[scan_stop(toks, i)].kind is RBracket || is_boundary(
            toks,
            scan_stop(toks, i),
        ),
    decreases toks.len() - i,
{
    if i < toks.len() && !(toks[i].kind is RBracket || is_boundary(toks, i)) {
        lemma_scan_stop(toks, i + 1);
    }
}

/// The name and reservedness of the segment word at `i`, if one stands there.
fn word_at(toks: &[Token], i: usize) -> (r: Option<(String, bool)>)
    ensures
        match r {
            Some((n, b)) => is_word(toks@, i as int) && segment_word(toks@[i as int].kind) == Some((n@, b)),
            None => !is_word(toks@, i as int),
        },
{
    if i >= toks.len() {
        return None;
    }
    match &toks[i].kind {
        TokenKind::Ident(n) => Some((n.clone(), false)),
        TokenKind::Import => Some((string_of("import"), true)),
        TokenKind::Export => Some((string_of("export"), true)),
        TokenKind::Pragma => Some((string_of("pragma"), true)),
        TokenKind::Type => Some((string_of("type"), true)),
        TokenKind::Data => Some((string_of("data"), true)),
        TokenKind::Class => Some((string_of("class"), true)),
        TokenKind::Instance => Some((string_of("instance"), true)),
        TokenKind::Contract => Some((string_of("contract"), true)),
        TokenKind::Public => Some((string_of("public"), true)),
        TokenKind::Payable => Some((string_of("payable"), true)),
        TokenKind::Function => Some((string_of("function"), true)),
        TokenKind::Constructor => Some((string_of("constructor"), true)),
        TokenKind::Fallback => Some((string_of("fallback"), true)),
        TokenKind::Forall => Some((string_of("forall"), true)),
        TokenKind::Default => Some((string_of("default"), true)),
        _ => None,
    }
}

/// Whether a top-level declaration starts at `i`.
fn at_item_start(toks: &[Token], i: usize) -> (r: bool)
    ensures
        r == is_item_start(toks@, i as int),
{
    if i >= toks.len() {
        return false;
    }
    match &toks[i].kind {
        TokenKind::Hash | TokenKind::Import | TokenKind::Export | TokenKind::Pragma | TokenKind::Type
        | TokenKind::Contract | TokenKind::Function | TokenKind::Default => true,
        TokenKind::Ident(n) => {
            proof {
                reveal_strlit("enum");
                reveal_strlit("trait");
                reveal_strlit("impl");
            }
            str_eq(n.as_str(), "enum") || str_eq(n.as_str(), "trait") || str_eq(n.as_str(), "impl")
        },
        _ => false,
    }
}

/// Whether the declaration that follows an attribute starts at `i`.
fn at_boundary(toks: &[Token], i: usize) -> (r: bool)
    requires
        toks@.len() < usize::MAX,
    ensures
        r == is_boundary(toks@, i as int),
{
    if i >= toks.len() {
        return false;
    }
    let field = match toks[i].kind {
        TokenKind::Ident(_) => i + 1 < toks.len() && match toks[i + 1].kind {
            TokenKind::Colon => true,
            _ => false,
        },
        _ => false,
    };
    let closing = match toks[i].kind {
        TokenKind::RBrace => true,
        _ => false,
    };
    closing || at_item_start(toks, i) || field
}

/// Records the errors of the segment `name` (reserved when `reserved`) at `span`.
fn push_segment_errors(name: &String, reserved: bool, span: Span, errors: &mut Vec<ParsedError>)
    ensures
        errors_view(final(errors)@) == errors_view(old(errors)@) + (if reserved {
            seq![(span, reserved_text(name@))]
        } else {
            Seq::<(Span, Seq<char>)>::empty()
        }) + (if name@.contains('-') {
            seq![(span, hyphen_text(name@))]
        } else {
            Seq::<(Span, Seq<char>)>::empty()
        }),
{
    let ghost before = errors_view(errors@);
    if reserved {
        let mut message = string_of("reserved keyword `");
        push_str(&mut message, name.as_str());
        push_str(&mut message, "` cannot name a derived trait");
        let e = ParsedError { span, message };
        proof {
            lemma_errors_view_push(errors@, e);
        }
        errors.push(e);
    }
    let ghost middle = errors_view(errors@);
    assert(middle =~= before + (if reserved {
        seq![(span, reserved_text(name@))]
    } else {
        Seq::<(Span, Seq<char>)>::empty()
    }));
    if has_hyphen(name.as_str()) {
        let mut message = string_of("identifier `");
        push_str(&mut message, name.as_str());
        push_str(&mut message, "` cannot contain hyphens");
        let e = ParsedError { span, message };
        proof {
            lemma_errors_view_push(errors@, e);
        }
        errors.push(e);
    }
    assert(errors_view(errors@) =~= middle + (if name@.contains('-') {
        seq![(span, hyphen_text(name@))]
    } else {
        Seq::<(Span, Seq<char>)>::empty()
    }));
}

/// Parses the dotted path whose first segment is at `i`; returns it and the
/// position after it.
fn parse_path(toks: &[Token], i: usize, errors: &mut Vec<ParsedError>) -> (r: (Vec<(String, Span)>, usize))
    requires
        is_word(toks@, i as int),
        toks@.len() < usize::MAX,
    ensures
        segments_view(r.0@) == path_segments(toks@, i as int),
        r.1 == path_end(toks@, i as int),
        errors_view(final(errors)@) == errors_view(old(errors)@) + path_errors(toks@, i as int),
    decreases toks@.len() - i,
{
    let (name, reserved) = match word_at(toks, i) {
        Some(w) => w,
        None => {
            proof {
                assert(false);
            }
            return (Vec::new(), i);
        },
    };
    let span = toks[i].span;
    push_segment_errors(&name, reserved, span, errors);
    let ghost head = seq![(name@, span)];
    let mut out: Vec<(String, Span)> = Vec::new();
    out.push((name, span));
    assert(segments_view(out@) =~= head);
    if i + 2 < toks.len() && mark_at(toks, i + 1, Mark::Dot) {
        if let Some(_) = word_at(toks, i + 2) {
            let ghost mid = errors_view(errors@);
            let (mut rest, end) = parse_path(toks, i + 2, errors);
            let ghost rest_v = segments_view(rest@);
            out.append(&mut rest);
            assert(segments_view(out@) =~= head + rest_v);
            assert(errors_view(errors@) =~= errors_view(old(errors)@) + path_errors(toks@, i as int));
            return (out, end);
        }
    }
    assert(errors_view(errors@) =~= errors_view(old(errors)@) + path_errors(toks@, i as int));
    (out, i + 1)
}

/// Parses the comma-separated targets from the one at `i`; returns them and
/// the position after the last.
fn parse_targets(toks: &[Token], i: usize, errors: &mut Vec<ParsedError>) -> (r: (Vec<DeriveTarget>, usize))
    requires
        is_word(toks@, i as int),
        toks@.len() < usize::MAX,
    ensures
        targets_view(r.0@) == target_list(toks@, i as int),
        r.1 == target_list_end(toks@, i as int),
        errors_view(final(errors)@) == errors_view(old(errors)@) + target_list_errors(toks@, i as int),
    decreases toks@.len() - i,
{
    proof {
        lemma_path_end(toks@, i as int);
    }
    let (path, e) = parse_path(toks, i, errors);
    let target = DeriveTarget { span: Span { start: toks[i].span.start, end: toks[e - 1].span.end }, path };
    assert(target@ == target_at(toks@, i as int));
    let mut out: Vec<DeriveTarget> = Vec::new();
    out.push(target);
    assert(targets_view(out@) =~= seq![target_at(toks@, i as int)]);
    if e + 1 < toks.len() && mark_at(toks, e, Mark::Comma) {
        if let Some(_) = word_at(toks, e + 1) {
            let ghost mid = errors_view(errors@);
            let (mut rest, end) = parse_targets(toks, e + 1, errors);
            let ghost rest_v = targets_view(rest@);
            out.append(&mut rest);
            assert(targets_view(out@) =~= seq![target_at(toks@, i as int)] + rest_v);
            assert(errors_view(errors@) =~= errors_view(old(errors)@) + target_list_errors(toks@, i as int));
            return (out, end);
        }
    }
    (out, e)
}

/// Parses a derive attribute at `pos`: the attribute and the position after
/// it, or `None` where no `#[` stands at `pos`; and the errors it reports.
pub fn parse_derive_attr(toks: &[Token], pos: usize) -> (r: (Option<(DeriveAttr, usize)>, Vec<ParsedError>))
    requires
        toks@.len() < usize::MAX,
    ensures
        match derive_attr_grammar(toks@, pos as int) {
            None => r.0 is None && r.1@.len() == 0,
            Some((attr, errs, end)) => r.0 matches Some((a, e)) && a@ == attr && e == end && errors_view(r.1@)
                == errs,
        },
{
    let mut errors: Vec<ParsedError> = Vec::new();
    assert(errors_view(errors@) =~= Seq::empty());
    let opens = pos < toks.len() && pos + 1 < toks.len() && match toks[pos].kind {
        TokenKind::Hash => true,
        _ => false,
    } && match toks[pos + 1].kind {
        TokenKind::LBracket => true,
        _ => false,
    };
    if !opens {
        return (None, errors);
    }
    let ghost g = derive_attr_grammar(toks@, pos as int);
    let derive_kw = pos + 2 < toks.len() && match &toks[pos + 2].kind {
        TokenKind::Ident(n) => {
            proof {
                reveal_strlit("derive");
            }
            str_eq(n.as_str(), "derive")
        },
        _ => false,
    };
    let lparen = derive_kw && pos + 3 < toks.len() && match toks[pos + 3].kind {
        TokenKind::LParen => true,
        _ => false,
    };
    if lparen {
        let p = pos + 4;
        let (targets, q) = match word_at(toks, p) {
            Some(_) => {
                proof {
                    lemma_target_list_end(toks@, p as int);
                }
                parse_targets(toks, p, &mut errors)
            },
            None => {
                assert(toks@.len() < usize::MAX);
                (Vec::new(), p)
            },
        };
        assert(q == list_end(toks@, p as int));
        assert(targets_view(targets@) =~= list_targets(toks@, p as int));
        assert(errors_view(errors@) =~= list_errors(toks@, p as int));
        let closed = q + 1 < toks.len() && match toks[q].kind {
            TokenKind::RParen => true,
            _ => false,
        } && match toks[q + 1].kind {
            TokenKind::RBracket => true,
            _ => false,
        };
        if closed {
            let span = Span { start: toks[pos].span.start, end: toks[q + 1].span.end };
            if targets.len() == 0 {
                let e = ParsedError { span, message: string_of("derive attribute requires at least one trait path") };
                proof {
                    lemma_errors_view_push(errors@, e);
                }
                errors.push(e);
            }
            let attr = DeriveAttr { span, targets };
            proof {
                let (av, errs, end) = g.unwrap();
                assert(attr@ == av);
                assert(errors_view(errors@) =~= errs);
            }
            return (Some((attr, q + 2)), errors);
        }
    }
    assert(!valid_derive(toks@, pos as int));
    let mut errors: Vec<ParsedError> = Vec::new();
    proof {
        lemma_scan_stop(toks@, pos + 2);
    }
    let mut s = pos + 2;
    while s < toks.len() && !mark_at(toks, s, Mark::RBracket) && !at_boundary(toks, s)
        invariant
            pos + 2 <= s <= toks@.len() < usize::MAX,
            scan_stop(toks@, s as int) == scan_stop(toks@, pos + 2),
        decreases toks@.len() - s,
    {
        s = s + 1;
    }
    let closed = mark_at(toks, s, Mark::RBracket);
    let attr;
    let end;
    if closed {
        let span = Span { start: toks[pos].span.start, end: toks[s].span.end };
        errors.push(
            ParsedError { span, message: string_of("malformed derive attribute; expected `#[derive(Trait, ...)]`") },
        );
        attr = DeriveAttr { span, targets: Vec::new() };
        end = s + 1;
    } else {
        let span = Span { start: toks[pos].span.start, end: toks[s - 1].span.end };
        errors.push(ParsedError { span, message: string_of("unclosed derive attribute; expected `]`") });
        attr = DeriveAttr { span, targets: Vec::new() };
        end = s;
    }
    proof {
        let (av, errs, e) = g.unwrap();
        assert(targets_view(attr.targets@) =~= Seq::empty());
        assert(attr@ == av);
        assert(errors_view(errors@) =~= errs);
    }
    (Some((attr, end)), errors)
}

} // verus!
