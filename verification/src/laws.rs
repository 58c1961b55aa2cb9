//! Properties of the front end that hold across all inputs, stated over the
//! same definitions as the contracts of the executable functions.
use vstd::prelude::*;
use crate::abi_spec::{
    abi_components, abi_of, output_param, user_ty, AbiParamV, calldata_element, canonical_user_name, generic_sig,
    location_name, owned_rep, owned_sig, user_sig, TextResult,
};
use crate::body::{depth_within_limit, lemma_too_deep_tracks_depth, nesting_errors, never_overclosed, open_depth};
use crate::storage::{named_user, StorageCtx};
use crate::derived::{class_extra_args, derive_plan, find_info, AdtDeriveInfo, derived_abi_clauses, derived_storage_clauses, DerivedAbiClauseSource, DerivedStorageClauseSource};
use crate::abi::{decoded_selector_byte, lemma_hex_digit_value, selector_hex};
use crate::diag::Span;
use crate::emit::{binding_in, decode_escapes, scope_lookup, word_count, HExpr, HullExpr};
use crate::emitter::binds;
use crate::attr::{derive_attr_grammar, is_boundary, is_word, lemma_scan_stop, lemma_target_list_end, scan_stop, valid_derive};
use crate::typarse::{lemma_type_grammar_bounds, type_grammar};
use crate::token::{Token, TokenKind};
use crate::resolve::DeriveResolution;
use crate::yul::{helper_for, StringLiteralHelper};
use crate::parse::{attach_back, comments_well_formed, count_end_le, count_start_lt, directly_before_since, ParsedExpr, ParsedExprKind, SourceComment};
use crate::stmt::{assigned_value, body_errors, compound_op, stmt_errors, ParsedAssignOp, ParsedAssignTail, ParsedStmt, ParsedStmtKind};
use crate::ty::{canonical_std_named, flatten, is_tuple_shape, subst, subst_all, lemma_flatten_size, lemma_tvs_size_elem, mentions_adt, tv_size, tvs_size, BuiltinTyCtor, Db, DefId, DefLocation, TyCtor, TyView, UserTyCtor};

verus! {

/// A type name spelled like a standard-library ABI type acquires ABI
/// meaning only from the canonical definitions in the root module of `std`:
/// the canonical scalar names, `calldata(array(t))`, and `memory(string)` /
/// `memory(bytes)`.
pub proof fn law_abi_meaning_needs_canonical_std_definitions(db: &Db, user: UserTyCtor, args: Seq<TyView>)
    ensures
        canonical_user_name(db, user) is Some ==> db.location_of(user.def) == DefLocation::StdRoot,
        calldata_element(db, user, args) matches Ok(Some(_)) ==> {
            &&& canonical_std_named(db, user.def, "calldata"@)
            &&& args.len() == 1
            &&& args[0] matches TyView::Named { ctor: TyCtor::User(array), .. } && canonical_std_named(db, array.def, "array"@)
        },
        location_name(db, user, args) matches Ok(Some(n)) ==> {
            &&& canonical_std_named(db, user.def, "memory"@)
            &&& args.len() == 1
            &&& (n == "string"@ || n == "bytes"@)
            &&& args[0] matches TyView::Named { ctor: TyCtor::User(inner), .. } && canonical_std_named(db, inner.def, n)
        },
{
}

/// A user ADT is expanded through its compiler-owned `Generic`
/// representation only when the derivation is enabled where it is defined
/// *and* the derived evidence is visible to the contract, it has no manual
/// representation, it is not already being expanded, and its
/// representation does not mention the ADT itself.
pub proof fn law_generic_abi_needs_visible_derived_evidence(
    db: &Db,
    manual: Set<DefId>,
    derived: Set<DefId>,
    user: UserTyCtor,
    args: Seq<TyView>,
    stack: Seq<TyView>,
)
    ensures
        owned_rep(db, manual, derived, user, args, stack) matches Ok(rep) ==> {
            &&& db.has(user.def)
            &&& db.info(user.def).abi_derivation_enabled
            &&& db.info(user.def).generic_class_visible
            &&& derived.contains(user.def)
            &&& !manual.contains(user.def)
            &&& !stack.contains(user_ty(user, args))
            &&& !mentions_adt(rep, user.def)
        },
{
}

/// A concrete ADT type that is reached again while its own representation
/// is being expanded has no finite ABI signature.
pub proof fn law_recursive_adts_have_no_abi_signature(
    db: &Db,
    manual: Set<DefId>,
    derived: Set<DefId>,
    user: UserTyCtor,
    args: Seq<TyView>,
    stack: Seq<TyView>,
)
    requires
        stack.contains(user_ty(user, args)),
    ensures
        owned_sig(db, manual, derived, user, args, stack) is Err,
{
}

/// In the signature string, a product of two types is the comma-joined
/// signatures of its halves, with no tuple wrapper; the first error wins.
pub proof fn law_product_signature_is_comma_joined(
    db: &Db,
    manual: Set<DefId>,
    derived: Set<DefId>,
    a: TyView,
    b: TyView,
    stack: Seq<TyView>,
)
    ensures
        generic_sig(db, manual, derived, TyView::Named { ctor: TyCtor::Builtin(BuiltinTyCtor::Pair), args: seq![a, b] }, stack)
            == match (generic_sig(db, manual, derived, a, stack), generic_sig(db, manual, derived, b, stack)) {
            (Err(e), _) => Err(e),
            (Ok(_), Err(e)) => Err(e),
            (Ok(x), Ok(y)) => TextResult::Ok(x + ","@ + y),
        },
{
    let args = seq![a, b];
    let one = seq![a];
    assert(args.drop_last() =~= one);
    assert(args.last() == b);
    assert(one.drop_last() =~= Seq::<TyView>::empty());
    assert(one.last() == a);
    let pa = crate::abi_spec::generic_parts(db, manual, derived, one, stack);
    assert(crate::abi_spec::generic_parts(db, manual, derived, Seq::<TyView>::empty(), stack) == Ok::<Seq<Seq<char>>, Seq<char>>(Seq::empty()));
    match generic_sig(db, manual, derived, a, stack) {
        Ok(x) => {
            assert(pa == Ok::<Seq<Seq<char>>, Seq<char>>(Seq::<Seq<char>>::empty().push(x)));
            assert(Seq::<Seq<char>>::empty().push(x) =~= seq![x]);
            match generic_sig(db, manual, derived, b, stack) {
                Ok(y) => {
                    let parts = seq![x].push(y);
                    assert(parts =~= seq![x, y]);
                    assert(parts.drop_last() =~= seq![x]);
                    assert(crate::text::join_seqs(seq![x], ","@) == x);
                    assert(crate::text::join_seqs(parts, ","@) == x + ","@ + y);
                    assert(crate::abi_spec::generic_parts(db, manual, derived, args, stack) == Ok::<Seq<Seq<char>>, Seq<char>>(parts));
                },
                Err(e) => {
                    assert(crate::abi_spec::generic_parts(db, manual, derived, args, stack) == Err::<Seq<Seq<char>>, Seq<char>>(e));
                },
            }
        },
        Err(e) => {
            assert(pa == Err::<Seq<Seq<char>>, Seq<char>>(e));
            assert(crate::abi_spec::generic_parts(db, manual, derived, args, stack) == Err::<Seq<Seq<char>>, Seq<char>>(e));
        },
    }
}

/// In the signature string, a sum keeps its explicit `sum(l,r)` wrapper.
pub proof fn law_sum_signature_keeps_its_wrapper(
    db: &Db,
    manual: Set<DefId>,
    derived: Set<DefId>,
    l: TyView,
    r: TyView,
    stack: Seq<TyView>,
)
    ensures
        generic_sig(db, manual, derived, TyView::Named { ctor: TyCtor::Builtin(BuiltinTyCtor::Sum), args: seq![l, r] }, stack)
            == match (generic_sig(db, manual, derived, l, stack), generic_sig(db, manual, derived, r, stack)) {
            (Err(e), _) => Err(e),
            (Ok(_), Err(e)) => Err(e),
            (Ok(x), Ok(y)) => TextResult::Ok("sum("@ + x + ","@ + y + ")"@),
        },
{
    assert(seq![l, r][0] == l);
    assert(seq![l, r][1] == r);
}

/// A compound assignment `lhs op= rhs` stores exactly what the plain
/// assignment `lhs = lhs op rhs` stores.
pub proof fn law_compound_assignment_is_plain_assignment(
    lhs: ParsedExpr,
    op: ParsedAssignOp,
    op_span: Span,
    rhs: ParsedExpr,
    eq_span: Span,
)
    requires
        compound_op(op) is Some,
    ensures
        assigned_value(lhs, ParsedAssignTail::Binary { op, op_span, rhs }) == assigned_value(
            lhs,
            ParsedAssignTail::Binary {
                op: ParsedAssignOp::Eq,
                op_span: eq_span,
                rhs: ParsedExpr {
                    span: Span { start: lhs.span.start, end: rhs.span.end },
                    kind: ParsedExprKind::BinOp {
                        lhs: Box::new(lhs),
                        bin_op: compound_op(op).unwrap(),
                        op_span,
                        rhs: Box::new(rhs),
                    },
                },
            },
        ),
{
}

/// The words of a materialized string literal cover its bytes with less
/// than one word of padding.
pub proof fn law_literal_words_cover_bytes_tightly(len: nat)
    ensures
        len <= 32 * word_count(len),
        32 * word_count(len) < len + 32,
{
    let n = word_count(len);
    assert(n == (len + 31) / 32);
    assert(32 * n <= len + 31 && len + 31 < 32 * n + 32) by (nonlinear_arith)
        requires
            n == (len + 31) / 32,
    ;
}

/// A derived `Generic`-backed instance is generated for an ADT exactly when
/// its representation does not mention the ADT itself; a recursive
/// representation is skipped rather than reported.
pub proof fn law_recursive_representations_derive_no_clauses(
    adt: DefId,
    param_count: nat,
    type_var_count: nat,
    rep: TyView,
    abi: DerivedAbiClauseSource,
    storage: DerivedStorageClauseSource,
)
    ensures
        mentions_adt(rep, adt) <==> derived_abi_clauses(adt, param_count, type_var_count, rep, abi).len() == 0,
        mentions_adt(rep, adt) <==> derived_storage_clauses(adt, param_count, type_var_count, rep, storage).len() == 0,
{
}

/// An expression statement without its `;`.
pub open spec fn unterminated(stmt: ParsedStmt) -> bool {
    stmt.kind matches ParsedStmtKind::Expr { trailing_semi, .. } && !trailing_semi
}

proof fn lemma_body_errors_prefix(s: Seq<ParsedStmt>, k: nat)
    requires
        k < s.len(),
    ensures
        body_errors(s, true, k) == body_errors(s, false, k),
    decreases k,
{
    if k > 0 {
        lemma_body_errors_prefix(s, (k - 1) as nat);
    }
}

/// Only the last statement of a function body may omit its `;`: allowing
/// the tail changes nothing but whether an unterminated last expression
/// statement is reported, and statements in nested bodies (branches,
/// loops, blocks, match arms) are checked the same either way.
pub proof fn law_only_root_tail_may_omit_semicolon(stmts: Seq<ParsedStmt>)
    ensures
        stmts.len() == 0 ==> body_errors(stmts, true, 0) == Seq::<Span>::empty() && body_errors(stmts, false, 0) == Seq::<Span>::empty(),
        stmts.len() > 0 ==> body_errors(stmts, false, stmts.len()) == body_errors(stmts, true, stmts.len()) + if unterminated(stmts.last()) {
            seq![stmts.last().span]
        } else {
            Seq::<Span>::empty()
        },
{
    if stmts.len() > 0 {
        let n = stmts.len();
        lemma_body_errors_prefix(stmts, (n - 1) as nat);
        let last = stmts[n - 1];
        assert(stmts.last() == last);
        let prefix = body_errors(stmts, true, (n - 1) as nat);
        if unterminated(last) {
            assert(stmt_errors(last, true) == Seq::<Span>::empty());
            assert(stmt_errors(last, false) == seq![last.span]);
            assert(body_errors(stmts, true, n) =~= prefix);
        } else {
            assert(stmt_errors(last, true) == stmt_errors(last, false));
            assert(body_errors(stmts, false, n) =~= body_errors(stmts, true, n) + Seq::<Span>::empty());
        }
    }
}

proof fn lemma_attach_back_run(src: Seq<u8>, cs: Seq<SourceComment>, lo: int, k: int, cursor: int, allowed: Option<usize>)
    ensures
        ({
            let r = attach_back(src, cs, lo, k, cursor, allowed);
            r.len() > 0 ==> {
                &&& 0 <= lo
                &&& k <= cs.len()
                &&& r.len() <= k - lo
                &&& r == cs.subrange(k - r.len(), k)
                &&& r.last().span.end <= cursor
            }
        }),
    decreases k - lo,
{
    if !(k <= lo || k > cs.len() || lo < 0) {
        let c = cs[k - 1];
        lemma_attach_back_run(src, cs, lo, k - 1, c.span.start as int, allowed);
        let inner = attach_back(src, cs, lo, k - 1, c.span.start as int, allowed);
        let r = attach_back(src, cs, lo, k, cursor, allowed);
        if r.len() > 0 {
            assert(r == inner.push(c));
            assert(inner.push(c) =~= cs.subrange(k - r.len(), k));
        }
    }
}

proof fn lemma_count_start_lt(cs: Seq<SourceComment>, x: int)
    requires
        forall|i: int, j: int| 0 <= i < j < cs.len() ==> #[trigger] cs[i].span.start <= #[trigger] cs[j].span.start,
    ensures
        count_start_lt(cs, x) <= cs.len(),
        forall|j: int| count_start_lt(cs, x) <= j < cs.len() ==> #[trigger] cs[j].span.start >= x,
    decreases cs.len(),
{
    if cs.len() > 0 && cs[0].span.start < x {
        let rest = cs.skip(1);
        assert forall|i: int, j: int| 0 <= i < j < rest.len() implies #[trigger] rest[i].span.start <= #[trigger] rest[j].span.start by {
            assert(rest[i] == cs[i + 1] && rest[j] == cs[j + 1]);
        }
        lemma_count_start_lt(rest, x);
        assert forall|j: int| count_start_lt(cs, x) <= j < cs.len() implies #[trigger] cs[j].span.start >= x by {
            assert(cs[j] == rest[j - 1]);
        }
    } else if cs.len() > 0 {
        assert forall|j: int| count_start_lt(cs, x) <= j < cs.len() implies #[trigger] cs[j].span.start >= x by {
            if j > 0 {
                assert(cs[0].span.start <= cs[j].span.start);
            }
        }
    }
}

/// The comments attached to a declaration are a run of consecutive source
/// comments, in source order, that all end before the declaration starts
/// and start no earlier than the given minimum.
pub proof fn law_attached_comments_are_a_run_before_the_declaration(
    src: Seq<u8>,
    cs: Seq<SourceComment>,
    declaration_start: int,
    minimum_start: int,
    allowed: Option<usize>,
)
    requires
        comments_well_formed(src, cs),
    ensures
        ({
            let r = directly_before_since(src, cs, declaration_start, minimum_start, allowed);
            let end = count_end_le(cs, declaration_start) as int;
            &&& r.len() > 0 ==> end <= cs.len() && r == cs.subrange(end - r.len(), end)
            &&& forall|i: int| 0 <= i < r.len() ==> (#[trigger] r[i]).span.end <= declaration_start
                && r[i].span.start >= minimum_start
        }),
{
    let lo = count_start_lt(cs, minimum_start) as int;
    let end = count_end_le(cs, declaration_start) as int;
    let r = directly_before_since(src, cs, declaration_start, minimum_start, allowed);
    lemma_attach_back_run(src, cs, lo, end, declaration_start, allowed);
    assert forall|i: int, j: int| 0 <= i < j < cs.len() implies #[trigger] cs[i].span.start <= #[trigger] cs[j].span.start by {
        assert(cs[i].span.start <= cs[i].span.end);
    }
    lemma_count_start_lt(cs, minimum_start);
    assert forall|i: int| 0 <= i < r.len() implies (#[trigger] r[i]).span.end <= declaration_start
        && r[i].span.start >= minimum_start by {
        let a = end - r.len();
        assert(r[i] == cs[a + i]);
        assert(r.last() == cs[end - 1]);
        if i < r.len() - 1 {
            assert(cs[a + i].span.end <= cs[end - 1].span.start);
            assert(cs[end - 1].span.start <= cs[end - 1].span.end);
        }
        assert(a + i >= lo);
    }
}

/// `p` and, recursively, all its tuple components have the empty name.
pub open spec fn unnamed(p: AbiParamV) -> bool
    decreases p,
{
    &&& p.name.len() == 0
    &&& forall|i: int| 0 <= i < p.components.len() ==> unnamed(#[trigger] p.components[i])
}

proof fn lemma_abi_of_unnamed(db: &Db, manual: Set<DefId>, derived: Set<DefId>, t: TyView)
    ensures
        abi_of(db, manual, derived, t) matches Ok((_, c)) ==> forall|i: int| 0 <= i < c.len() ==> unnamed(#[trigger] c[i]),
    decreases tv_size(t), 1nat,
{
    match t {
        TyView::Tuple(elems) => {
            if elems.len() != 0 {
                lemma_flatten_size(elems);
                lemma_components_unnamed(db, manual, derived, flatten(elems));
            }
        },
        TyView::Named { ctor: TyCtor::Builtin(BuiltinTyCtor::Pair), args } => {
            if args.len() == 2 {
                lemma_flatten_size(args);
                lemma_components_unnamed(db, manual, derived, flatten(args));
            }
        },
        TyView::Named { ctor: TyCtor::User(user), args } => {
            if !(args.len() == 0 && canonical_user_name(db, user) is Some) {
                if let Ok(Some(element)) = calldata_element(db, user, args) {
                    lemma_tvs_size_elem(args, 0);
                    if let TyView::Named { args: elements, .. } = args[0] {
                        lemma_tvs_size_elem(elements, 0);
                    }
                    lemma_abi_of_unnamed(db, manual, derived, element);
                }
            }
        },
        _ => {},
    }
}

proof fn lemma_components_unnamed(db: &Db, manual: Set<DefId>, derived: Set<DefId>, s: Seq<TyView>)
    ensures
        abi_components(db, manual, derived, s) matches Ok(ps) ==> forall|i: int| 0 <= i < ps.len() ==> unnamed(#[trigger] ps[i]),
    decreases tvs_size(s), 2nat,
{
    if s.len() > 0 {
        lemma_tvs_size_elem(s, s.len() - 1);
        lemma_components_unnamed(db, manual, derived, s.drop_last());
        lemma_abi_of_unnamed(db, manual, derived, s.last());
        if let Ok(ps) = abi_components(db, manual, derived, s) {
            if let Ok(prev) = abi_components(db, manual, derived, s.drop_last()) {
                if let Ok((t, c)) = abi_of(db, manual, derived, s.last()) {
                    let p = AbiParamV { name: Seq::empty(), ty: t, components: c };
                    assert(unnamed(p));
                    assert(ps == prev.push(p));
                    assert forall|i: int| 0 <= i < ps.len() implies unnamed(#[trigger] ps[i]) by {
                        if i < prev.len() {
                            assert(ps[i] == prev[i]);
                        }
                    }
                }
            }
        }
    }
}

/// ABI outputs and tuple components, at every depth, carry the empty name.
pub proof fn law_outputs_and_components_are_unnamed(db: &Db, manual: Set<DefId>, derived: Set<DefId>, t: TyView)
    ensures
        unnamed(output_param(db, manual, derived, t)),
{
    lemma_abi_of_unnamed(db, manual, derived, t);
}

/// A class derivation is planned only for a class without extra type
/// arguments and an ADT whose type variables are exactly its own
/// parameters: a contract-local ADT that captures the type variables of a
/// generic contract gets no plan.
pub proof fn law_derivation_plans_capture_no_type_variables(db: &Db, infos: Seq<AdtDeriveInfo>, d: DeriveResolution)
    ensures
        derive_plan(db, infos, d) is Some ==> {
            &&& find_info(infos, d.adt) matches Some(info) && info.type_var_count == info.param_count
            &&& d.resolution matches crate::resolve::Resolution::Def { def: class, .. } && class_extra_args(db, class) == Some(0usize)
        },
{
}

/// The contents of a string literal without backslashes decode to
/// themselves, and decoding never makes the contents longer.
pub proof fn law_plain_literal_decodes_to_itself(s: Seq<char>)
    ensures
        decode_escapes(s).len() <= s.len(),
        !s.contains('\\') ==> decode_escapes(s) == s,
    decreases s.len(),
{
    if s.len() > 0 {
        if s[0] == '\\' && s.len() >= 2 {
            law_plain_literal_decodes_to_itself(s.skip(2));
        } else {
            law_plain_literal_decodes_to_itself(s.skip(1));
            if !s.contains('\\') {
                assert forall|c: char| s.skip(1).contains(c) implies s.contains(c) by {
                    let j = choose|j: int| 0 <= j < s.skip(1).len() && s.skip(1)[j] == c;
                    assert(s[j + 1] == c);
                }
                assert(seq![s[0]] + s.skip(1) =~= s);
            }
        }
    }
}

/// String literal helpers are keyed by decoded bytes: once a helper is
/// registered for some bytes, every later lookup of equal bytes finds it,
/// and lookups of other bytes are unaffected.
pub proof fn law_equal_literals_share_one_helper(
    helpers: Seq<(Vec<u8>, StringLiteralHelper)>,
    entry: (Vec<u8>, StringLiteralHelper),
    other: Seq<u8>,
)
    requires
        helper_for(helpers, entry.0@) is None,
    ensures
        helper_for(helpers.push(entry), entry.0@) == Some(entry.1.name@),
        other != entry.0@ ==> helper_for(helpers.push(entry), other) == helper_for(helpers, other),
    decreases helpers.len(),
{
    let pushed = helpers.push(entry);
    if helpers.len() == 0 {
        assert(pushed[0] == entry);
        assert(pushed.skip(1).len() == 0);
        assert(helper_for(pushed.skip(1), other) is None);
        assert(helper_for(helpers, other) is None);
    } else {
        assert(pushed[0] == helpers[0]);
        assert(pushed.skip(1) =~= helpers.skip(1).push(entry));
        law_equal_literals_share_one_helper(helpers.skip(1), entry, other);
    }
}

/// Flattening a tuple's elements leaves no tuple or pair among the
/// components.
pub proof fn law_flattened_components_are_not_tuples(s: Seq<TyView>)
    ensures
        forall|i: int| 0 <= i < flatten(s).len() ==> !is_tuple_shape(#[trigger] flatten(s)[i]),
    decreases s,
{
    if s.len() > 0 {
        law_flattened_components_are_not_tuples(s.drop_last());
        let prefix = flatten(s.drop_last());
        let piece = match s.last() {
            TyView::Tuple(nested) => flatten(nested),
            TyView::Named { ctor: TyCtor::Builtin(BuiltinTyCtor::Pair), args } if args.len() == 2 => flatten(args),
            other => seq![other],
        };
        match s.last() {
            TyView::Tuple(nested) => {
                assert(decreases_to!(s => nested));
                law_flattened_components_are_not_tuples(nested);
            },
            TyView::Named { ctor: TyCtor::Builtin(BuiltinTyCtor::Pair), args } => {
                if args.len() == 2 {
                    assert(decreases_to!(s => args));
                    law_flattened_components_are_not_tuples(args);
                }
            },
            _ => {},
        }
        assert(flatten(s) == prefix + piece);
        assert forall|i: int| 0 <= i < flatten(s).len() implies !is_tuple_shape(#[trigger] flatten(s)[i]) by {
            if i < prefix.len() {
                assert(flatten(s)[i] == prefix[i]);
            } else {
                assert(flatten(s)[i] == piece[i - prefix.len()]);
            }
        }
    }
}

proof fn lemma_subst_all_empty(s: Seq<TyView>)
    ensures
        subst_all(s, Seq::empty()) == s,
    decreases s,
{
    if s.len() > 0 {
        lemma_subst_all_empty(s.drop_last());
        law_substitution_without_arguments_is_identity(s.last());
        assert(s.drop_last().push(s.last()) =~= s);
    }
}

/// Substituting no type arguments leaves a type unchanged.
pub proof fn law_substitution_without_arguments_is_identity(t: TyView)
    ensures
        subst(t, Seq::empty()) == t,
    decreases t,
{
    match t {
        TyView::Named { ctor, args } => {
            lemma_subst_all_empty(args);
        },
        TyView::Function { params, ret } => {
            lemma_subst_all_empty(params);
            law_substitution_without_arguments_is_identity(*ret);
        },
        TyView::Tuple(elems) => {
            lemma_subst_all_empty(elems);
        },
        TyView::Comptime(inner) => {
            law_substitution_without_arguments_is_identity(*inner);
        },
        _ => {},
    }
}

/// Binding a name in the innermost scope makes it stand for the bound
/// expression, and leaves what every other name stands for unchanged.
pub proof fn law_bound_name_reads_back(
    before: Seq<Vec<(String, HullExpr)>>,
    after: Seq<Vec<(String, HullExpr)>>,
    name: Seq<char>,
    value: HExpr,
    other: Seq<char>,
)
    requires
        binds(before, after, name, value),
    ensures
        scope_lookup(after, name) matches Some(e) && e@ == value,
        other != name ==> scope_lookup(after, other) == scope_lookup(before, other),
{
    let inner = after.last()@;
    assert(binding_in(inner, name) == Some(inner[0].1));
    if other != name {
        assert(binding_in(inner, other) == binding_in(inner.skip(1), other));
    }
}

/// A `#[` attribute that is not a well-formed `#[derive(...)]` is recovered
/// as one unit that names no trait and reports one error, without swallowing
/// the declaration after it: none of the tokens it covers after `#[` is a `]`
/// or starts a declaration, and it ends just after the first `]`, or before
/// the first token that starts a declaration, or at the end of the tokens.
pub proof fn law_recovered_attribute_stops_before_the_next_declaration(toks: Seq<Token>, pos: int)
    requires
        0 <= pos,
        pos + 1 < toks.len(),
        toks[pos].kind is Hash,
        toks[pos + 1].kind is LBracket,
        !valid_derive(toks, pos),
    ensures
        derive_attr_grammar(toks, pos) is Some,
        ({
            let (attr, errs, end) = derive_attr_grammar(toks, pos).unwrap();
            let s = scan_stop(toks, pos + 2);
            &&& attr.targets.len() == 0
            &&& errs.len() == 1
            &&& forall|k: int| pos + 2 <= k < s ==> !is_boundary(toks, k) && !(toks[k].kind is RBracket)
            &&& (end == s + 1 && toks[s].kind is RBracket) || (end == s && (s == toks.len() || is_boundary(toks, s)))
        }),
{
    lemma_scan_stop(toks, pos + 2);
}

/// Parsing makes progress and stays within the tokens: a type that parses
/// takes at least one token, and a derive attribute takes its `#[` and at
/// least one token more or the end of the tokens.
pub proof fn law_parses_consume_tokens(toks: Seq<Token>, pos: int)
    ensures
        type_grammar(toks, pos) matches Some((_, _, e)) ==> pos < e <= toks.len(),
        derive_attr_grammar(toks, pos) matches Some((_, _, e)) ==> pos + 2 <= e <= toks.len(),
{
    lemma_type_grammar_bounds(toks, pos);
    if 0 <= pos && pos + 1 < toks.len() {
        lemma_scan_stop(toks, pos + 2);
        if is_word(toks, pos + 4) {
            lemma_target_list_end(toks, pos + 4);
        }
    }
}

/// The hexadecimal text of a selector decodes back to its bytes: the digits
/// at `2 + 2 * i` and `3 + 2 * i` spell byte `i`.
pub proof fn law_selector_hex_decodes_back(bytes: Seq<u8>)
    requires
        bytes.len() == 4,
    ensures
        forall|i: int| 0 <= i < 4 ==> decoded_selector_byte(selector_hex(bytes), i) == bytes[i] as int,
{
    assert forall|i: int| 0 <= i < 4 implies decoded_selector_byte(selector_hex(bytes), i) == bytes[i] as int by {
        let b = bytes[i];
        let text = selector_hex(bytes);
        assert(text[2 + 2 * i] == crate::text::hex_digit((b / 16) as nat));
        assert(text[3 + 2 * i] == crate::text::hex_digit((b % 16) as nat));
        lemma_hex_digit_value((b / 16) as nat);
        lemma_hex_digit_value((b % 16) as nat);
        assert(b == (b / 16) * 16 + b % 16);
    }
}

/// Two selectors with the same hexadecimal text are the same selector.
pub proof fn law_selector_hex_is_injective(a: Seq<u8>, b: Seq<u8>)
    requires
        a.len() == 4,
        b.len() == 4,
        selector_hex(a) == selector_hex(b),
    ensures
        a == b,
{
    law_selector_hex_decodes_back(a);
    law_selector_hex_decodes_back(b);
    assert forall|i: int| 0 <= i < 4 implies a[i] == b[i] by {
        assert(decoded_selector_byte(selector_hex(a), i) == decoded_selector_byte(selector_hex(b), i));
    }
    assert(a =~= b);
}

/// The delimiter-nesting check reports an error exactly when the true
/// nesting depth exceeds the limit: on tokens in which no prefix closes more
/// delimiters than it opens, and where every `)`, `]` and `}` closes a level,
/// there is no nesting error if and only if no prefix leaves more than
/// `MAX_SYNTAX_NESTING` delimiters open. Any run of `{ }` pairs is accepted.
pub proof fn law_nesting_errors_follow_true_depth(toks: Seq<Token>)
    requires
        never_overclosed(toks),
    ensures
        nesting_errors(toks).len() == 0 <==> depth_within_limit(toks),
{
    assert(open_depth(toks, 0) == 0);
    lemma_too_deep_tracks_depth(toks, 0);
}

/// Storage loads both `string` and `bytes` into memory and other plain
/// values as themselves: outside a trait environment, with a `memory`
/// constructor in scope, reading a `storage(t)` whose stored type is a 0-ary
/// ADT yields `memory(t)` when that ADT is named `string` or `bytes`, and
/// `t` itself otherwise.
pub proof fn law_storage_loads_string_and_bytes_into_memory(
    ctx: &StorageCtx,
    db: &Db,
    t: TyView,
    stored: TyView,
    sc: TyCtor,
    mc: TyCtor,
    def: DefId,
)
    requires
        ctx.storage_ctor == Some(sc),
        ctx.memory_ctor == Some(mc),
        !ctx.has_trait_env,
        ctx.normal(db, t) == (TyView::Named { ctor: sc, args: seq![stored] }),
        ctx.normal(db, stored) == named_user(def, Seq::empty()),
    ensures
        ctx.memory_backed(db, named_user(def, Seq::empty())) <==> (db.name_of(def) == Some("string"@)
            || db.name_of(def) == Some("bytes"@)),
        ctx.loaded_ty(db, t) == if db.name_of(def) == Some("string"@) || db.name_of(def) == Some("bytes"@) {
            Some((TyView::Named { ctor: mc, args: seq![named_user(def, Seq::empty())] }))
        } else {
            Some(named_user(def, Seq::empty()))
        },
{
}

/// Each of the four canonical scalar names of the root std module is its
/// own canonical ABI name, and a parameter of that type renders as that
/// name in a method signature: `uint256`, `address`, `bytes4`, `bytes32`.
/// No other definition has a canonical scalar name.
pub proof fn law_canonical_scalars_name_themselves(
    db: &Db,
    manual: Set<DefId>,
    derived: Set<DefId>,
    user: UserTyCtor,
    stack: Seq<TyView>,
)
    ensures
        canonical_std_named(db, user.def, "uint256"@) ==> canonical_user_name(db, user) == Some("uint256"@)
            && user_sig(db, manual, derived, user, Seq::empty(), stack) == TextResult::Ok("uint256"@),
        canonical_std_named(db, user.def, "address"@) ==> canonical_user_name(db, user) == Some("address"@)
            && user_sig(db, manual, derived, user, Seq::empty(), stack) == TextResult::Ok("address"@),
        canonical_std_named(db, user.def, "bytes4"@) ==> canonical_user_name(db, user) == Some("bytes4"@)
            && user_sig(db, manual, derived, user, Seq::empty(), stack) == TextResult::Ok("bytes4"@),
        canonical_std_named(db, user.def, "bytes32"@) ==> canonical_user_name(db, user) == Some("bytes32"@)
            && user_sig(db, manual, derived, user, Seq::empty(), stack) == TextResult::Ok("bytes32"@),
        canonical_user_name(db, user) matches Some(n) ==> canonical_std_named(db, user.def, n) && (n
            == "uint256"@ || n == "address"@ || n == "bytes4"@ || n == "bytes32"@),
{
}

} // verus!
