//! The emitter's state while it lowers a function body: the stack of lexical
//! scopes that map source names to Hull expressions, the `let` declarations
//! hoisted ahead of `if` statements, and the counter of fresh temporaries;
//! and the statement lowerings that read and update that state.
use vstd::prelude::*;
use crate::diag::Span;
use crate::emit::{
    call_name, callee_name, closure_callee_name, decoded_literal_bytes, decoded_string_literal, expr_reads_var,
    intrinsic_text, is_call, lookup_expr, reads_var, scope_lookup, unit_expr, HExpr, HExprKind, HullExpr,
    HullExprKind, HullTy, MonoBuiltinCtor, MonoCallOrigin, MonoExpr,
};
use crate::laws::law_equal_literals_share_one_helper;
use crate::text::{dec_text, decimal, push_str, str_eq, string_of, strings_view};
use crate::yul::{helper_for, register_string_literal, registration, HullAlt, HullCon, HullStmt, HullStmtKind, StringLiterals};

verus! {

/// A `let` whose declaration was hoisted ahead of an `if`: the span of the
/// source statement, the unique backend local it assigns, and its type.
#[derive(Debug)]
pub struct PredeclaredLet {
    pub span: Span,
    pub backend_name: String,
    pub ty: HullTy,
}

/// The lowering state of one function body. Scopes are listed outermost
/// first; within a scope the first entry for a name is its binding.
#[derive(Debug)]
pub struct Emitter {
    pub scopes: Vec<Vec<(String, HullExpr)>>,
    pub predeclared_lets: Vec<PredeclaredLet>,
    pub fresh: usize,
    /// Some memory array read was lowered, so the module needs its helper.
    pub memory_array_index_used: bool,
}

/// The variable `name` of type `ty` at `span`.
pub open spec fn var_v(span: Span, name: Seq<char>, ty: HullTy) -> HExpr {
    HExpr { span, ty, kind: HExprKind::Var(name) }
}

/// The fresh temporary for `purpose` numbered `n`.
pub open spec fn temp_name(purpose: Seq<char>, n: nat) -> Seq<char> {
    "$"@ + purpose + dec_text(n)
}

/// `after` is `before` with `name` bound to `value` in the innermost scope.
pub open spec fn binds(
    before: Seq<Vec<(String, HullExpr)>>,
    after: Seq<Vec<(String, HullExpr)>>,
    name: Seq<char>,
    value: HExpr,
) -> bool {
    &&& before.len() >= 1
    &&& after.len() == before.len()
    &&& after.drop_last() == before.drop_last()
    &&& after.last()@.len() == before.last()@.len() + 1
    &&& after.last()@[0].0@ == name
    &&& after.last()@[0].1@ == value
    &&& after.last()@.skip(1) == before.last()@
}

/// The index of the first hoisted `let` of the statement at `span`, from `i` on.
pub open spec fn predeclared_from(lets: Seq<PredeclaredLet>, span: Span, i: int) -> Option<int>
    decreases lets.len() - i,
{
    if !(0 <= i < lets.len()) {
        None
    } else if lets[i].span == span {
        Some(i)
    } else {
        predeclared_from(lets, span, i + 1)
    }
}

pub open spec fn predeclared_index(lets: Seq<PredeclaredLet>, span: Span) -> Option<int> {
    predeclared_from(lets, span, 0)
}

proof fn lemma_predeclared_from(lets: Seq<PredeclaredLet>, span: Span, i: int)
    requires
        0 <= i,
    ensures
        predeclared_from(lets, span, i) matches Some(k) ==> i <= k < lets.len() && lets[k].span == span,
    decreases lets.len() - i,
{
    if 0 <= i < lets.len() && lets[i].span != span {
        lemma_predeclared_from(lets, span, i + 1);
    }
}

/// `s` declares the local `name` of type `ty` at `span`.
pub open spec fn declares(s: HullStmt, span: Span, name: Seq<char>, ty: HullTy) -> bool {
    &&& s.span == span
    &&& s.kind matches HullStmtKind::Let { name: n, ty: t } && n@ == name && t == ty
}

/// `s` assigns `rhs` to `lhs` at `span`.
pub open spec fn assigns(s: HullStmt, span: Span, lhs: HExpr, rhs: HExpr) -> bool {
    &&& s.span == span
    &&& s.kind matches HullStmtKind::Assign { lhs: l, rhs: r } && l@ == lhs && r@ == rhs
}

/// How `let name = init;` at `span` lowers when no declaration was hoisted
/// for it: the initializer, emitted before the name is bound, is stored in
/// a fresh `$let_init` temporary first if it reads a variable spelled like
/// the new local, so that the declaration cannot capture it.
pub open spec fn lowered_let(
    r: Seq<HullStmt>,
    span: Span,
    name: Seq<char>,
    declared: HullTy,
    init: Option<HullExpr>,
    fresh: nat,
) -> bool {
    let own = var_v(span, name, declared);
    match init {
        Some(rhs) => if reads_var(rhs, name) {
            let temp = temp_name("let_init"@, fresh);
            &&& r.len() == 4
            &&& declares(r[0], span, temp, declared)
            &&& assigns(r[1], span, var_v(span, temp, declared), rhs@)
            &&& declares(r[2], span, name, declared)
            &&& assigns(r[3], span, own, var_v(span, temp, declared))
        } else {
            &&& r.len() == 2
            &&& declares(r[0], span, name, declared)
            &&& assigns(r[1], span, own, rhs@)
        },
        None => r.len() == 1 && declares(r[0], span, name, declared),
    }
}

/// The hoisted declarations that lowering an `if` adds for the `let`s that
/// leak out of its branches (`lets`, as span and Hull type, in source order):
/// one fresh `$if_local` local for each span not hoisted yet (`spans`).
pub open spec fn hoisted(lets: Seq<(Span, HullTy)>, spans: Seq<Span>, fresh: nat) -> Seq<(Span, Seq<char>, HullTy)>
    decreases lets.len(),
{
    if lets.len() == 0 {
        Seq::empty()
    } else if spans.contains(lets[0].0) {
        hoisted(lets.skip(1), spans, fresh)
    } else {
        seq![(lets[0].0, temp_name("if_local"@, fresh), lets[0].1)] + hoisted(
            lets.skip(1),
            spans.push(lets[0].0),
            fresh + 1,
        )
    }
}

pub open spec fn predeclared_view(lets: Seq<PredeclaredLet>) -> Seq<(Span, Seq<char>, HullTy)> {
    Seq::new(lets.len(), |i: int| (lets[i].span, lets[i].backend_name@, lets[i].ty))
}

pub open spec fn predeclared_spans(lets: Seq<PredeclaredLet>) -> Seq<Span> {
    Seq::new(lets.len(), |i: int| lets[i].span)
}

/// Whether lowering `let name = init;` takes a fresh temporary.
pub open spec fn let_takes_temp(name: Seq<char>, init: Option<HullExpr>) -> bool {
    init matches Some(rhs) && reads_var(rhs, name)
}

impl Emitter {
    /// The scope stack always holds the root scope.
    pub open spec fn wf(&self) -> bool {
        self.scopes@.len() >= 1
    }

    /// A fresh emitter: one empty root scope, nothing hoisted, no temporary
    /// taken yet.
    pub fn new(predeclared_lets: Vec<PredeclaredLet>) -> (e: Emitter)
        ensures
            e.wf(),
            e.scopes@.len() == 1,
            e.scopes@[0]@.len() == 0,
            e.predeclared_lets == predeclared_lets,
            e.fresh == 0,
            !e.memory_array_index_used,
    {
        let mut scopes: Vec<Vec<(String, HullExpr)>> = Vec::new();
        scopes.push(Vec::new());
        Emitter { scopes, predeclared_lets, fresh: 0, memory_array_index_used: false }
    }

    /// A new temporary name `$<purpose><n>` for the next number `n`.
    pub fn fresh_temp(&mut self, purpose: &str) -> (name: String)
        requires
            old(self).fresh < usize::MAX,
        ensures
            name@ == temp_name(purpose@, old(self).fresh as nat),
            final(self).fresh == old(self).fresh + 1,
            final(self).scopes == old(self).scopes,
            final(self).predeclared_lets == old(self).predeclared_lets,
    {
        let mut name = string_of("$");
        push_str(&mut name, purpose);
        let n = decimal(self.fresh);
        push_str(&mut name, n.as_str());
        self.fresh = self.fresh + 1;
        name
    }

    /// Binds `name` to `expr` in the innermost scope.
    pub fn bind_expr(&mut self, name: String, expr: HullExpr)
        requires
            old(self).wf(),
        ensures
            final(self).wf(),
            binds(old(self).scopes@, final(self).scopes@, name@, expr@),
            final(self).fresh == old(self).fresh,
            final(self).predeclared_lets == old(self).predeclared_lets,
    {
        let ghost before = self.scopes@;
        let ghost value = expr@;
        let ghost name_v = name@;
        let mut scope = self.scopes.pop().unwrap();
        let ghost old_scope = scope@;
        scope.insert(0, (name, expr));
        assert(scope@.skip(1) =~= old_scope);
        self.scopes.push(scope);
        assert(self.scopes@.drop_last() =~= before.drop_last());
    }

    /// The expression that `name` stands for in the innermost scope binding it.
    pub fn lookup(&self, name: &str) -> (r: Option<HullExpr>)
        ensures
            match scope_lookup(self.scopes@, name@) {
                Some(e) => r matches Some(x) && x@ == e@,
                None => r is None,
            },
    {
        lookup_expr(&self.scopes, name)
    }

    /// Opens a new innermost scope.
    pub fn push_scope(&mut self)
        ensures
            final(self).wf(),
            final(self).scopes@.len() == old(self).scopes@.len() + 1,
            final(self).scopes@.drop_last() == old(self).scopes@,
            final(self).scopes@.last()@.len() == 0,
            final(self).fresh == old(self).fresh,
            final(self).predeclared_lets == old(self).predeclared_lets,
    {
        self.scopes.push(Vec::new());
        assert(self.scopes@.drop_last() =~= old(self).scopes@);
    }

    /// Closes the innermost scope, which is not the root.
    pub fn pop_scope(&mut self)
        requires
            old(self).scopes@.len() >= 2,
        ensures
            final(self).wf(),
            final(self).scopes@ == old(self).scopes@.drop_last(),
            final(self).fresh == old(self).fresh,
            final(self).predeclared_lets == old(self).predeclared_lets,
    {
        let _ = self.scopes.pop();
    }

    /// The first hoisted `let` of the statement at `span`, if any.
    fn find_predeclared(&self, span: Span) -> (r: Option<usize>)
        ensures
            match predeclared_index(self.predeclared_lets@, span) {
                Some(k) => r matches Some(i) && i as int == k,
                None => r is None,
            },
            r matches Some(i) ==> i < self.predeclared_lets@.len() && self.predeclared_lets@[i as int].span == span,
    {
        proof {
            lemma_predeclared_from(self.predeclared_lets@, span, 0);
        }
        let mut i: usize = 0;
        while i < self.predeclared_lets.len()
            invariant
                i <= self.predeclared_lets@.len(),
                predeclared_index(self.predeclared_lets@, span) == predeclared_from(
                    self.predeclared_lets@,
                    span,
                    i as int,
                ),
            decreases self.predeclared_lets@.len() - i,
        {
            if self.predeclared_lets[i].span == span {
                return Some(i);
            }
            i = i + 1;
        }
        None
    }

    /// Lowers `let name = init;` at `span`, `name` declared at `id_span` with
    /// Hull type `declared`, over its already emitted initializer. A hoisted
    /// declaration turns it into an assignment of its backend local, to which
    /// the name is then bound; otherwise the local is declared as
    /// `lowered_let` says and the name is bound to it.
    pub fn emit_let(
        &mut self,
        span: Span,
        name: &str,
        id_span: Span,
        declared: HullTy,
        init: Option<HullExpr>,
    ) -> (r: Vec<HullStmt>)
        requires
            old(self).wf(),
            old(self).fresh < usize::MAX,
        ensures
            final(self).wf(),
            final(self).predeclared_lets == old(self).predeclared_lets,
            match predeclared_index(old(self).predeclared_lets@, span) {
                Some(i) => {
                    let p = old(self).predeclared_lets@[i];
                    let local = var_v(id_span, p.backend_name@, p.ty);
                    &&& binds(old(self).scopes@, final(self).scopes@, name@, local)
                    &&& final(self).fresh == old(self).fresh
                    &&& match init {
                        Some(rhs) => r@.len() == 1 && assigns(r@[0], span, local, rhs@),
                        None => r@.len() == 0,
                    }
                },
                None => {
                    &&& binds(old(self).scopes@, final(self).scopes@, name@, var_v(id_span, name@, declared))
                    &&& lowered_let(r@, span, name@, declared, init, old(self).fresh as nat)
                    &&& final(self).fresh == old(self).fresh + (if let_takes_temp(name@, init) {
                        1int
                    } else {
                        0int
                    })
                },
            },
    {
        if let Some(i) = self.find_predeclared(span) {
            let backend = self.predeclared_lets[i].backend_name.clone();
            let ty = self.predeclared_lets[i].ty.duplicate();
            let local = HullExpr::var(id_span, backend.as_str(), ty);
            let bound = local.duplicate();
            self.bind_expr(string_of(name), bound);
            let mut out: Vec<HullStmt> = Vec::new();
            if let Some(rhs) = init {
                out.push(HullStmt { span, kind: HullStmtKind::Assign { lhs: local, rhs } });
            }
            return out;
        }
        let mut out: Vec<HullStmt> = Vec::new();
        match init {
            Some(rhs) => {
                if expr_reads_var(&rhs, name) {
                    let temp = self.fresh_temp("let_init");
                    out.push(
                        HullStmt { span, kind: HullStmtKind::Let { name: temp.clone(), ty: declared.duplicate() } },
                    );
                    let temp_var = HullExpr::var(span, temp.as_str(), declared.duplicate());
                    out.push(HullStmt { span, kind: HullStmtKind::Assign { lhs: temp_var, rhs } });
                    out.push(
                        HullStmt { span, kind: HullStmtKind::Let { name: string_of(name), ty: declared.duplicate() } },
                    );
                    let own = HullExpr::var(span, name, declared.duplicate());
                    let read = HullExpr::var(span, temp.as_str(), declared.duplicate());
                    out.push(HullStmt { span, kind: HullStmtKind::Assign { lhs: own, rhs: read } });
                } else {
                    out.push(
                        HullStmt { span, kind: HullStmtKind::Let { name: string_of(name), ty: declared.duplicate() } },
                    );
                    let own = HullExpr::var(span, name, declared.duplicate());
                    out.push(HullStmt { span, kind: HullStmtKind::Assign { lhs: own, rhs } });
                }
            },
            None => {
                out.push(HullStmt { span, kind: HullStmtKind::Let { name: string_of(name), ty: declared.duplicate() } });
            },
        }
        let local = HullExpr::var(id_span, name, declared);
        self.bind_expr(string_of(name), local);
        out
    }
}

proof fn lemma_hoisted_len(lets: Seq<(Span, HullTy)>, spans: Seq<Span>, fresh: nat)
    ensures
        hoisted(lets, spans, fresh).len() <= lets.len(),
    decreases lets.len(),
{
    if lets.len() > 0 {
        if spans.contains(lets[0].0) {
            lemma_hoisted_len(lets.skip(1), spans, fresh);
        } else {
            lemma_hoisted_len(lets.skip(1), spans.push(lets[0].0), fresh + 1);
        }
    }
}

/// `alt` is the alternative at `span` for constructor `con` binding `binder`.
pub open spec fn is_alt(alt: HullAlt, span: Span, con: HullCon, binder: Seq<char>) -> bool {
    alt.span == span && alt.con == con && alt.binder@ == binder
}

impl Emitter {
    /// The expression for the source variable `name` of Hull type `ty` read
    /// at `span`: its binding in scope, else the variable itself.
    pub fn emit_var(&self, span: Span, name: &str, ty: HullTy) -> (r: HullExpr)
        ensures
            match scope_lookup(self.scopes@, name@) {
                Some(e) => r@ == e@,
                None => r@ == var_v(span, name@, ty),
            },
    {
        match self.lookup(name) {
            Some(e) => e,
            None => HullExpr::var(span, name, ty),
        }
    }

    /// Hoists, ahead of an `if`, the `let`s that leak out of its branches:
    /// each one not hoisted yet gets a fresh `$if_local` local, recorded as
    /// predeclared and declared at the `let`'s span.
    pub fn predeclare_leaking_lets(&mut self, lets: &Vec<(Span, HullTy)>) -> (r: Vec<HullStmt>)
        requires
            old(self).fresh + lets@.len() <= usize::MAX,
        ensures
            ({
                let added = hoisted(lets@, predeclared_spans(old(self).predeclared_lets@), old(self).fresh as nat);
                &&& predeclared_view(final(self).predeclared_lets@) == predeclared_view(old(self).predeclared_lets@)
                    + added
                &&& final(self).fresh == old(self).fresh + added.len()
                &&& r@.len() == added.len()
                &&& forall|k: int| 0 <= k < added.len() ==> declares(#[trigger] r@[k], added[k].0, added[k].1, added[k].2)
            }),
            final(self).scopes == old(self).scopes,
    {
        let ghost lets0 = lets@;
        let ghost spans0 = predeclared_spans(self.predeclared_lets@);
        let ghost fresh0 = self.fresh as nat;
        let ghost pre0 = predeclared_view(self.predeclared_lets@);
        let mut out: Vec<HullStmt> = Vec::new();
        let mut i: usize = 0;
        proof {
            assert(lets0.skip(0) =~= lets0);
        }
        while i < lets.len()
            invariant
                lets@ == lets0,
                i <= lets0.len(),
                self.scopes == old(self).scopes,
                self.fresh + (lets0.len() - i) <= usize::MAX,
                ({
                    let done = predeclared_view(self.predeclared_lets@).skip(pre0.len() as int);
                    &&& predeclared_view(self.predeclared_lets@).take(pre0.len() as int) == pre0
                    &&& predeclared_view(self.predeclared_lets@).len() >= pre0.len()
                    &&& hoisted(lets0, spans0, fresh0) == done + hoisted(
                        lets0.skip(i as int),
                        predeclared_spans(self.predeclared_lets@),
                        self.fresh as nat,
                    )
                    &&& self.fresh == fresh0 + done.len()
                    &&& out@.len() == done.len()
                    &&& forall|k: int| 0 <= k < done.len() ==> declares(#[trigger] out@[k], done[k].0, done[k].1, done[k].2)
                }),
            decreases lets0.len() - i,
        {
            let span = lets[i].0;
            let ghost before = self.predeclared_lets@;
            let ghost rest = lets0.skip(i as int);
            proof {
                assert(rest[0] == lets0[i as int]);
                assert(rest.skip(1) =~= lets0.skip(i + 1));
            }
            let mut seen = false;
            let mut j: usize = 0;
            while j < self.predeclared_lets.len()
                invariant
                    j <= self.predeclared_lets@.len(),
                    self.predeclared_lets@ == before,
                    seen == exists|k: int| 0 <= k < j && #[trigger] before[k].span == span,
                decreases self.predeclared_lets@.len() - j,
            {
                if self.predeclared_lets[j].span == span {
                    seen = true;
                }
                j = j + 1;
            }
            proof {
                let spans = predeclared_spans(before);
                if seen {
                    let k = choose|k: int| 0 <= k < before.len() && #[trigger] before[k].span == span;
                    assert(spans[k] == span);
                } else {
                    assert forall|k: int| 0 <= k < spans.len() implies spans[k] != span by {
                        assert(spans[k] == before[k].span);
                    }
                }
                assert(seen == spans.contains(span));
            }
            if !seen {
                let ty = lets[i].1.duplicate();
                let backend_name = self.fresh_temp("if_local");
                let decl_ty = ty.duplicate();
                let stmt = HullStmt { span, kind: HullStmtKind::Let { name: backend_name.clone(), ty: decl_ty } };
                self.predeclared_lets.push(PredeclaredLet { span, backend_name, ty });
                proof {
                    let after = self.predeclared_lets@;
                    assert(predeclared_spans(after) =~= predeclared_spans(before).push(span));
                    assert(predeclared_view(after) =~= predeclared_view(before).push(
                        (span, stmt.kind->Let_name@, lets0[i as int].1),
                    ));
                    assert(predeclared_view(after).take(pre0.len() as int) =~= predeclared_view(before).take(
                        pre0.len() as int,
                    ));
                    assert(predeclared_view(after).skip(pre0.len() as int) =~= predeclared_view(before).skip(
                        pre0.len() as int,
                    ).push((span, stmt.kind->Let_name@, lets0[i as int].1)));
                }
                out.push(stmt);
            }
            i = i + 1;
        }
        proof {
            assert(lets0.skip(lets0.len() as int) =~= Seq::<(Span, HullTy)>::empty());
            assert(predeclared_view(self.predeclared_lets@) =~= pre0 + predeclared_view(self.predeclared_lets@).skip(
                pre0.len() as int,
            ));
        }
        out
    }

    /// The `match` that an `if` at `span` lowers to: on the condition
    /// `scrutinee` of sum type `target`, the right injection (true) runs
    /// `then_stmts` and the left (false) runs `else_stmts`, each alternative
    /// binding a fresh `$alt` name, the then-alternative's first.
    pub fn emit_if_match(
        &mut self,
        span: Span,
        target: HullTy,
        scrutinee: HullExpr,
        then_stmts: Vec<HullStmt>,
        else_stmts: Vec<HullStmt>,
    ) -> (r: HullStmt)
        requires
            old(self).fresh + 2 <= usize::MAX,
        ensures
            r.span == span,
            r.kind matches HullStmtKind::Match { target: t, scrutinee: s, alts } && t == target && s == scrutinee
                && alts@.len() == 2 && is_alt(alts@[0], span, HullCon::Inr, temp_name("alt"@, old(self).fresh as nat))
                && alts@[0].body == then_stmts && is_alt(
                alts@[1],
                span,
                HullCon::Inl,
                temp_name("alt"@, (old(self).fresh + 1) as nat),
            ) && alts@[1].body == else_stmts,
            final(self).fresh == old(self).fresh + 2,
            final(self).scopes == old(self).scopes,
            final(self).predeclared_lets == old(self).predeclared_lets,
    {
        let then_binder = self.fresh_temp("alt");
        let else_binder = self.fresh_temp("alt");
        let mut alts: Vec<HullAlt> = Vec::new();
        alts.push(HullAlt { span, con: HullCon::Inr, binder: then_binder, body: then_stmts });
        alts.push(HullAlt { span, con: HullCon::Inl, binder: else_binder, body: else_stmts });
        HullStmt { span, kind: HullStmtKind::Match { target, scrutinee, alts } }
    }
}

/// The scalar conversions that keep their one argument as a word.
pub open spec fn is_word_conversion(name: Seq<char>) -> bool {
    name == "uint256"@ || name == "uint"@ || name == "bytes32"@ || name == "address"@
}

/// The views of a sequence of expressions.
pub open spec fn views(s: Seq<HullExpr>) -> Seq<HExpr> {
    Seq::new(s.len(), |i: int| s[i]@)
}

/// The type of the second component of a pair type; any other type stands
/// for itself.
pub open spec fn second_ty(t: HullTy) -> HullTy {
    match t {
        HullTy::Pair(_, r) => *r,
        _ => t,
    }
}

/// The product of `elems` at `span` with type `target`: unit for none, the
/// element itself for one, else the pair of the first element and the
/// product of the rest, typed by the second component of `target`.
pub open spec fn product_v(span: Span, target: HullTy, elems: Seq<HExpr>) -> HExpr
    decreases elems.len(),
{
    if elems.len() == 0 {
        unit_expr(span)@
    } else if elems.len() == 1 {
        elems[0]
    } else {
        HExpr {
            span,
            ty: target,
            kind: HExprKind::Pair(Box::new(elems[0]), Box::new(product_v(span, second_ty(target), elems.skip(1)))),
        }
    }
}

fn second_ty_of(t: &HullTy) -> (r: HullTy)
    ensures
        r == second_ty(*t),
{
    match t {
        HullTy::Pair(_, r) => r.duplicate(),
        _ => t.duplicate(),
    }
}

/// Copies of the expressions.
pub fn duplicate_exprs(v: &Vec<HullExpr>) -> (r: Vec<HullExpr>)
    ensures
        views(r@) == views(v@),
{
    let mut out: Vec<HullExpr> = Vec::new();
    let mut i: usize = 0;
    while i < v.len()
        invariant
            i <= v@.len(),
            out@.len() == i,
            forall|k: int| 0 <= k < i ==> (#[trigger] out@[k])@ == v@[k]@,
        decreases v@.len() - i,
    {
        out.push(v[i].duplicate());
        i = i + 1;
    }
    assert(views(out@) =~= views(v@));
    out
}

/// Builds `product_v` over the emitted `elems`.
pub fn product_expr(span: Span, target: HullTy, elems: Vec<HullExpr>) -> (r: HullExpr)
    ensures
        r@ == product_v(span, target, views(elems@)),
    decreases elems@.len(),
{
    let mut elems = elems;
    if elems.len() == 0 {
        return HullExpr::unit(span);
    }
    if elems.len() == 1 {
        let ghost only = elems@[0];
        let e = elems.pop().unwrap();
        assert(e == only);
        return e;
    }
    let ghost before = elems@;
    let first = elems.remove(0);
    assert(views(elems@) =~= views(before).skip(1));
    let rest_ty = second_ty_of(&target);
    let rest = product_expr(span, rest_ty, elems);
    HullExpr { span, ty: target, kind: HullExprKind::Pair(Box::new(first), Box::new(rest)) }
}

/// How the constructor `name` (builtin `builtin`, if any) applied to the
/// emitted `args` lowers at `span` to a value of type `target` without an ADT
/// layout: unit is unit; `true` and `false` are the right and left injections
/// of unit; `inl`/`inr` of one argument inject it; a word conversion of one
/// argument is that argument retyped to `target`; a pair is the product of
/// its arguments typed `target`. `None` for ADT constructors, which take the
/// layout of their type (`emit_adt_constructor`).
pub open spec fn builtin_ctor_lowering(
    span: Span,
    target: HullTy,
    builtin: Option<MonoBuiltinCtor>,
    name: Seq<char>,
    args: Seq<HullExpr>,
) -> Option<HExpr> {
    let unit = unit_expr(span)@;
    match builtin {
        Some(MonoBuiltinCtor::Unit) => Some(unit),
        Some(MonoBuiltinCtor::Pair) => Some(product_v(span, target, views(args))),
        Some(MonoBuiltinCtor::True) => Some(HExpr { span, ty: target, kind: HExprKind::Inr(target, Box::new(unit)) }),
        Some(MonoBuiltinCtor::False) => Some(HExpr { span, ty: target, kind: HExprKind::Inl(target, Box::new(unit)) }),
        Some(MonoBuiltinCtor::Inl) if args.len() == 1 => Some(
            HExpr { span, ty: target, kind: HExprKind::Inl(target, Box::new(args[0]@)) },
        ),
        Some(MonoBuiltinCtor::Inr) if args.len() == 1 => Some(
            HExpr { span, ty: target, kind: HExprKind::Inr(target, Box::new(args[0]@)) },
        ),
        _ => if is_word_conversion(name) && args.len() == 1 {
            Some(HExpr { span: args[0]@.span, ty: target, kind: args[0]@.kind })
        } else {
            None
        },
    }
}

/// Lowers the constructor application `name(args)` as `builtin_ctor_lowering`
/// says, over the already emitted arguments.
pub fn emit_builtin_constructor(
    span: Span,
    target: HullTy,
    builtin: Option<MonoBuiltinCtor>,
    name: &str,
    args: &Vec<HullExpr>,
) -> (r: Option<HullExpr>)
    ensures
        match builtin_ctor_lowering(span, target, builtin, name@, args@) {
            Some(v) => r matches Some(e) && e@ == v,
            None => r is None,
        },
{
    match builtin {
        Some(MonoBuiltinCtor::Unit) => return Some(HullExpr::unit(span)),
        Some(MonoBuiltinCtor::Pair) => return Some(product_expr(span, target, duplicate_exprs(args))),
        Some(MonoBuiltinCtor::True) => {
            let value = Box::new(HullExpr::unit(span));
            let t = target.duplicate();
            return Some(HullExpr { span, ty: target, kind: HullExprKind::Inr { target: t, value } });
        },
        Some(MonoBuiltinCtor::False) => {
            let value = Box::new(HullExpr::unit(span));
            let t = target.duplicate();
            return Some(HullExpr { span, ty: target, kind: HullExprKind::Inl { target: t, value } });
        },
        Some(MonoBuiltinCtor::Inl) => {
            if args.len() == 1 {
                let value = Box::new(args[0].duplicate());
                let t = target.duplicate();
                return Some(HullExpr { span, ty: target, kind: HullExprKind::Inl { target: t, value } });
            }
        },
        Some(MonoBuiltinCtor::Inr) => {
            if args.len() == 1 {
                let value = Box::new(args[0].duplicate());
                let t = target.duplicate();
                return Some(HullExpr { span, ty: target, kind: HullExprKind::Inr { target: t, value } });
            }
        },
        None => {},
    }
    proof {
        reveal_strlit("uint256");
        reveal_strlit("uint");
        reveal_strlit("bytes32");
        reveal_strlit("address");
    }
    let conversion = str_eq(name, "uint256") || str_eq(name, "uint") || str_eq(name, "bytes32") || str_eq(
        name,
        "address",
    );
    if conversion && args.len() == 1 {
        let value = args[0].duplicate();
        Some(HullExpr { span: value.span, ty: target, kind: value.kind })
    } else {
        None
    }
}

/// The layout of one constructor of an ADT: its name and its payload type.
#[derive(Debug)]
pub struct CtorLayout {
    pub name: String,
    pub payload: HullTy,
}

/// The Hull layout of an ADT type: its name, the type its values take, and
/// its constructors in order.
#[derive(Debug)]
pub struct AdtLayout {
    pub name: String,
    pub target: HullTy,
    pub ctors: Vec<CtorLayout>,
}

/// Why an ADT constructor application could not be laid out.
#[derive(Debug)]
pub enum ConstructorProblem {
    /// No layout is known for the constructed type (displayed as `adt`).
    MissingAdtLayout { adt: String },
    /// The layout of `ty` has no constructor called `constructor`.
    MissingConstructor { constructor: String, ty: String },
}

/// A constructor application laid out for encoding: the ADT's value type,
/// the constructor's index among `count`, and the payload.
#[derive(Debug)]
pub struct LaidOutCtor {
    pub target: HullTy,
    pub index: usize,
    pub count: usize,
    pub payload: HullExpr,
}

/// The index of the first constructor called `name`, from `i` on.
pub open spec fn ctor_index_from(ctors: Seq<CtorLayout>, name: Seq<char>, i: int) -> Option<int>
    decreases ctors.len() - i,
{
    if !(0 <= i < ctors.len()) {
        None
    } else if ctors[i].name@ == name {
        Some(i)
    } else {
        ctor_index_from(ctors, name, i + 1)
    }
}

pub open spec fn ctor_index(ctors: Seq<CtorLayout>, name: Seq<char>) -> Option<int> {
    ctor_index_from(ctors, name, 0)
}

proof fn lemma_ctor_index_from(ctors: Seq<CtorLayout>, name: Seq<char>, i: int)
    requires
        0 <= i,
    ensures
        ctor_index_from(ctors, name, i) matches Some(k) ==> i <= k < ctors.len() && ctors[k].name@ == name,
    decreases ctors.len() - i,
{
    if 0 <= i < ctors.len() && ctors[i].name@ != name {
        lemma_ctor_index_from(ctors, name, i + 1);
    }
}

/// The application stayed the call `name(args)` at `span` of type `target`.
pub open spec fn kept_as_call(
    r: Result<LaidOutCtor, (HullExpr, ConstructorProblem)>,
    span: Span,
    target: HullTy,
    name: Seq<char>,
    args: Seq<HullExpr>,
) -> bool {
    r matches Err((e, _)) && is_call(e, span, target, name, args)
}

pub open spec fn missing_layout(p: ConstructorProblem, adt: Seq<char>) -> bool {
    p matches ConstructorProblem::MissingAdtLayout { adt: a } && a@ == adt
}

pub open spec fn missing_constructor(p: ConstructorProblem, name: Seq<char>, ty: Seq<char>) -> bool {
    p matches ConstructorProblem::MissingConstructor { constructor: c, ty: t } && c@ == name && t@ == ty
}

/// Lays out the ADT constructor application `name(args)` at `span`, over its
/// already emitted arguments, with the layout of its type, if one is known:
/// the constructor's index and count, and its payload, the product of the
/// arguments typed by the constructor's payload type. Without a layout, or
/// without a constructor of that name in it, the application stays a call
/// `name(args)` of type `target`, and the problem is returned with it.
pub fn emit_adt_constructor(
    layout: Option<&AdtLayout>,
    span: Span,
    target: HullTy,
    name: &str,
    adt_text: &str,
    args: Vec<HullExpr>,
) -> (r: Result<LaidOutCtor, (HullExpr, ConstructorProblem)>)
    ensures
        match layout {
            None => {
                &&& kept_as_call(r, span, target, name@, args@)
                &&& r matches Err((_, p)) && missing_layout(p, adt_text@)
            },
            Some(l) => match ctor_index(l.ctors@, name@) {
                None => {
                    &&& kept_as_call(r, span, target, name@, args@)
                    &&& r matches Err((_, p)) && missing_constructor(p, name@, l.name@)
                },
                Some(i) => r matches Ok(c) && c.target == l.target && c.index == i && c.count == l.ctors@.len()
                    && c.payload@ == product_v(span, l.ctors@[i].payload, views(args@)),
            },
        },
{
    let l = match layout {
        Some(l) => l,
        None => {
            let call = HullExpr { span, ty: target, kind: HullExprKind::Call { callee: string_of(name), args } };
            return Err((call, ConstructorProblem::MissingAdtLayout { adt: string_of(adt_text) }));
        },
    };
    proof {
        lemma_ctor_index_from(l.ctors@, name@, 0);
    }
    let mut i: usize = 0;
    while i < l.ctors.len()
        invariant
            layout == Some(l),
            i <= l.ctors@.len(),
            ctor_index(l.ctors@, name@) == ctor_index_from(l.ctors@, name@, i as int),
        decreases l.ctors@.len() - i,
    {
        if str_eq(l.ctors[i].name.as_str(), name) {
            assert(ctor_index(l.ctors@, name@) == Some(i as int));
            let payload = product_expr(span, l.ctors[i].payload.duplicate(), args);
            let laid = LaidOutCtor { target: l.target.duplicate(), index: i, count: l.ctors.len(), payload };
            return Ok(laid);
        }
        i = i + 1;
    }
    let call = HullExpr { span, ty: target, kind: HullExprKind::Call { callee: string_of(name), args } };
    Err((call, ConstructorProblem::MissingConstructor { constructor: string_of(name), ty: l.name.clone() }))
}

/// The name a call is emitted under: an intrinsic's own name, else the callee's.
pub open spec fn call_text(origin: MonoCallOrigin, callee: Seq<char>) -> Seq<char> {
    match origin {
        MonoCallOrigin::Builtin(i) => intrinsic_text(i),
        _ => callee,
    }
}

/// Lowers the call `callee(args)` at `span` with type `ty`, over its already
/// emitted arguments.
pub fn emit_call_expr(span: Span, ty: HullTy, origin: &MonoCallOrigin, callee: &str, args: Vec<HullExpr>) -> (r: HullExpr)
    ensures
        is_call(r, span, ty, call_text(*origin, callee@), args@),
{
    HullExpr { span, ty, kind: HullExprKind::Call { callee: call_name(origin, callee), args } }
}

/// Lowers `if cond { then_expr } else { else_expr }` at `span` with type `ty`,
/// over its already emitted parts, branching with target `ty`.
pub fn emit_if_expr(span: Span, ty: HullTy, cond: HullExpr, then_expr: HullExpr, else_expr: HullExpr) -> (r: HullExpr)
    ensures
        r == (HullExpr {
            span,
            ty,
            kind: HullExprKind::If {
                target: ty,
                cond: Box::new(cond),
                then_expr: Box::new(then_expr),
                else_expr: Box::new(else_expr),
            },
        }),
{
    let target = ty.duplicate();
    HullExpr {
        span,
        ty,
        kind: HullExprKind::If {
            target,
            cond: Box::new(cond),
            then_expr: Box::new(then_expr),
            else_expr: Box::new(else_expr),
        },
    }
}

/// The literal bytes of `memStringFromLit(args)`: those of its one argument,
/// when that is a string literal.
pub open spec fn mem_string_bytes(args: Seq<MonoExpr>) -> Option<Seq<u8>> {
    if args.len() == 1 {
        decoded_literal_bytes(args[0])
    } else {
        None
    }
}

/// Lowers `memStringFromLit(args)` at `span` with type `ty`: a call, with no
/// arguments, of the helper that materializes the bytes of the one string
/// literal argument, registered as `registration` says. Any other argument
/// list lowers to `unsupported()` and is named by the second component.
pub fn emit_mem_string_from_lit(literals: &mut StringLiterals, span: Span, ty: HullTy, args: &Vec<MonoExpr>) -> (r: (
    HullExpr,
    Option<String>,
))
    requires
        old(literals).next_string_literal + old(literals).function_names@.len() < usize::MAX,
    ensures
        match mem_string_bytes(args@) {
            Some(bytes) => {
                &&& r.1 is None
                &&& r.0.span == span && r.0.ty == ty
                &&& r.0.kind matches HullExprKind::Call { callee, args: a } && a@.len() == 0 && registration(
                    *old(literals),
                    *final(literals),
                    span,
                    bytes,
                    callee@,
                ) && helper_for(final(literals).helpers@, bytes) == Some(callee@)
            },
            None => {
                &&& is_call(r.0, span, ty, "unsupported"@, Seq::empty())
                &&& r.1 matches Some(c) && c@ == "non-literal memStringFromLit call"@
                &&& *final(literals) == *old(literals)
            },
        },
{
    if args.len() == 1 {
        if let Some(bytes) = decoded_string_literal(&args[0]) {
            let ghost before = literals.helpers@;
            let ghost bytes_v = bytes@;
            let name = register_string_literal(literals, span, bytes);
            proof {
                if helper_for(before, bytes_v) is None {
                    let entry = literals.helpers@.last();
                    assert(literals.helpers@ == before.push(entry));
                    law_equal_literals_share_one_helper(before, entry, bytes_v);
                }
            }
            let call = HullExpr { span, ty, kind: HullExprKind::Call { callee: name, args: Vec::new() } };
            return (call, None);
        }
    }
    let unsupported = HullExpr {
        span,
        ty,
        kind: HullExprKind::Call { callee: string_of("unsupported"), args: Vec::new() },
    };
    (unsupported, Some(string_of("non-literal memStringFromLit call")))
}

/// Lowers a closure dispatch at `span` with type `ty` over its already
/// emitted arguments: a direct call of the module function that `callee`
/// names, else `unsupported()`, naming the construct in the second component.
pub fn emit_closure_dispatch(
    function_names: &Vec<String>,
    span: Span,
    ty: HullTy,
    callee: &MonoExpr,
    args: Vec<HullExpr>,
) -> (r: (HullExpr, Option<String>))
    ensures
        match callee_name(*callee) {
            Some(n) if strings_view(function_names@).contains(n) => r.1 is None && is_call(r.0, span, ty, n, args@),
            _ => {
                &&& is_call(r.0, span, ty, "unsupported"@, Seq::empty())
                &&& r.1 matches Some(c) && c@ == "closure dispatch"@
            },
        },
{
    match closure_callee_name(function_names, callee) {
        Some(name) => (HullExpr { span, ty, kind: HullExprKind::Call { callee: name, args } }, None),
        None => (
            HullExpr { span, ty, kind: HullExprKind::Call { callee: string_of("unsupported"), args: Vec::new() } },
            Some(string_of("closure dispatch")),
        ),
    }
}

impl Emitter {
    /// Lowers the memory array read `base[index]` at `span` with type `ty`,
    /// over its already emitted operands, to a call of the bounds-checked
    /// helper `__solcore_memory_array_index`, which the module then needs.
    pub fn emit_memory_array_index(&mut self, span: Span, ty: HullTy, base: HullExpr, index: HullExpr) -> (r: HullExpr)
        ensures
            is_call(r, span, ty, "__solcore_memory_array_index"@, seq![base, index]),
            final(self).memory_array_index_used,
            final(self).scopes == old(self).scopes,
            final(self).predeclared_lets == old(self).predeclared_lets,
            final(self).fresh == old(self).fresh,
    {
        self.memory_array_index_used = true;
        let args = vec![base, index];
        assert(args@ =~= seq![base, index]);
        HullExpr {
            span,
            ty,
            kind: HullExprKind::Call { callee: string_of("__solcore_memory_array_index"), args },
        }
    }
}

/// Lowers `for (init; cond; post) { body }` at `span` over its already
/// emitted parts. A `for` opens no scope of its own in the source language,
/// so the initializer is hoisted ahead of the loop, which keeps an empty
/// initializer.
pub fn emit_for_stmt(
    span: Span,
    init: Vec<HullStmt>,
    cond: HullExpr,
    post: Vec<HullStmt>,
    body: Vec<HullStmt>,
) -> (r: Vec<HullStmt>)
    ensures
        r@.len() == init@.len() + 1,
        r@.drop_last() == init@,
        r@.last().span == span,
        r@.last().kind matches HullStmtKind::For { init: i, cond: c, post: p, body: b } && i@.len() == 0 && c == cond
            && p == post && b == body,
{
    let mut out = init;
    let ghost hoisted = out@;
    out.push(HullStmt { span, kind: HullStmtKind::For { init: Vec::new(), cond, post, body } });
    assert(out@.drop_last() =~= hoisted);
    out
}

/// Lowers `return expr;` at `span` over its already emitted value; a bare
/// `return` returns unit at `span`.
pub fn emit_return(span: Span, value: Option<HullExpr>) -> (r: Vec<HullStmt>)
    ensures
        r@.len() == 1,
        r@[0].span == span,
        r@[0].kind matches HullStmtKind::Return(e) && match value {
            Some(v) => e == v,
            None => e == crate::emit::unit_expr(span),
        },
{
    let e = match value {
        Some(v) => v,
        None => HullExpr::unit(span),
    };
    let mut out: Vec<HullStmt> = Vec::new();
    out.push(HullStmt { span, kind: HullStmtKind::Return(e) });
    out
}

/// Lowers an expression statement at `span` over its already emitted value.
pub fn emit_expr_stmt(span: Span, value: HullExpr) -> (r: Vec<HullStmt>)
    ensures
        r@.len() == 1,
        r@[0].span == span,
        r@[0].kind matches HullStmtKind::Expr(e) && e == value,
{
    let mut out: Vec<HullStmt> = Vec::new();
    out.push(HullStmt { span, kind: HullStmtKind::Expr(value) });
    out
}

} // verus!
