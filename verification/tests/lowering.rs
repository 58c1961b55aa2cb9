use solcore::diag::Span;
use solcore::emit::{
    HullExpr, HullExprKind, HullTy, LitKind, MonoBuiltinCtor, MonoCallOrigin, MonoExpr, MonoExprKind, MonoIntrinsic,
};
use solcore::emitter::{
    emit_adt_constructor, product_expr, AdtLayout, ConstructorProblem, CtorLayout,
    emit_builtin_constructor, emit_call_expr, emit_closure_dispatch, emit_expr_stmt, emit_for_stmt, emit_if_expr,
    emit_mem_string_from_lit,
    emit_return, Emitter, PredeclaredLet,
};
use solcore::yul::{HullCon, HullStmt, HullStmtKind, StringLiterals};

fn span(start: usize, end: usize) -> Span {
    Span { start, end }
}

fn var(name: &str) -> HullExpr {
    HullExpr::var(span(0, 1), name, HullTy::Word)
}

fn call(callee: &str, args: Vec<HullExpr>) -> HullExpr {
    HullExpr::new(span(0, 1), HullTy::Word, HullExprKind::Call { callee: callee.to_owned(), args })
}

fn word(text: &str) -> HullExpr {
    HullExpr::new(span(0, 1), HullTy::Word, HullExprKind::Word(text.to_owned()))
}

fn show(e: &HullExpr) -> String {
    match &e.kind {
        HullExprKind::Var(v) => v.clone(),
        HullExprKind::Call { callee, args } => {
            format!("{}({})", callee, args.iter().map(show).collect::<Vec<_>>().join(", "))
        }
        HullExprKind::Word(w) => w.clone(),
        HullExprKind::Unit => "()".to_owned(),
        other => format!("{other:?}"),
    }
}

fn show_stmt(s: &HullStmt) -> String {
    match &s.kind {
        HullStmtKind::Let { name, .. } => format!("let {name}"),
        HullStmtKind::Assign { lhs, rhs } => format!("{} = {}", show(lhs), show(rhs)),
        HullStmtKind::Return(e) => format!("return {}", show(e)),
        HullStmtKind::Expr(e) => show(e),
        other => format!("{other:?}"),
    }
}

fn shown(stmts: &[HullStmt]) -> Vec<String> {
    stmts.iter().map(show_stmt).collect()
}

#[test]
fn fresh_temporaries_count_up() {
    let mut e = Emitter::new(Vec::new());
    assert_eq!(e.fresh_temp("let_init"), "$let_init0");
    assert_eq!(e.fresh_temp("alt"), "$alt1");
    assert_eq!(e.fresh, 2);
    assert_eq!(e.scopes.len(), 1);
}

#[test]
fn bindings_read_back_and_shadow_outer_scopes() {
    let mut e = Emitter::new(Vec::new());
    e.bind_expr("x".to_owned(), word("1"));
    e.bind_expr("y".to_owned(), word("2"));
    assert_eq!(e.lookup("x").map(|x| show(&x)).as_deref(), Some("1"));
    e.push_scope();
    e.bind_expr("x".to_owned(), var("$x7"));
    assert_eq!(e.lookup("x").map(|x| show(&x)).as_deref(), Some("$x7"));
    assert_eq!(e.lookup("y").map(|x| show(&x)).as_deref(), Some("2"));
    e.bind_expr("x".to_owned(), word("3"));
    assert_eq!(e.lookup("x").map(|x| show(&x)).as_deref(), Some("3"));
    e.pop_scope();
    assert_eq!(e.lookup("x").map(|x| show(&x)).as_deref(), Some("1"));
    assert!(e.lookup("z").is_none());
}

#[test]
fn variables_resolve_through_scope_or_stand_for_themselves() {
    let mut e = Emitter::new(Vec::new());
    e.bind_expr("a".to_owned(), var("$a0"));
    assert_eq!(show(&e.emit_var(span(4, 5), "a", HullTy::Word)), "$a0");
    let free = e.emit_var(span(4, 5), "b", bool_ty());
    assert_eq!(show(&free), "b");
    assert_eq!((free.span, free.ty), (span(4, 5), bool_ty()));
}

#[test]
fn let_declares_assigns_and_binds_the_local() {
    let mut e = Emitter::new(Vec::new());
    let out = e.emit_let(span(10, 20), "x", span(14, 15), HullTy::Word, Some(call("add", vec![var("y"), word("1")])));
    assert_eq!(shown(&out), vec!["let x", "x = add(y, 1)"]);
    assert!(out.iter().all(|s| s.span == span(10, 20)));
    assert_eq!(e.fresh, 0);
    let bound = e.lookup("x").unwrap();
    assert_eq!((show(&bound), bound.span), ("x".to_owned(), span(14, 15)));

    let out = e.emit_let(span(30, 36), "z", span(34, 35), HullTy::Word, None);
    assert_eq!(shown(&out), vec!["let z"]);
}

#[test]
fn let_whose_initializer_reads_its_name_goes_through_a_temporary() {
    let mut e = Emitter::new(Vec::new());
    e.fresh = 4;
    let out = e.emit_let(span(0, 12), "x", span(4, 5), HullTy::Word, Some(call("add", vec![var("x"), word("1")])));
    assert_eq!(
        shown(&out),
        vec!["let $let_init4", "$let_init4 = add(x, 1)", "let x", "x = $let_init4"]
    );
    assert_eq!(e.fresh, 5);
}

#[test]
fn hoisted_let_assigns_its_backend_local() {
    let hoisted = PredeclaredLet { span: span(40, 50), backend_name: "$if_local2".to_owned(), ty: HullTy::Word };
    let mut e = Emitter::new(vec![hoisted]);
    let out = e.emit_let(span(40, 50), "v", span(44, 45), HullTy::Word, Some(word("9")));
    assert_eq!(shown(&out), vec!["$if_local2 = 9"]);
    let bound = e.lookup("v").unwrap();
    assert_eq!((show(&bound), bound.span), ("$if_local2".to_owned(), span(44, 45)));
    let out = e.emit_let(span(40, 50), "w", span(46, 47), HullTy::Word, None);
    assert!(out.is_empty());
    assert_eq!(e.lookup("w").map(|x| show(&x)).as_deref(), Some("$if_local2"));
}

#[test]
fn leaking_lets_are_hoisted_once_each() {
    let already = PredeclaredLet { span: span(5, 6), backend_name: "$if_local0".to_owned(), ty: HullTy::Word };
    let mut e = Emitter::new(vec![already]);
    e.fresh = 1;
    let lets = vec![(span(1, 2), HullTy::Word), (span(5, 6), HullTy::Word), (span(1, 2), HullTy::Word), (span(8, 9), bool_ty())];
    let out = e.predeclare_leaking_lets(&lets);
    assert_eq!(shown(&out), vec!["let $if_local1", "let $if_local2"]);
    assert_eq!((out[0].span, out[1].span), (span(1, 2), span(8, 9)));
    assert!(matches!(&out[1].kind, HullStmtKind::Let { ty, .. } if *ty == bool_ty()));
    assert_eq!(e.fresh, 3);
    let names: Vec<&str> = e.predeclared_lets.iter().map(|p| p.backend_name.as_str()).collect();
    assert_eq!(names, vec!["$if_local0", "$if_local1", "$if_local2"]);
}

#[test]
fn if_lowers_to_a_match_on_the_condition() {
    let mut e = Emitter::new(Vec::new());
    e.fresh = 5;
    let bool_ty = HullTy::Sum(Box::new(HullTy::Unit), Box::new(HullTy::Unit));
    let then_stmts = emit_expr_stmt(span(3, 4), call("f", Vec::new()));
    let stmt = e.emit_if_match(span(0, 9), bool_ty, var("c"), then_stmts, Vec::new());
    assert_eq!(stmt.span, span(0, 9));
    match &stmt.kind {
        HullStmtKind::Match { target, scrutinee, alts } => {
            assert_eq!(target, &HullTy::Sum(Box::new(HullTy::Unit), Box::new(HullTy::Unit)));
            assert_eq!(show(scrutinee), "c");
            assert_eq!((alts[0].con, alts[0].binder.as_str()), (HullCon::Inr, "$alt5"));
            assert_eq!((alts[1].con, alts[1].binder.as_str()), (HullCon::Inl, "$alt6"));
            assert_eq!(shown(&alts[0].body), vec!["f()"]);
            assert!(alts[1].body.is_empty());
        }
        other => panic!("unexpected {other:?}"),
    }
    assert_eq!(e.fresh, 7);
}

#[test]
fn bare_return_returns_unit() {
    let out = emit_return(span(2, 9), None);
    assert_eq!(shown(&out), vec!["return ()"]);
    match &out[0].kind {
        HullStmtKind::Return(e) => assert_eq!((e.span, &e.ty), (span(2, 9), &HullTy::Unit)),
        other => panic!("unexpected {other:?}"),
    }
    assert_eq!(shown(&emit_return(span(2, 9), Some(var("r")))), vec!["return r"]);
}

fn bool_ty() -> HullTy {
    HullTy::Sum(Box::new(HullTy::Unit), Box::new(HullTy::Unit))
}

#[test]
fn builtin_constructors_lower_to_units_and_injections() {
    let at = span(6, 12);
    let none: Vec<HullExpr> = Vec::new();
    let unit = emit_builtin_constructor(at, bool_ty(), Some(MonoBuiltinCtor::Unit), "()", &none).unwrap();
    assert_eq!((unit.span, &unit.ty, show(&unit)), (at, &HullTy::Unit, "()".to_owned()));

    let t = emit_builtin_constructor(at, bool_ty(), Some(MonoBuiltinCtor::True), "true", &none).unwrap();
    match &t.kind {
        HullExprKind::Inr { target, value } => {
            assert_eq!(target, &bool_ty());
            assert_eq!((value.span, &value.ty), (at, &HullTy::Unit));
        }
        other => panic!("unexpected {other:?}"),
    }
    assert_eq!(t.ty, bool_ty());
    let f = emit_builtin_constructor(at, bool_ty(), Some(MonoBuiltinCtor::False), "false", &none).unwrap();
    assert!(matches!(f.kind, HullExprKind::Inl { .. }));

    let one = vec![var("v")];
    let left = emit_builtin_constructor(at, bool_ty(), Some(MonoBuiltinCtor::Inl), "inl", &one).unwrap();
    assert!(matches!(&left.kind, HullExprKind::Inl { value, .. } if show(value) == "v"));
    let right = emit_builtin_constructor(at, bool_ty(), Some(MonoBuiltinCtor::Inr), "inr", &one).unwrap();
    assert!(matches!(&right.kind, HullExprKind::Inr { value, .. } if show(value) == "v"));
    assert!(emit_builtin_constructor(at, bool_ty(), Some(MonoBuiltinCtor::Inl), "inl", &none).is_none());
}

#[test]
fn word_conversions_retype_their_argument_and_others_need_a_layout() {
    let at = span(0, 20);
    let arg = vec![HullExpr::new(span(8, 9), HullTy::Unit, HullExprKind::Word("7".to_owned()))];
    let value = emit_builtin_constructor(at, HullTy::Word, None, "address", &arg).unwrap();
    assert_eq!((value.span, &value.ty, show(&value)), (span(8, 9), &HullTy::Word, "7".to_owned()));
    assert!(emit_builtin_constructor(at, HullTy::Word, None, "uint256", &arg).is_some());
    assert!(emit_builtin_constructor(at, HullTy::Word, None, "Point", &arg).is_none());
    assert!(emit_builtin_constructor(at, HullTy::Word, None, "uint", &Vec::new()).is_none());
    let pair = vec![var("a"), var("b")];
    let pair_ty = HullTy::Pair(Box::new(HullTy::Word), Box::new(HullTy::Word));
    let p = emit_builtin_constructor(at, pair_ty, Some(MonoBuiltinCtor::Pair), "pair", &pair).unwrap();
    assert_eq!((p.span, &p.ty), (at, &HullTy::Pair(Box::new(HullTy::Word), Box::new(HullTy::Word))));
    assert!(matches!(&p.kind, HullExprKind::Pair(a, b) if show(a) == "a" && show(b) == "b"));
}

fn mono(kind: MonoExprKind) -> MonoExpr {
    MonoExpr { span: span(0, 1), kind }
}

#[test]
fn calls_use_the_intrinsic_name_or_the_callee() {
    let at = span(3, 8);
    let e = emit_call_expr(at, HullTy::Word, &MonoCallOrigin::ByName, "f", vec![var("a")]);
    assert_eq!((show(&e), e.span), ("f(a)".to_owned(), at));
    let e = emit_call_expr(at, HullTy::Word, &MonoCallOrigin::Builtin(MonoIntrinsic::PrimAddWord), "ignored", vec![var("a"), var("b")]);
    assert_eq!(show(&e), "primAddWord(a, b)");
}

#[test]
fn if_expressions_branch_with_their_own_type_as_target() {
    let e = emit_if_expr(span(1, 9), HullTy::Word, var("c"), word("1"), word("2"));
    match &e.kind {
        HullExprKind::If { target, cond, then_expr, else_expr } => {
            assert_eq!(target, &HullTy::Word);
            assert_eq!((show(cond), show(then_expr), show(else_expr)), ("c".to_owned(), "1".to_owned(), "2".to_owned()));
        }
        other => panic!("unexpected {other:?}"),
    }
    assert_eq!(e.span, span(1, 9));
}

#[test]
fn string_literal_conversions_call_one_shared_helper() {
    let mut literals = StringLiterals { helpers: Vec::new(), next_string_literal: 0, function_names: vec!["main".to_owned()] };
    let lit = vec![mono(MonoExprKind::Lit(LitKind::String("\"hi\"".to_owned())))];
    let (first, diag) = emit_mem_string_from_lit(&mut literals, span(2, 6), HullTy::Word, &lit);
    assert!(diag.is_none());
    assert_eq!(show(&first), "__strlit_0()");
    let (again, _) = emit_mem_string_from_lit(&mut literals, span(9, 13), HullTy::Word, &lit);
    assert_eq!(show(&again), "__strlit_0()");
    assert_eq!(literals.helpers.len(), 1);

    let number = vec![mono(MonoExprKind::Lit(LitKind::Number("7".to_owned())))];
    let (e, diag) = emit_mem_string_from_lit(&mut literals, span(0, 3), HullTy::Word, &number);
    assert_eq!(show(&e), "unsupported()");
    assert_eq!(diag.as_deref(), Some("non-literal memStringFromLit call"));
    assert_eq!(literals.helpers.len(), 1);
}

#[test]
fn closure_dispatch_calls_known_functions_only() {
    let names = vec!["f".to_owned()];
    let (e, diag) = emit_closure_dispatch(&names, span(0, 4), HullTy::Word, &mono(MonoExprKind::Var("f".to_owned())), vec![var("x")]);
    assert!(diag.is_none());
    assert_eq!(show(&e), "f(x)");
    let (e, diag) = emit_closure_dispatch(&names, span(0, 4), HullTy::Word, &mono(MonoExprKind::Var("g".to_owned())), vec![var("x")]);
    assert_eq!(show(&e), "unsupported()");
    assert_eq!(diag.as_deref(), Some("closure dispatch"));
}

#[test]
fn memory_array_reads_call_the_bounds_checked_helper() {
    let mut e = Emitter::new(Vec::new());
    assert!(!e.memory_array_index_used);
    let read = e.emit_memory_array_index(span(0, 7), HullTy::Word, var("xs"), var("i"));
    assert_eq!(show(&read), "__solcore_memory_array_index(xs, i)");
    assert!(e.memory_array_index_used);
}

#[test]
fn for_loops_hoist_their_initializer() {
    let mut e = Emitter::new(Vec::new());
    let init = e.emit_let(span(5, 14), "i", span(9, 10), HullTy::Word, Some(word("0")));
    let post = emit_expr_stmt(span(20, 23), call("inc", vec![var("i")]));
    let body = emit_expr_stmt(span(26, 30), call("f", vec![var("i")]));
    let out = emit_for_stmt(span(0, 32), init, call("lt", vec![var("i"), word("3")]), post, body);
    assert_eq!(shown(&out[..2]), vec!["let i", "i = 0"]);
    assert_eq!(out.len(), 3);
    assert_eq!(out[2].span, span(0, 32));
    match &out[2].kind {
        HullStmtKind::For { init, cond, post, body } => {
            assert!(init.is_empty());
            assert_eq!(show(cond), "lt(i, 3)");
            assert_eq!(shown(post), vec!["inc(i)"]);
            assert_eq!(shown(body), vec!["f(i)"]);
        }
        other => panic!("unexpected {other:?}"),
    }
}

#[test]
fn products_nest_pairs_to_the_right() {
    let at = span(0, 9);
    let ty = HullTy::Pair(
        Box::new(HullTy::Word),
        Box::new(HullTy::Pair(Box::new(HullTy::Word), Box::new(HullTy::Word))),
    );
    let p = product_expr(at, ty, vec![var("a"), var("b"), var("c")]);
    match &p.kind {
        HullExprKind::Pair(a, rest) => {
            assert_eq!(show(a), "a");
            assert_eq!(rest.ty, HullTy::Pair(Box::new(HullTy::Word), Box::new(HullTy::Word)));
            assert!(matches!(&rest.kind, HullExprKind::Pair(b, c) if show(b) == "b" && show(c) == "c"));
        }
        other => panic!("unexpected {other:?}"),
    }
    assert_eq!(show(&product_expr(at, HullTy::Word, vec![var("x")])), "x");
    assert_eq!(product_expr(at, HullTy::Word, Vec::new()).ty, HullTy::Unit);
}

fn option_layout() -> AdtLayout {
    AdtLayout {
        name: "Option".to_owned(),
        target: HullTy::Sum(Box::new(HullTy::Unit), Box::new(HullTy::Word)),
        ctors: vec![
            CtorLayout { name: "None".to_owned(), payload: HullTy::Unit },
            CtorLayout { name: "Some".to_owned(), payload: HullTy::Word },
        ],
    }
}

#[test]
fn adt_constructors_take_their_index_and_payload_from_the_layout() {
    let layout = option_layout();
    let laid = emit_adt_constructor(Some(&layout), span(2, 9), HullTy::Word, "Some", "Option<word>", vec![var("v")]).unwrap();
    assert_eq!((laid.index, laid.count), (1, 2));
    assert_eq!(laid.target, HullTy::Sum(Box::new(HullTy::Unit), Box::new(HullTy::Word)));
    assert_eq!(show(&laid.payload), "v");
    let none = emit_adt_constructor(Some(&layout), span(2, 9), HullTy::Word, "None", "Option<word>", Vec::new()).unwrap();
    assert_eq!((none.index, none.payload.ty), (0, HullTy::Unit));
}

#[test]
fn constructors_without_layout_stay_calls_and_are_reported() {
    let layout = option_layout();
    match emit_adt_constructor(Some(&layout), span(0, 4), HullTy::Word, "Other", "Option<word>", vec![var("v")]) {
        Err((call, ConstructorProblem::MissingConstructor { constructor, ty })) => {
            assert_eq!(show(&call), "Other(v)");
            assert_eq!((constructor.as_str(), ty.as_str()), ("Other", "Option"));
        }
        other => panic!("unexpected {other:?}"),
    }
    match emit_adt_constructor(None, span(0, 4), HullTy::Word, "Mk", "Thing", Vec::new()) {
        Err((call, ConstructorProblem::MissingAdtLayout { adt })) => {
            assert_eq!(show(&call), "Mk()");
            assert_eq!(adt, "Thing");
        }
        other => panic!("unexpected {other:?}"),
    }
}
