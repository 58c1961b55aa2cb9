use solcore::diag::Span;
use solcore::emit::{
    bin_op_name, call_name, closure_callee_name, collect_leaking_let_stmts, decode_string_literal,
    decoded_string_literal, emit_bin_op, if_stmt_spans, FrontendTransform, emit_unary_op, expr_reads_var, intrinsic_name, lookup_expr, mono_expr_name,
    string_literal_layout, HullExpr, HullExprKind, HullTy, LitKind, MonoCallOrigin, MonoExpr, MonoExprKind, MonoIntrinsic, MonoStmt,
    MonoStmtKind,
};
use solcore::ops::{AssignOp, BinOp, UnOp};
use solcore::yul::{
    assign_op_callee, emit_assign_op, emit_assign_stmt, memory_array_index_function, register_string_literal,
    string_literal_function, HullStmt, HullStmtKind,
    StringLiterals, YulExpr, YulStmt,
};

fn span(start: usize, end: usize) -> Span {
    Span { start, end }
}

fn var(name: &str) -> HullExpr {
    HullExpr::var(span(0, 1), name, HullTy::Word)
}

fn word(text: &str) -> HullExpr {
    HullExpr::new(span(0, 1), HullTy::Word, HullExprKind::Word(text.to_owned()))
}

fn node(kind: HullExprKind) -> HullExpr {
    HullExpr::new(span(0, 1), HullTy::Word, kind)
}

fn show(e: &HullExpr) -> String {
    match &e.kind {
        HullExprKind::Var(v) => v.clone(),
        HullExprKind::Pair(a, b) => format!("({}, {})", show(a), show(b)),
        HullExprKind::Fst(a) => format!("fst {}", show(a)),
        HullExprKind::Snd(a) => format!("snd {}", show(a)),
        HullExprKind::Inl { value, .. } => format!("inl {}", show(value)),
        HullExprKind::Inr { value, .. } => format!("inr {}", show(value)),
        HullExprKind::InK(a) => format!("ink {}", show(a)),
        HullExprKind::Call { callee, args } => {
            format!("{}({})", callee, args.iter().map(show).collect::<Vec<_>>().join(", "))
        }
        HullExprKind::If { cond, then_expr, else_expr, .. } => {
            format!("if {} then {} else {}", show(cond), show(then_expr), show(else_expr))
        }
        HullExprKind::Word(w) => w.clone(),
        HullExprKind::Bool(b) => b.to_string(),
        HullExprKind::Unit => "()".to_owned(),
    }
}

fn bool_ty() -> HullTy {
    HullTy::Sum(Box::new(HullTy::Unit), Box::new(HullTy::Unit))
}

fn mono(kind: MonoExprKind) -> MonoExpr {
    MonoExpr { span: span(0, 1), kind }
}

#[test]
fn layout_uses_utf8_bytes_and_word_boundaries() {
    assert_eq!(string_literal_layout(b""), (Vec::new(), 32));

    let (words, total) = string_literal_layout("é".as_bytes());
    assert_eq!(words.len(), 1);
    assert_eq!(words[0].len(), 66);
    assert!(words[0].starts_with("0xc3a9"));
    assert!(words[0].ends_with(&"0".repeat(60)));
    assert_eq!(total, 64);

    let exact = vec![b'a'; 32];
    let (words, total) = string_literal_layout(&exact);
    assert_eq!(words, vec![format!("0x{}", "61".repeat(32))]);
    assert_eq!(total, 64);

    let mut spill = vec![b'a'; 32];
    spill.push(b'b');
    let (words, total) = string_literal_layout(&spill);
    assert_eq!(words.len(), 2);
    assert_eq!(words[0], format!("0x{}", "61".repeat(32)));
    assert_eq!(words[1], format!("0x62{}", "00".repeat(31)));
    assert_eq!(total, 96);
}

#[test]
fn source_escapes_are_decoded_before_materialization() {
    assert_eq!(
        decode_string_literal("\"a\\n\\t\\\"\\\\b\"").as_deref(),
        Some("a\n\t\"\\b")
    );
    assert_eq!(
        decode_string_literal("\"before\\qafter\"").as_deref(),
        Some("beforeqafter")
    );
    assert_eq!(decode_string_literal("not quoted"), None);
}

#[test]
fn decoding_keeps_a_trailing_lone_backslash_and_maps_nul_and_carriage_return() {
    assert_eq!(decode_string_literal("\"x\\\"").as_deref(), Some("x\\"));
    assert_eq!(decode_string_literal("\"\\0\\r\"").as_deref(), Some("\0\r"));
    assert_eq!(decode_string_literal("\"\"").as_deref(), Some(""));
    assert_eq!(decode_string_literal("\""), None);
}

#[test]
fn plain_literal_decodes_to_its_contents() {
    assert_eq!(decode_string_literal("\"hello, world\"").as_deref(), Some("hello, world"));
}

#[test]
fn decoded_string_literal_reads_only_string_literals() {
    let lit = mono(MonoExprKind::Lit(LitKind::String("\"a\\tb\"".to_owned())));
    assert_eq!(decoded_string_literal(&lit), Some(b"a\tb".to_vec()));
    let number = mono(MonoExprKind::Lit(LitKind::Number("7".to_owned())));
    assert_eq!(decoded_string_literal(&number), None);
}

#[test]
fn binary_operators_lower_to_word_primitives() {
    let at = span(4, 9);
    let (e, diag) = emit_bin_op(at, HullTy::Word, var("a"), BinOp::Add, var("b"));
    assert!(diag.is_none());
    assert_eq!(show(&e), "add(a, b)");
    assert_eq!((e.span, &e.ty), (at, &HullTy::Word));

    let (e, _) = emit_bin_op(at, bool_ty(), var("a"), BinOp::Eq, var("b"));
    assert_eq!(show(&e), "primEqWord(a, b)");
    assert_eq!(e.ty, bool_ty());
    match &e.kind {
        HullExprKind::Call { args, .. } => assert_eq!(args[0].span, span(0, 1)),
        other => panic!("unexpected {other:?}"),
    }
}

#[test]
fn negated_comparisons_wrap_the_opposite_primitive_in_iszero() {
    let at = span(2, 7);
    let (e, _) = emit_bin_op(at, bool_ty(), var("a"), BinOp::NotEq, var("b"));
    assert_eq!(show(&e), "iszero(primEqWord(a, b))");
    let (e, _) = emit_bin_op(at, bool_ty(), var("a"), BinOp::LtEq, var("b"));
    assert_eq!(show(&e), "iszero(gt(a, b))");
    let (e, _) = emit_bin_op(at, bool_ty(), var("a"), BinOp::GtEq, var("b"));
    assert_eq!(show(&e), "iszero(lt(a, b))");
    assert_eq!((e.span, &e.ty), (at, &bool_ty()));
    match &e.kind {
        HullExprKind::Call { args, .. } => assert_eq!((args[0].span, &args[0].ty), (at, &bool_ty())),
        other => panic!("unexpected {other:?}"),
    }
}

#[test]
fn short_circuit_operators_branch_on_the_left_operand() {
    let at = span(1, 8);
    let (e, _) = emit_bin_op(at, bool_ty(), var("a"), BinOp::And, var("b"));
    assert_eq!(show(&e), "if a then b else false");
    match &e.kind {
        HullExprKind::If { target, else_expr, .. } => {
            assert_eq!(target, &bool_ty());
            assert_eq!((else_expr.span, &else_expr.ty), (at, &bool_ty()));
        }
        other => panic!("unexpected {other:?}"),
    }
    let (e, _) = emit_bin_op(at, bool_ty(), var("a"), BinOp::Or, var("b"));
    assert_eq!(show(&e), "if a then true else b");
    assert_eq!((e.span, &e.ty), (at, &bool_ty()));
}

#[test]
fn erroneous_binary_operator_is_reported_as_unsupported() {
    let (e, diag) = emit_bin_op(span(0, 3), HullTy::Word, var("a"), BinOp::Error, var("b"));
    assert_eq!(show(&e), "unsupported()");
    assert_eq!(e.span, span(0, 3));
    assert_eq!(diag.as_deref(), Some("binary operator Error"));
}

#[test]
fn unary_operators_lower_to_branches_and_not() {
    let at = span(5, 6);
    let (e, diag) = emit_unary_op(at, bool_ty(), UnOp::Not, var("x"));
    assert!(diag.is_none());
    assert_eq!(show(&e), "if x then inl () else inr ()");
    match &e.kind {
        HullExprKind::If { target, then_expr, else_expr, .. } => {
            assert_eq!(target, &bool_ty());
            for branch in [then_expr, else_expr] {
                assert_eq!((branch.span, &branch.ty), (at, &bool_ty()));
                match &branch.kind {
                    HullExprKind::Inl { target, value } | HullExprKind::Inr { target, value } => {
                        assert_eq!(target, &bool_ty());
                        assert_eq!((value.span, &value.ty), (at, &HullTy::Unit));
                    }
                    other => panic!("unexpected {other:?}"),
                }
            }
        }
        other => panic!("unexpected {other:?}"),
    }
    let (e, _) = emit_unary_op(at, HullTy::Word, UnOp::BitNot, var("x"));
    assert_eq!(show(&e), "not(x)");
    assert_eq!((e.span, &e.ty), (at, &HullTy::Word));
    let (e, diag) = emit_unary_op(at, HullTy::Word, UnOp::Error, var("x"));
    assert_eq!(show(&e), "unsupported()");
    assert_eq!(diag.as_deref(), Some("unary error"));
}

#[test]
fn bin_op_names_cover_the_direct_word_primitives() {
    assert_eq!(bin_op_name(BinOp::BitAnd), Some("and"));
    assert_eq!(bin_op_name(BinOp::BitXor), Some("xor"));
    assert_eq!(bin_op_name(BinOp::Mod), Some("mod"));
    assert_eq!(bin_op_name(BinOp::Gt), Some("gt"));
    assert_eq!(bin_op_name(BinOp::NotEq), None);
    assert_eq!(bin_op_name(BinOp::And), None);
}

#[test]
fn builtin_calls_use_the_intrinsic_name() {
    assert_eq!(intrinsic_name(MonoIntrinsic::KeccakWordLit), "keccakWordLit");
    assert_eq!(call_name(&MonoCallOrigin::Builtin(MonoIntrinsic::PrimAddWord), "f"), "primAddWord");
    assert_eq!(call_name(&MonoCallOrigin::ByName, "f"), "f");
}

#[test]
fn expression_names_describe_the_construct() {
    assert_eq!(mono_expr_name(&MonoExprKind::ClosureDispatch), "closure dispatch");
    assert_eq!(mono_expr_name(&MonoExprKind::Lambda { name: "l".to_owned() }), "lambda expression");
}

#[test]
fn reads_var_looks_through_calls_pairs_and_branches() {
    let e = node(HullExprKind::Call {
        callee: "f".to_owned(),
        args: vec![
            word("1"),
            node(HullExprKind::Pair(
                Box::new(HullExpr::unit(span(0, 1))),
                Box::new(node(HullExprKind::Fst(Box::new(var("x"))))),
            )),
        ],
    });
    assert!(expr_reads_var(&e, "x"));
    assert!(!expr_reads_var(&e, "y"));
    let branch = node(HullExprKind::If {
        target: HullTy::Word,
        cond: Box::new(node(HullExprKind::Bool(true))),
        then_expr: Box::new(HullExpr::unit(span(0, 1))),
        else_expr: Box::new(node(HullExprKind::InK(Box::new(var("y"))))),
    });
    assert!(expr_reads_var(&branch, "y"));
    let injected = node(HullExprKind::Inr { target: bool_ty(), value: Box::new(var("z")) });
    assert!(expr_reads_var(&injected, "z"));
    assert!(!expr_reads_var(&word("x"), "x"));
}

#[test]
fn closure_calls_dispatch_only_to_module_functions() {
    let names = vec!["f".to_owned(), "lam".to_owned()];
    let direct = mono(MonoExprKind::Var("f".to_owned()));
    assert_eq!(closure_callee_name(&names, &direct).as_deref(), Some("f"));
    let annotated = mono(MonoExprKind::TypeAnnot {
        expr: Box::new(mono(MonoExprKind::Lambda { name: "lam".to_owned() })),
    });
    assert_eq!(closure_callee_name(&names, &annotated).as_deref(), Some("lam"));
    let unknown = mono(MonoExprKind::Var("g".to_owned()));
    assert_eq!(closure_callee_name(&names, &unknown), None);
    let other = mono(MonoExprKind::Error);
    assert_eq!(closure_callee_name(&names, &other), None);
}

fn let_stmt(name: &str, start: usize) -> MonoStmt {
    MonoStmt { span: span(start, start + 1), kind: MonoStmtKind::Let { name: name.to_owned() } }
}

#[test]
fn leaking_lets_are_collected_from_unscoped_statements() {
    let stmts = vec![
        let_stmt("a", 0),
        MonoStmt {
            span: span(2, 9),
            kind: MonoStmtKind::If { then_body: vec![let_stmt("b", 3)], else_body: Some(vec![let_stmt("c", 5)]) },
        },
        MonoStmt { span: span(10, 12), kind: MonoStmtKind::Block(vec![let_stmt("hidden", 11)]) },
        MonoStmt {
            span: span(13, 20),
            kind: MonoStmtKind::For { init: vec![let_stmt("i", 14)], post: Vec::new(), body: vec![let_stmt("d", 16)] },
        },
        MonoStmt { span: span(21, 25), kind: MonoStmtKind::Match { arms: vec![vec![let_stmt("arm", 22)]] } },
    ];
    let mut out = Vec::new();
    collect_leaking_let_stmts(&stmts, &mut out);
    let names: Vec<&str> = out
        .iter()
        .map(|s| match &s.kind {
            MonoStmtKind::Let { name } => name.as_str(),
            _ => unreachable!(),
        })
        .collect();
    assert_eq!(names, vec!["a", "b", "c", "i", "d"]);
}

fn yul_text(e: &YulExpr) -> String {
    match e {
        YulExpr::Ident(n) | YulExpr::Number(n) => n.clone(),
        YulExpr::Call { name, args } => {
            let inner: Vec<String> = args.iter().map(yul_text).collect();
            format!("{}({})", name, inner.join(","))
        }
    }
}

fn stmt_text(s: &YulStmt) -> String {
    match s {
        YulStmt::Expr(e) => yul_text(e),
        YulStmt::Assign { name, value } => format!("{} := {}", name, yul_text(value)),
        YulStmt::If { cond, body } => {
            let inner: Vec<String> = body.iter().map(stmt_text).collect();
            format!("if {} {{ {} }}", yul_text(cond), inner.join("; "))
        }
    }
}

fn assembly_of(body: &[HullStmt]) -> Vec<String> {
    match &body[1].kind {
        HullStmtKind::Assembly(stmts) => stmts.iter().map(stmt_text).collect(),
        other => panic!("expected assembly, found {other:?}"),
    }
}

#[test]
fn string_literal_helper_stores_length_words_and_bumps_free_memory() {
    let f = string_literal_function(span(3, 9), "__strlit_0", b"hi");
    assert_eq!(f.name, "__strlit_0");
    assert!(f.args.is_empty());
    assert_eq!(f.ret, HullTy::Word);
    assert!(matches!(&f.body[0].kind, HullStmtKind::Let { name, ty: HullTy::Word } if name == "p"));
    assert!(f.body.iter().all(|stmt| stmt.span == span(3, 9)));
    match &f.body[2].kind {
        HullStmtKind::Return(e) => {
            assert_eq!(show(e), "p");
            assert_eq!((e.span, &e.ty), (span(3, 9), &HullTy::Word));
        }
        other => panic!("unexpected {other:?}"),
    }
    assert_eq!(
        assembly_of(&f.body),
        vec![
            "p := mload(0x40)".to_owned(),
            "mstore(p,2)".to_owned(),
            format!("mstore(add(p,32),0x6869{})", "00".repeat(30)),
            "mstore(0x40,add(p,64))".to_owned(),
        ]
    );
}

#[test]
fn string_literal_helper_for_two_words_uses_word_offsets() {
    let bytes = vec![b'z'; 40];
    let f = string_literal_function(span(0, 0), "lit", &bytes);
    let lines = assembly_of(&f.body);
    assert_eq!(lines.len(), 5);
    assert_eq!(lines[1], "mstore(p,40)");
    assert!(lines[2].starts_with("mstore(add(p,32),0x7a7a"));
    assert!(lines[3].starts_with("mstore(add(p,64),0x7a7a"));
    assert_eq!(lines[4], "mstore(0x40,add(p,96))");
}

#[test]
fn empty_string_literal_helper_stores_only_its_length() {
    let f = string_literal_function(span(0, 0), "empty", b"");
    assert_eq!(
        assembly_of(&f.body),
        vec!["p := mload(0x40)", "mstore(p,0)", "mstore(0x40,add(p,32))"]
    );
}

#[test]
fn memory_array_index_helper_checks_bounds_before_reading() {
    let f = memory_array_index_function(span(1, 2), "__solcore_memory_array_index");
    assert_eq!(f.name, "__solcore_memory_array_index");
    let args: Vec<&str> = f.args.iter().map(|a| a.name.as_str()).collect();
    assert_eq!(args, vec!["base", "index"]);
    assert_eq!(
        assembly_of(&f.body),
        vec![
            "if iszero(lt(index,mload(base))) { mstore(0,0xb4120f14); revert(28,4) }",
            "out := mload(add(add(base,32),mul(index,32)))",
        ]
    );
    assert!(matches!(&f.body[2].kind, HullStmtKind::Return(e) if show(e) == "out" && e.span == span(1, 2)));
    assert_eq!(f.args[1].ty, HullTy::Word);
}

#[test]
fn equal_literal_bytes_share_one_helper() {
    let mut literals = StringLiterals {
        helpers: Vec::new(),
        next_string_literal: 0,
        function_names: vec!["main".to_owned()],
    };
    let first = register_string_literal(&mut literals, span(0, 3), b"abc".to_vec());
    assert_eq!(first, "__strlit_0");
    let again = register_string_literal(&mut literals, span(9, 12), b"abc".to_vec());
    assert_eq!(again, "__strlit_0");
    assert_eq!(literals.helpers.len(), 1);
    assert_eq!(literals.next_string_literal, 1);
    let other = register_string_literal(&mut literals, span(20, 23), b"xyz".to_vec());
    assert_eq!(other, "__strlit_1");
    assert_eq!(literals.function_names, vec!["main", "__strlit_0", "__strlit_1"]);
}

#[test]
fn fresh_helper_names_skip_names_already_taken() {
    let mut literals = StringLiterals {
        helpers: Vec::new(),
        next_string_literal: 9,
        function_names: vec!["__strlit_9".to_owned(), "__strlit_10".to_owned()],
    };
    let name = register_string_literal(&mut literals, span(0, 1), b"q".to_vec());
    assert_eq!(name, "__strlit_11");
    assert_eq!(literals.next_string_literal, 12);
    assert_eq!(literals.helpers[0].1.name, "__strlit_11");
    assert_eq!(literals.helpers[0].1.span, span(0, 1));
}

#[test]
fn differently_spelled_literals_with_equal_bytes_share_a_helper() {
    let mut literals = StringLiterals { helpers: Vec::new(), next_string_literal: 0, function_names: Vec::new() };
    let a = decode_string_literal("\"\\q\"").unwrap().into_bytes();
    let b = decode_string_literal("\"q\"").unwrap().into_bytes();
    let first = register_string_literal(&mut literals, span(0, 4), a);
    let second = register_string_literal(&mut literals, span(5, 8), b);
    assert_eq!(first, second);
}

#[test]
fn compound_assignment_reads_and_writes_the_same_target() {
    let at = span(10, 16);
    let stmts = emit_assign_op(at, var("x"), "add", word("1"));
    assert_eq!(stmts.len(), 1);
    assert_eq!(stmts[0].span, at);
    match &stmts[0].kind {
        HullStmtKind::Assign { lhs, rhs } => {
            assert_eq!(show(lhs), "x");
            assert_eq!(show(rhs), "add(x, 1)");
            assert_eq!((rhs.span, &rhs.ty), (at, &HullTy::Word));
        }
        other => panic!("unexpected {other:?}"),
    }
}

#[test]
fn assignment_operators_pick_their_word_primitive() {
    assert_eq!(assign_op_callee(AssignOp::Plain), None);
    assert_eq!(assign_op_callee(AssignOp::Add), Some("add"));
    assert_eq!(assign_op_callee(AssignOp::BitXor), Some("xor"));
    assert_eq!(assign_op_callee(AssignOp::BitAnd), Some("and"));
    assert_eq!(assign_op_callee(AssignOp::Mod), Some("mod"));
    let at = span(3, 4);
    let plain = emit_assign_stmt(at, AssignOp::Plain, var("x"), word("7"));
    assert!(matches!(&plain[0].kind, HullStmtKind::Assign { lhs, rhs } if show(lhs) == "x" && show(rhs) == "7"));
    let compound = emit_assign_stmt(at, AssignOp::Div, var("x"), word("7"));
    assert!(matches!(&compound[0].kind, HullStmtKind::Assign { rhs, .. } if show(rhs) == "div(x, 7)"));
    assert_eq!(compound[0].span, at);
}

#[test]
fn duplicated_hull_expressions_are_equal_copies() {
    let e = node(HullExprKind::If {
        target: bool_ty(),
        cond: Box::new(node(HullExprKind::Call {
            callee: "f".to_owned(),
            args: vec![var("a"), node(HullExprKind::Bool(true))],
        })),
        then_expr: Box::new(node(HullExprKind::Snd(Box::new(var("p"))))),
        else_expr: Box::new(HullExpr::unit(span(0, 1))),
    });
    assert_eq!(format!("{:?}", e.duplicate()), format!("{e:?}"));
}

#[test]
fn names_resolve_in_the_innermost_scope_that_binds_them() {
    let scopes = vec![
        vec![("x".to_owned(), word("1")), ("y".to_owned(), word("2"))],
        vec![("x".to_owned(), var("$x3"))],
        Vec::new(),
    ];
    assert_eq!(lookup_expr(&scopes, "x").map(|e| show(&e)).as_deref(), Some("$x3"));
    assert_eq!(lookup_expr(&scopes, "y").map(|e| show(&e)).as_deref(), Some("2"));
    assert!(lookup_expr(&scopes, "z").is_none());
    assert!(lookup_expr(&Vec::new(), "x").is_none());
}

#[test]
fn lowered_if_statements_keep_their_source_spans_in_body_order() {
    let bodies = vec![
        vec![FrontendTransform::Other, FrontendTransform::IfStmtToMatch { origin: span(4, 9) }],
        Vec::new(),
        vec![FrontendTransform::IfStmtToMatch { origin: span(20, 30) }, FrontendTransform::IfStmtToMatch { origin: span(31, 40) }],
    ];
    assert_eq!(if_stmt_spans(&bodies), vec![span(4, 9), span(20, 30), span(31, 40)]);
    assert!(if_stmt_spans(&Vec::new()).is_empty());
}
