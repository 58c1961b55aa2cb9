use solcore::diag::Span;
use solcore::ops::{BinOp, UnOp};
use solcore::parse::{
    all_white_space, attach_adt_constructor_comments, attach_leading_comments, comment_has_code_before_it_on_line,
    comments_directly_after_introducer, comments_directly_before, line_break_count, ParsedAdtCtor, ParsedContractItem,
    ParsedContractItemKind, ParsedExpr, ParsedExprKind, ParsedMember, ParsedTopItem, ParsedTopItemKind, SourceComment,
};
use solcore::stmt::{
    assign_stmt_kind, compound_bin_op, validate_expression_statement_terminators, ParsedAssignOp, ParsedAssignTail,
    ParsedError, ParsedMatchArm, ParsedStmt, ParsedStmtKind,
};

fn span(start: usize, end: usize) -> Span {
    Span { start, end }
}

/// The comments of `source`: every `// ...` up to the end of its line.
fn comments_of(source: &str) -> Vec<SourceComment> {
    let bytes = source.as_bytes();
    let mut out = Vec::new();
    let mut i = 0;
    while i + 1 < bytes.len() {
        if bytes[i] == b'/' && bytes[i + 1] == b'/' {
            let start = i;
            while i < bytes.len() && bytes[i] != b'\n' {
                i += 1;
            }
            out.push(SourceComment { span: span(start, i) });
        } else {
            i += 1;
        }
    }
    out
}

fn texts<'a>(source: &'a str, comments: &[SourceComment]) -> Vec<&'a str> {
    comments.iter().map(|c| &source[c.span.start..c.span.end]).collect()
}

#[test]
fn line_breaks_count_crlf_once() {
    assert_eq!(line_break_count(b""), 0);
    assert_eq!(line_break_count(b"a\nb\r\nc\rd"), 3);
    assert_eq!(line_break_count(b"\n\n"), 2);
    assert_eq!(line_break_count(b"\r\r\n"), 2);
}

#[test]
fn white_space_includes_unicode_spaces() {
    let s = "a \t\u{00a0}\u{2003}b".as_bytes();
    assert!(all_white_space(s, 1, s.len() - 1));
    assert!(!all_white_space(s, 0, s.len()));
    assert!(all_white_space(s, 3, 3));
}

#[test]
fn adjacent_comments_attach_to_the_declaration() {
    let source = "// one\n// two\nfunction f() {}";
    let comments = comments_of(source);
    let start = source.find("function").unwrap();
    let attached = comments_directly_before(source.as_bytes(), &comments, start);
    assert_eq!(texts(source, &attached), vec!["// one", "// two"]);
}

#[test]
fn a_blank_line_separates_comments_from_the_declaration() {
    let source = "// far\n\n// near\nfunction f() {}";
    let comments = comments_of(source);
    let start = source.find("function").unwrap();
    let attached = comments_directly_before(source.as_bytes(), &comments, start);
    assert_eq!(texts(source, &attached), vec!["// near"]);

    let source = "// detached\n\nfunction f() {}";
    let comments = comments_of(source);
    let start = source.find("function").unwrap();
    assert!(comments_directly_before(source.as_bytes(), &comments, start).is_empty());
}

#[test]
fn a_comment_after_code_on_its_line_is_not_attached() {
    let source = "x = 1; // trailing\nfunction f() {}";
    let comments = comments_of(source);
    assert!(comment_has_code_before_it_on_line(source.as_bytes(), &comments, comments[0], None));
    let start = source.find("function").unwrap();
    assert!(comments_directly_before(source.as_bytes(), &comments, start).is_empty());
    let alone = "  // alone\nf";
    let alone_comments = comments_of(alone);
    assert!(!comment_has_code_before_it_on_line(alone.as_bytes(), &alone_comments, alone_comments[0], None));
}

#[test]
fn comments_after_a_constructor_introducer_attach_to_the_constructor() {
    let source = "data T =\n  // first\n  A\n  | // second\n  B;";
    let comments = comments_of(source);
    let eq = source.find('=').unwrap();
    let a = source.find("A\n").unwrap();
    let bar = source.find('|').unwrap();
    let b = source.find("B;").unwrap();
    let after_eq = comments_directly_after_introducer(source.as_bytes(), &comments, span(eq, eq + 1), a);
    assert_eq!(texts(source, &after_eq), vec!["// first"]);
    let mut ctors = vec![
        ParsedAdtCtor { span: span(a, a + 1), introducer: Some(span(eq, eq + 1)), leading_comments: Vec::new() },
        ParsedAdtCtor { span: span(b, b + 1), introducer: Some(span(bar, bar + 1)), leading_comments: Vec::new() },
    ];
    attach_adt_constructor_comments(source.as_bytes(), &comments, &mut ctors);
    assert_eq!(texts(source, &ctors[0].leading_comments), vec!["// first"]);
    assert_eq!(texts(source, &ctors[1].leading_comments), vec!["// second"]);
    assert_eq!(ctors[1].span, span(b, b + 1));
}

#[test]
fn comments_before_an_introducer_move_to_its_constructor() {
    let source = "data T = A\n  // about B\n  | B;";
    let comments = comments_of(source);
    let eq = source.find('=').unwrap();
    let a = source.find("A\n").unwrap();
    let bar = source.find('|').unwrap();
    let b = source.find("B;").unwrap();
    let mut ctors = vec![
        ParsedAdtCtor { span: span(a, a + 1), introducer: Some(span(eq, eq + 1)), leading_comments: Vec::new() },
        ParsedAdtCtor { span: span(b, b + 1), introducer: Some(span(bar, bar + 1)), leading_comments: Vec::new() },
    ];
    attach_adt_constructor_comments(source.as_bytes(), &comments, &mut ctors);
    assert!(ctors[0].leading_comments.is_empty());
    assert_eq!(texts(source, &ctors[1].leading_comments), vec!["// about B"]);
}

#[test]
fn leading_comments_reach_nested_declarations() {
    let source = "// the class\nclass C {\n  // method\n  function m();\n}\n// the contract\ncontract K {\n  // field\n  x: word;\n  // helper\n  function h() {}\n}";
    let comments = comments_of(source);
    let class_start = source.find("class C").unwrap();
    let method_start = source.find("function m").unwrap();
    let contract_start = source.find("contract K").unwrap();
    let field_start = source.find("x: word").unwrap();
    let helper_start = source.find("function h").unwrap();
    let mut items = vec![
        ParsedTopItem {
            span: span(class_start, class_start + 5),
            leading_comments: Vec::new(),
            kind: ParsedTopItemKind::Class {
                methods: vec![ParsedMember { span: span(method_start, method_start + 10), leading_comments: Vec::new() }],
            },
        },
        ParsedTopItem {
            span: span(contract_start, contract_start + 8),
            leading_comments: Vec::new(),
            kind: ParsedTopItemKind::Contract {
                fields: vec![ParsedMember { span: span(field_start, field_start + 1), leading_comments: Vec::new() }],
                items: vec![ParsedContractItem {
                    span: span(helper_start, helper_start + 10),
                    leading_comments: Vec::new(),
                    kind: ParsedContractItemKind::Function,
                }],
            },
        },
    ];
    attach_leading_comments(source.as_bytes(), &comments, &mut items);
    assert_eq!(texts(source, &items[0].leading_comments), vec!["// the class"]);
    match &items[0].kind {
        ParsedTopItemKind::Class { methods } => assert_eq!(texts(source, &methods[0].leading_comments), vec!["// method"]),
        other => panic!("unexpected {other:?}"),
    }
    assert_eq!(texts(source, &items[1].leading_comments), vec!["// the contract"]);
    match &items[1].kind {
        ParsedTopItemKind::Contract { fields, items } => {
            assert_eq!(texts(source, &fields[0].leading_comments), vec!["// field"]);
            assert_eq!(texts(source, &items[0].leading_comments), vec!["// helper"]);
            assert!(matches!(items[0].kind, ParsedContractItemKind::Function));
        }
        other => panic!("unexpected {other:?}"),
    }
}

fn name(n: &str, start: usize) -> ParsedExpr {
    ParsedExpr { span: span(start, start + n.len()), kind: ParsedExprKind::Name(n.to_owned()) }
}

fn expr_stmt(start: usize, trailing_semi: bool) -> ParsedStmt {
    ParsedStmt { span: span(start, start + 3), kind: ParsedStmtKind::Expr { expr: name("f", start), trailing_semi } }
}

#[test]
fn compound_operators_map_to_binary_operators() {
    assert_eq!(compound_bin_op(ParsedAssignOp::Eq), None);
    assert_eq!(compound_bin_op(ParsedAssignOp::AddEq), Some(BinOp::Add));
    assert_eq!(compound_bin_op(ParsedAssignOp::ModEq), Some(BinOp::Mod));
    assert_eq!(compound_bin_op(ParsedAssignOp::BitXorEq), Some(BinOp::BitXor));
}

#[test]
fn compound_assignment_lowers_to_plain_assignment_of_the_binary_expression() {
    let lhs = name("x", 0);
    let rhs = ParsedExpr { span: span(5, 6), kind: ParsedExprKind::Number("1".to_owned()) };
    let kind = assign_stmt_kind(lhs, Some(ParsedAssignTail::Binary { op: ParsedAssignOp::AddEq, op_span: span(2, 4), rhs }), true);
    match kind {
        ParsedStmtKind::Assign { op, lhs, rhs } => {
            assert_eq!(op, ParsedAssignOp::Eq);
            assert!(matches!(&lhs.kind, ParsedExprKind::Name(n) if n == "x"));
            assert_eq!(rhs.span, span(0, 6));
            match rhs.kind {
                ParsedExprKind::BinOp { lhs, bin_op, op_span, rhs } => {
                    assert_eq!(bin_op, BinOp::Add);
                    assert_eq!(op_span, span(2, 4));
                    assert!(matches!(&lhs.kind, ParsedExprKind::Name(n) if n == "x"));
                    assert!(matches!(&rhs.kind, ParsedExprKind::Number(n) if n == "1"));
                }
                other => panic!("unexpected {other:?}"),
            }
        }
        other => panic!("unexpected {other:?}"),
    }
}

#[test]
fn plain_assignment_keeps_its_right_hand_side() {
    let rhs = name("y", 4);
    let kind = assign_stmt_kind(name("x", 0), Some(ParsedAssignTail::Binary { op: ParsedAssignOp::Eq, op_span: span(2, 3), rhs }), true);
    match kind {
        ParsedStmtKind::Assign { op: ParsedAssignOp::Eq, rhs, .. } => {
            assert!(matches!(&rhs.kind, ParsedExprKind::Name(n) if n == "y"));
            assert_eq!(rhs.span, span(4, 5));
        }
        other => panic!("unexpected {other:?}"),
    }
}

#[test]
fn bit_not_assignment_negates_the_target() {
    let kind = assign_stmt_kind(name("x", 0), Some(ParsedAssignTail::BitNot(span(2, 4))), true);
    match kind {
        ParsedStmtKind::Assign { rhs, .. } => {
            assert_eq!(rhs.span, span(0, 4));
            assert!(matches!(
                &rhs.kind,
                ParsedExprKind::UnaryOp { un_op: UnOp::BitNot, op_span, expr } if *op_span == span(2, 4)
                    && matches!(&expr.kind, ParsedExprKind::Name(n) if n == "x")
            ));
        }
        other => panic!("unexpected {other:?}"),
    }
}

#[test]
fn without_a_tail_the_expression_is_a_statement() {
    let kind = assign_stmt_kind(name("f", 0), None, false);
    assert!(matches!(kind, ParsedStmtKind::Expr { trailing_semi: false, .. }));
}

#[test]
fn duplicated_expressions_are_deep_copies() {
    let call = ParsedExpr {
        span: span(0, 7),
        kind: ParsedExprKind::Call { callee: Box::new(name("g", 0)), args: vec![name("a", 2), name("b", 5)] },
    };
    let copy = call.duplicate();
    assert_eq!(format!("{copy:?}"), format!("{call:?}"));
}

fn errors_for(stmts: &Vec<ParsedStmt>, allow_final: bool) -> Vec<ParsedError> {
    let mut errors = Vec::new();
    validate_expression_statement_terminators(stmts, allow_final, &mut errors);
    errors
}

#[test]
fn only_the_root_tail_may_omit_its_semicolon() {
    let ok = vec![expr_stmt(2, true), expr_stmt(12, false)];
    assert!(errors_for(&ok, true).is_empty());

    let errors = errors_for(&ok, false);
    assert_eq!(errors.len(), 1);
    assert_eq!(errors[0].span, span(12, 15));
    assert_eq!(
        errors[0].message,
        "expression statement requires trailing `;`; only a final named function body expression may omit it"
    );

    let first_unterminated = vec![expr_stmt(2, false), expr_stmt(11, true)];
    let errors = errors_for(&first_unterminated, true);
    assert_eq!(errors.len(), 1);
    assert_eq!(errors[0].span, span(2, 5));
}

#[test]
fn nested_bodies_never_allow_an_unterminated_tail() {
    let branch = vec![ParsedStmt {
        span: span(2, 30),
        kind: ParsedStmtKind::If { then_body: vec![expr_stmt(16, false)], else_body: None },
    }];
    let errors = errors_for(&branch, true);
    assert_eq!(errors.len(), 1);
    assert_eq!(errors[0].span, span(16, 19));

    let block = vec![ParsedStmt { span: span(2, 16), kind: ParsedStmtKind::Block { body: vec![expr_stmt(4, false)] } }];
    assert_eq!(errors_for(&block, true).len(), 1);

    let arms = vec![ParsedStmt {
        span: span(2, 40),
        kind: ParsedStmtKind::Match {
            arms: vec![
                ParsedMatchArm { span: span(20, 30), body: vec![expr_stmt(27, false)] },
                ParsedMatchArm { span: span(31, 39), body: vec![expr_stmt(33, true)] },
            ],
        },
    }];
    let errors = errors_for(&arms, true);
    assert_eq!(errors.len(), 1);
    assert_eq!(errors[0].span, span(27, 30));

    let else_branch = vec![ParsedStmt {
        span: span(0, 40),
        kind: ParsedStmtKind::If { then_body: vec![expr_stmt(5, false)], else_body: Some(vec![expr_stmt(25, false)]) },
    }];
    let errors = errors_for(&else_branch, true);
    let spans: Vec<Span> = errors.iter().map(|e| e.span).collect();
    assert_eq!(spans, vec![span(5, 8), span(25, 28)]);
}

#[test]
fn existing_errors_stay_in_front() {
    let mut errors = vec![ParsedError { span: span(0, 1), message: "earlier".to_owned() }];
    let loop_body = vec![ParsedStmt { span: span(3, 20), kind: ParsedStmtKind::For { body: vec![expr_stmt(9, false)] } }];
    validate_expression_statement_terminators(&loop_body, true, &mut errors);
    assert_eq!(errors.len(), 2);
    assert_eq!(errors[0].message, "earlier");
    assert_eq!(errors[1].span, span(9, 12));
    let others = vec![ParsedStmt { span: span(0, 4), kind: ParsedStmtKind::Other }];
    validate_expression_statement_terminators(&others, false, &mut errors);
    assert_eq!(errors.len(), 2);
}
