//! Statement-level rules of the body parser: how an assignment tail lowers
//! to a statement, and which expression statements must end in `;`.
use vstd::prelude::*;
use crate::diag::Span;
use crate::ops::{BinOp, UnOp};
use crate::parse::{ParsedExpr, ParsedExprKind, PExpr};

verus! {

/// An assignment operator as written in source.
#[derive(Clone, Copy, Debug, PartialEq, Eq, Hash, Structural)]
pub enum ParsedAssignOp {
    Eq,
    AddEq,
    SubEq,
    MulEq,
    DivEq,
    BitXorEq,
    BitAndEq,
    BitOrEq,
    ModEq,
}

/// What follows the left-hand side of an assignment statement.
#[derive(Debug)]
pub enum ParsedAssignTail {
    /// `op rhs`, where `op` is `=` or a compound operator such as `+=`.
    Binary { op: ParsedAssignOp, op_span: Span, rhs: ParsedExpr },
    /// `~=`, with the span of the operator.
    BitNot(Span),
}

/// A parsed statement, with the nested bodies that statement validation walks.
#[derive(Debug)]
pub struct ParsedStmt {
    pub span: Span,
    pub kind: ParsedStmtKind,
}

/// One `case` or `default` arm of a `match` statement.
#[derive(Debug)]
pub struct ParsedMatchArm {
    pub span: Span,
    pub body: Vec<ParsedStmt>,
}

#[derive(Debug)]
pub enum ParsedStmtKind {
    Expr { expr: ParsedExpr, trailing_semi: bool },
    Assign { op: ParsedAssignOp, lhs: ParsedExpr, rhs: ParsedExpr },
    Match { arms: Vec<ParsedMatchArm> },
    For { body: Vec<ParsedStmt> },
    Block { body: Vec<ParsedStmt> },
    If { then_body: Vec<ParsedStmt>, else_body: Option<Vec<ParsedStmt>> },
    /// `let`, `return`, `break`, `continue`, `assembly`, or a statement that
    /// failed to parse: none of them holds nested statements.
    Other,
}

/// A parse error with its span.
#[derive(Debug)]
pub struct ParsedError {
    pub span: Span,
    pub message: String,
}

/// The binary operator that a compound assignment applies, if any.
pub open spec fn compound_op(op: ParsedAssignOp) -> Option<BinOp> {
    match op {
        ParsedAssignOp::Eq => None,
        ParsedAssignOp::AddEq => Some(BinOp::Add),
        ParsedAssignOp::SubEq => Some(BinOp::Sub),
        ParsedAssignOp::MulEq => Some(BinOp::Mul),
        ParsedAssignOp::DivEq => Some(BinOp::Div),
        ParsedAssignOp::BitXorEq => Some(BinOp::BitXor),
        ParsedAssignOp::BitAndEq => Some(BinOp::BitAnd),
        ParsedAssignOp::BitOrEq => Some(BinOp::BitOr),
        ParsedAssignOp::ModEq => Some(BinOp::Mod),
    }
}

/// The binary operator of a compound assignment operator; `None` for `=`.
pub fn compound_bin_op(op: ParsedAssignOp) -> (r: Option<BinOp>)
    ensures
        r == compound_op(op),
{
    match op {
        ParsedAssignOp::Eq => None,
        ParsedAssignOp::AddEq => Some(BinOp::Add),
        ParsedAssignOp::SubEq => Some(BinOp::Sub),
        ParsedAssignOp::MulEq => Some(BinOp::Mul),
        ParsedAssignOp::DivEq => Some(BinOp::Div),
        ParsedAssignOp::BitXorEq => Some(BinOp::BitXor),
        ParsedAssignOp::BitAndEq => Some(BinOp::BitAnd),
        ParsedAssignOp::BitOrEq => Some(BinOp::BitOr),
        ParsedAssignOp::ModEq => Some(BinOp::Mod),
    }
}

/// The value that an assignment statement stores, as an expression over
/// `lhs`: `lhs op rhs` for a compound operator, `~lhs` for `~=`, and `rhs`
/// itself for `=`.
pub open spec fn assigned_value(lhs: ParsedExpr, tail: ParsedAssignTail) -> PExpr {
    match tail {
        ParsedAssignTail::Binary { op, op_span, rhs } => match compound_op(op) {
            None => rhs@,
            Some(b) => PExpr::BinOp(
                Span { start: lhs.span.start, end: rhs.span.end },
                Box::new(lhs@),
                b,
                op_span,
                Box::new(rhs@),
            ),
        },
        ParsedAssignTail::BitNot(op_span) => PExpr::UnaryOp(
            Span { start: lhs.span.start, end: op_span.end },
            UnOp::BitNot,
            op_span,
            Box::new(lhs@),
        ),
    }
}

/// Lowers an expression and its optional assignment tail to a statement.
/// Every assignment becomes a plain `=` whose right-hand side is
/// `assigned_value`; with no tail the expression is an expression statement.
pub fn assign_stmt_kind(lhs: ParsedExpr, tail: Option<ParsedAssignTail>, trailing_semi: bool) -> (r:
    ParsedStmtKind)
    ensures
        match tail {
            None => r matches ParsedStmtKind::Expr { expr, trailing_semi: t } && expr@ == lhs@
                && t == trailing_semi,
            Some(t) => r matches ParsedStmtKind::Assign { op, lhs: l, rhs } && op
                == ParsedAssignOp::Eq && l@ == lhs@ && rhs@ == assigned_value(lhs, t),
        },
{
    match tail {
        Some(ParsedAssignTail::Binary { op, op_span, rhs }) => {
            match compound_bin_op(op) {
                None => ParsedStmtKind::Assign { op: ParsedAssignOp::Eq, lhs, rhs },
                Some(bin_op) => {
                    let span = Span { start: lhs.span.start, end: rhs.span.end };
                    let lhs_read = lhs.duplicate();
                    let value = ParsedExpr {
                        span,
                        kind: ParsedExprKind::BinOp {
                            lhs: Box::new(lhs_read),
                            bin_op,
                            op_span,
                            rhs: Box::new(rhs),
                        },
                    };
                    ParsedStmtKind::Assign { op: ParsedAssignOp::Eq, lhs, rhs: value }
                },
            }
        },
        Some(ParsedAssignTail::BitNot(op_span)) => {
            let span = Span { start: lhs.span.start, end: op_span.end };
            let lhs_read = lhs.duplicate();
            let value = ParsedExpr {
                span,
                kind: ParsedExprKind::UnaryOp {
                    un_op: UnOp::BitNot,
                    op_span,
                    expr: Box::new(lhs_read),
                },
            };
            ParsedStmtKind::Assign { op: ParsedAssignOp::Eq, lhs, rhs: value }
        },
        None => ParsedStmtKind::Expr { expr: lhs, trailing_semi },
    }
}

/// The message of an unterminated expression statement.
pub open spec fn terminator_message() -> Seq<char> {
    "expression statement requires trailing `;`; only a final named function body expression may omit it"@
}

/// Spans of the unterminated expression statements in `stmt` and its nested
/// bodies, in source order; `tail_ok` says whether `stmt` may itself omit
/// its `;`.
pub open spec fn stmt_errors(stmt: ParsedStmt, tail_ok: bool) -> Seq<Span>
    decreases stmt, 0nat,
{
    match stmt.kind {
        ParsedStmtKind::Expr { trailing_semi, .. } => if !trailing_semi && !tail_ok {
            seq![stmt.span]
        } else {
            Seq::empty()
        },
        ParsedStmtKind::Match { arms } => arms_errors(arms@, arms@.len()),
        ParsedStmtKind::For { body } => body_errors(body@, false, body@.len()),
        ParsedStmtKind::Block { body } => body_errors(body@, false, body@.len()),
        ParsedStmtKind::If { then_body, else_body } => body_errors(then_body@, false, then_body@.len())
            + match else_body {
            Some(e) => body_errors(e@, false, e@.len()),
            None => Seq::empty(),
        },
        _ => Seq::empty(),
    }
}

/// Errors of the first `n` statements of a body; with `allow_final`, the
/// last statement of the body may omit its `;`.
pub open spec fn body_errors(s: Seq<ParsedStmt>, allow_final: bool, n: nat) -> Seq<Span>
    decreases s, n,
{
    if n == 0 || n > s.len() {
        Seq::empty()
    } else {
        body_errors(s, allow_final, (n - 1) as nat) + stmt_errors(s[n - 1], allow_final && n == s.len())
    }
}

/// Errors of the bodies of the first `n` match arms; no arm body may end in
/// an unterminated expression.
pub open spec fn arms_errors(arms: Seq<ParsedMatchArm>, n: nat) -> Seq<Span>
    decreases arms, n,
{
    if n == 0 || n > arms.len() {
        Seq::empty()
    } else {
        arms_errors(arms, (n - 1) as nat) + body_errors(arms[n - 1].body@, false, arms[n - 1].body@.len())
    }
}

/// `after` is `before` followed by one terminator error for each span of
/// `spans`, in order.
pub open spec fn reports(before: Seq<ParsedError>, after: Seq<ParsedError>, spans: Seq<Span>) -> bool {
    &&& after.len() == before.len() + spans.len()
    &&& forall|i: int| 0 <= i < before.len() ==> #[trigger] after[i] == before[i]
    &&& forall|k: int|
        0 <= k < spans.len() ==> (#[trigger] after[before.len() + k]).span == spans[k]
            && after[before.len() + k].message@ == terminator_message()
}

proof fn lemma_reports_trans(a: Seq<ParsedError>, b: Seq<ParsedError>, c: Seq<ParsedError>, s1: Seq<Span>, s2: Seq<Span>)
    requires
        reports(a, b, s1),
        reports(b, c, s2),
    ensures
        reports(a, c, s1 + s2),
{
    assert forall|k: int| 0 <= k < (s1 + s2).len() implies (#[trigger] c[a.len() + k]).span == (s1 + s2)[k]
        && c[a.len() + k].message@ == terminator_message() by {
        if k < s1.len() {
            assert(c[a.len() + k] == b[a.len() + k]);
        } else {
            assert(c[a.len() + k] == c[b.len() + (k - s1.len())]);
        }
    }
}

/// Reports the unterminated expression statements of `stmt`.
fn validate_stmt(stmt: &ParsedStmt, tail_ok: bool, errors: &mut Vec<ParsedError>)
    ensures
        reports(old(errors)@, final(errors)@, stmt_errors(*stmt, tail_ok)),
    decreases stmt,
{
    let ghost before = errors@;
    match &stmt.kind {
        ParsedStmtKind::Expr { trailing_semi, .. } => {
            if !*trailing_semi && !tail_ok {
                let message = String::from_str(
                    "expression statement requires trailing `;`; only a final named function body expression may omit it",
                );
                errors.push(ParsedError { span: stmt.span, message });
            }
        },
        ParsedStmtKind::Match { arms } => {
            validate_arms(arms, errors);
        },
        ParsedStmtKind::For { body } => {
            validate_expression_statement_terminators(body, false, errors);
        },
        ParsedStmtKind::Block { body } => {
            validate_expression_statement_terminators(body, false, errors);
        },
        ParsedStmtKind::If { then_body, else_body } => {
            validate_expression_statement_terminators(then_body, false, errors);
            let ghost mid = errors@;
            match else_body {
                Some(e) => {
                    validate_expression_statement_terminators(e, false, errors);
                    proof {
                        lemma_reports_trans(before, mid, errors@, body_errors(then_body@, false, then_body@.len()), body_errors(e@, false, e@.len()));
                    }
                },
                None => {
                    proof {
                        assert(body_errors(then_body@, false, then_body@.len()) + Seq::<Span>::empty() =~= body_errors(then_body@, false, then_body@.len()));
                    }
                },
            }
        },
        _ => {},
    }
}

/// Reports the unterminated expression statements of each arm body.
#[verifier::loop_isolation(false)]
fn validate_arms(arms: &Vec<ParsedMatchArm>, errors: &mut Vec<ParsedError>)
    ensures
        reports(old(errors)@, final(errors)@, arms_errors(arms@, arms@.len())),
    decreases arms,
{
    let ghost before = errors@;
    let mut i: usize = 0;
    while i < arms.len()
        invariant
            i <= arms@.len(),
            reports(before, errors@, arms_errors(arms@, i as nat)),
        decreases arms@.len() - i,
    {
        proof {
            assert(decreases_to!(arms => arms@));
            assert(decreases_to!(arms@ => arms@[i as int]));
        }
        let ghost mid = errors@;
        validate_expression_statement_terminators(&arms[i].body, false, errors);
        proof {
            lemma_reports_trans(before, mid, errors@, arms_errors(arms@, i as nat), body_errors(arms@[i as int].body@, false, arms@[i as int].body@.len()));
        }
        i = i + 1;
    }
}

/// Reports, in source order, each expression statement of `stmts` and of
/// its nested bodies that lacks its `;`; with `allow_final_unterminated`,
/// the last statement of `stmts` (a function body's tail expression) may
/// omit it. Errors already in `errors` stay in front.
#[verifier::loop_isolation(false)]
pub fn validate_expression_statement_terminators(
    stmts: &Vec<ParsedStmt>,
    allow_final_unterminated: bool,
    errors: &mut Vec<ParsedError>,
)
    ensures
        reports(old(errors)@, final(errors)@, body_errors(stmts@, allow_final_unterminated, stmts@.len())),
    decreases stmts,
{
    let ghost before = errors@;
    let mut i: usize = 0;
    while i < stmts.len()
        invariant
            i <= stmts@.len(),
            reports(before, errors@, body_errors(stmts@, allow_final_unterminated, i as nat)),
        decreases stmts@.len() - i,
    {
        proof {
            assert(decreases_to!(stmts => stmts@));
            assert(decreases_to!(stmts@ => stmts@[i as int]));
        }
        let is_final = i + 1 == stmts.len();
        let ghost mid = errors@;
        validate_stmt(&stmts[i], allow_final_unterminated && is_final, errors);
        proof {
            lemma_reports_trans(before, mid, errors@, body_errors(stmts@, allow_final_unterminated, i as nat), stmt_errors(stmts@[i as int], allow_final_unterminated && is_final));
        }
        i = i + 1;
    }
}

} // verus!
