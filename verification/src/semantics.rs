//! What the word operators mean: the value of a source operator applied to
//! two 256-bit unsigned words, the value of a compound assignment, the value
//! of a Hull word primitive called by name, and the value of a Hull
//! expression built from such calls. Comparisons and the boolean operators
//! give 1 for true and 0 for false; division and remainder by zero give 0.
use vstd::prelude::*;
use crate::diag::Span;
use crate::emit::{bin_op_text, bool_expr, hexpr, hexprs, is_nested_call, lowered_bin_op, HExpr, HExprKind, HullExpr, HullTy};
use crate::ops::{AssignOp, BinOp};
use crate::parse::{ParsedExpr, PExpr};
use crate::stmt::{assigned_value, compound_op, ParsedAssignOp, ParsedAssignTail};
use crate::yul::{assign_op_text, is_assign_call};

verus! {

/// The number of 256-bit words.
pub open spec fn word_modulus() -> int {
    0x1_0000_0000_0000_0000_0000_0000_0000_0000_0000_0000_0000_0000_0000_0000_0000_0000int
}

pub open spec fn truth(b: bool) -> int {
    if b {
        1
    } else {
        0
    }
}

/// Bitwise conjunction, bit by bit from the lowest.
pub open spec fn bit_and(a: nat, b: nat) -> nat
    decreases a,
{
    if a == 0 || b == 0 {
        0
    } else {
        2 * bit_and(a / 2, b / 2) + (if a % 2 == 1 && b % 2 == 1 {
            1nat
        } else {
            0nat
        })
    }
}

/// Bitwise disjunction, bit by bit from the lowest.
pub open spec fn bit_or(a: nat, b: nat) -> nat
    decreases a,
{
    if a == 0 {
        b
    } else if b == 0 {
        a
    } else {
        2 * bit_or(a / 2, b / 2) + (if a % 2 == 1 || b % 2 == 1 {
            1nat
        } else {
            0nat
        })
    }
}

/// Bitwise exclusive or, bit by bit from the lowest.
pub open spec fn bit_xor(a: nat, b: nat) -> nat
    decreases a,
{
    if a == 0 {
        b
    } else if b == 0 {
        a
    } else {
        2 * bit_xor(a / 2, b / 2) + (if a % 2 != b % 2 {
            1nat
        } else {
            0nat
        })
    }
}

/// The word that the source expression `a op b` denotes; `None` for the
/// placeholder of an operator that failed to parse.
pub open spec fn source_value(op: BinOp, a: int, b: int) -> Option<int> {
    match op {
        BinOp::Add => Some((a + b) % word_modulus()),
        BinOp::Sub => Some((a - b) % word_modulus()),
        BinOp::Mul => Some((a * b) % word_modulus()),
        BinOp::Div => Some(if b == 0 { 0 } else { a / b }),
        BinOp::Mod => Some(if b == 0 { 0 } else { a % b }),
        BinOp::BitAnd => Some(bit_and(a as nat, b as nat) as int),
        BinOp::BitXor => Some(bit_xor(a as nat, b as nat) as int),
        BinOp::BitOr => Some(bit_or(a as nat, b as nat) as int),
        BinOp::Eq => Some(truth(a == b)),
        BinOp::NotEq => Some(truth(a != b)),
        BinOp::Lt => Some(truth(a < b)),
        BinOp::Gt => Some(truth(a > b)),
        BinOp::LtEq => Some(truth(a <= b)),
        BinOp::GtEq => Some(truth(a >= b)),
        BinOp::And => Some(truth(a != 0 && b != 0)),
        BinOp::Or => Some(truth(a != 0 || b != 0)),
        BinOp::Error => None,
    }
}

/// The word that the source assignment `x op r` stores: `r` for `=`,
/// otherwise `x` combined with `r` by the arithmetic its symbol names.
pub open spec fn compound_value(op: ParsedAssignOp, x: int, r: int) -> int {
    match op {
        ParsedAssignOp::Eq => r,
        ParsedAssignOp::AddEq => (x + r) % word_modulus(),
        ParsedAssignOp::SubEq => (x - r) % word_modulus(),
        ParsedAssignOp::MulEq => (x * r) % word_modulus(),
        ParsedAssignOp::DivEq => if r == 0 { 0 } else { x / r },
        ParsedAssignOp::BitXorEq => bit_xor(x as nat, r as nat) as int,
        ParsedAssignOp::BitAndEq => bit_and(x as nat, r as nat) as int,
        ParsedAssignOp::BitOrEq => bit_or(x as nat, r as nat) as int,
        ParsedAssignOp::ModEq => if r == 0 { 0 } else { x % r },
    }
}

/// The word that a monomorphized assignment `x op r` stores.
pub open spec fn assign_value(op: AssignOp, x: int, r: int) -> int {
    match op {
        AssignOp::Plain => r,
        AssignOp::Add => (x + r) % word_modulus(),
        AssignOp::Sub => (x - r) % word_modulus(),
        AssignOp::Mul => (x * r) % word_modulus(),
        AssignOp::Div => if r == 0 { 0 } else { x / r },
        AssignOp::BitXor => bit_xor(x as nat, r as nat) as int,
        AssignOp::BitAnd => bit_and(x as nat, r as nat) as int,
        AssignOp::BitOr => bit_or(x as nat, r as nat) as int,
        AssignOp::Mod => if r == 0 { 0 } else { x % r },
    }
}

/// The word that the Hull primitive `name` returns on `args`; `None` for a
/// name or an argument count that is no word primitive.
pub open spec fn prim_value(name: Seq<char>, args: Seq<int>) -> Option<int> {
    if args.len() == 1 {
        if name == "iszero"@ {
            Some(truth(args[0] == 0))
        } else {
            None
        }
    } else if args.len() == 2 {
        let a = args[0];
        let b = args[1];
        if name == "add"@ {
            Some((a + b) % word_modulus())
        } else if name == "sub"@ {
            Some((a - b) % word_modulus())
        } else if name == "mul"@ {
            Some((a * b) % word_modulus())
        } else if name == "div"@ {
            Some(if b == 0 { 0 } else { a / b })
        } else if name == "mod"@ {
            Some(if b == 0 { 0 } else { a % b })
        } else if name == "and"@ {
            Some(bit_and(a as nat, b as nat) as int)
        } else if name == "xor"@ {
            Some(bit_xor(a as nat, b as nat) as int)
        } else if name == "or"@ {
            Some(bit_or(a as nat, b as nat) as int)
        } else if name == "primEqWord"@ {
            Some(truth(a == b))
        } else if name == "lt"@ {
            Some(truth(a < b))
        } else if name == "gt"@ {
            Some(truth(a > b))
        } else {
            None
        }
    } else {
        None
    }
}

/// The word a Hull expression evaluates to when each variable of `env`
/// holds its word: calls of word primitives apply them, `if` selects by a
/// nonzero condition, and a boolean constant is 1 or 0. Other forms are
/// given no value.
pub open spec fn eval_word(e: HExpr, env: Map<Seq<char>, int>) -> Option<int>
    decreases e,
{
    match e.kind {
        HExprKind::Var(x) => if env.dom().contains(x) {
            Some(env[x])
        } else {
            None
        },
        HExprKind::Bool(b) => Some(truth(b)),
        HExprKind::Call(name, args) => if args.len() == 1 {
            match eval_word(args[0], env) {
                Some(x) => prim_value(name, seq![x]),
                None => None,
            }
        } else if args.len() == 2 {
            match (eval_word(args[0], env), eval_word(args[1], env)) {
                (Some(x), Some(y)) => prim_value(name, seq![x, y]),
                _ => None,
            }
        } else {
            None
        },
        HExprKind::If(_, c, t, f) => match eval_word(*c, env) {
            Some(v) => if v != 0 {
                eval_word(*t, env)
            } else {
                eval_word(*f, env)
            },
            None => None,
        },
        _ => None,
    }
}

proof fn lemma_hexprs_single(x: HullExpr)
    ensures
        hexprs(seq![x]) == seq![hexpr(x)],
{
    let e = Seq::<HullExpr>::empty();
    assert(hexprs(e) == Seq::<HExpr>::empty());
    assert(seq![x].drop_last() =~= e);
    assert(seq![x].last() == x);
    assert(hexprs(seq![x]) =~= seq![hexpr(x)]);
}

proof fn lemma_hexprs_pair(x: HullExpr, y: HullExpr)
    ensures
        hexprs(seq![x, y]) == seq![hexpr(x), hexpr(y)],
{
    lemma_hexprs_single(x);
    assert(seq![x, y].drop_last() =~= seq![x]);
    assert(seq![x, y].last() == y);
    assert(hexprs(seq![x, y]) =~= seq![hexpr(x), hexpr(y)]);
}

/// The names of the two-argument word primitives are pairwise distinct.
proof fn lemma_prim_names_distinct()
    ensures
        "sub"@ != "add"@,
        "mul"@ != "add"@,
        "mul"@ != "sub"@,
        "div"@ != "add"@,
        "div"@ != "sub"@,
        "div"@ != "mul"@,
        "mod"@ != "add"@,
        "mod"@ != "sub"@,
        "mod"@ != "mul"@,
        "mod"@ != "div"@,
        "and"@ != "add"@,
        "and"@ != "sub"@,
        "and"@ != "mul"@,
        "and"@ != "div"@,
        "and"@ != "mod"@,
        "xor"@ != "add"@,
        "xor"@ != "sub"@,
        "xor"@ != "mul"@,
        "xor"@ != "div"@,
        "xor"@ != "mod"@,
        "xor"@ != "and"@,
        "or"@ != "add"@,
        "or"@ != "sub"@,
        "or"@ != "mul"@,
        "or"@ != "div"@,
        "or"@ != "mod"@,
        "or"@ != "and"@,
        "or"@ != "xor"@,
        "primEqWord"@ != "add"@,
        "primEqWord"@ != "sub"@,
        "primEqWord"@ != "mul"@,
        "primEqWord"@ != "div"@,
        "primEqWord"@ != "mod"@,
        "primEqWord"@ != "and"@,
        "primEqWord"@ != "xor"@,
        "primEqWord"@ != "or"@,
        "lt"@ != "add"@,
        "lt"@ != "sub"@,
        "lt"@ != "mul"@,
        "lt"@ != "div"@,
        "lt"@ != "mod"@,
        "lt"@ != "and"@,
        "lt"@ != "xor"@,
        "lt"@ != "or"@,
        "lt"@ != "primEqWord"@,
        "gt"@ != "add"@,
        "gt"@ != "sub"@,
        "gt"@ != "mul"@,
        "gt"@ != "div"@,
        "gt"@ != "mod"@,
        "gt"@ != "and"@,
        "gt"@ != "xor"@,
        "gt"@ != "or"@,
        "gt"@ != "primEqWord"@,
        "gt"@ != "lt"@,
{
    reveal_strlit("iszero");
    reveal_strlit("add");
    reveal_strlit("sub");
    reveal_strlit("mul");
    reveal_strlit("div");
    reveal_strlit("mod");
    reveal_strlit("and");
    reveal_strlit("xor");
    reveal_strlit("or");
    reveal_strlit("primEqWord");
    reveal_strlit("lt");
    reveal_strlit("gt");
    assert("sub"@[0] != "add"@[0]);
    assert("mul"@[0] != "add"@[0]);
    assert("mul"@[0] != "sub"@[0]);
    assert("div"@[0] != "add"@[0]);
    assert("div"@[0] != "sub"@[0]);
    assert("div"@[0] != "mul"@[0]);
    assert("mod"@[0] != "add"@[0]);
    assert("mod"@[0] != "sub"@[0]);
    assert("mod"@[1] != "mul"@[1]);
    assert("mod"@[0] != "div"@[0]);
    assert("and"@[1] != "add"@[1]);
    assert("and"@[0] != "sub"@[0]);
    assert("and"@[0] != "mul"@[0]);
    assert("and"@[0] != "div"@[0]);
    assert("and"@[0] != "mod"@[0]);
    assert("xor"@[0] != "add"@[0]);
    assert("xor"@[0] != "sub"@[0]);
    assert("xor"@[0] != "mul"@[0]);
    assert("xor"@[0] != "div"@[0]);
    assert("xor"@[0] != "mod"@[0]);
    assert("xor"@[0] != "and"@[0]);
    assert("or"@.len() != "add"@.len());
    assert("or"@.len() != "sub"@.len());
    assert("or"@.len() != "mul"@.len());
    assert("or"@.len() != "div"@.len());
    assert("or"@.len() != "mod"@.len());
    assert("or"@.len() != "and"@.len());
    assert("or"@.len() != "xor"@.len());
    assert("primEqWord"@.len() != "add"@.len());
    assert("primEqWord"@.len() != "sub"@.len());
    assert("primEqWord"@.len() != "mul"@.len());
    assert("primEqWord"@.len() != "div"@.len());
    assert("primEqWord"@.len() != "mod"@.len());
    assert("primEqWord"@.len() != "and"@.len());
    assert("primEqWord"@.len() != "xor"@.len());
    assert("primEqWord"@.len() != "or"@.len());
    assert("lt"@.len() != "add"@.len());
    assert("lt"@.len() != "sub"@.len());
    assert("lt"@.len() != "mul"@.len());
    assert("lt"@.len() != "div"@.len());
    assert("lt"@.len() != "mod"@.len());
    assert("lt"@.len() != "and"@.len());
    assert("lt"@.len() != "xor"@.len());
    assert("lt"@[0] != "or"@[0]);
    assert("lt"@.len() != "primEqWord"@.len());
    assert("gt"@.len() != "add"@.len());
    assert("gt"@.len() != "sub"@.len());
    assert("gt"@.len() != "mul"@.len());
    assert("gt"@.len() != "div"@.len());
    assert("gt"@.len() != "mod"@.len());
    assert("gt"@.len() != "and"@.len());
    assert("gt"@.len() != "xor"@.len());
    assert("gt"@[0] != "or"@[0]);
    assert("gt"@.len() != "primEqWord"@.len());
    assert("gt"@[0] != "lt"@[0]);
}

proof fn lemma_negated_call(
    span: Span,
    ty: HullTy,
    name: Seq<char>,
    lhs: HullExpr,
    rhs: HullExpr,
    r: HullExpr,
    env: Map<Seq<char>, int>,
    a: int,
    b: int,
)
    requires
        is_nested_call(r, span, ty, "iszero"@, name, seq![lhs, rhs]),
        eval_word(lhs@, env) == Some(a),
        eval_word(rhs@, env) == Some(b),
        prim_value(name, seq![a, b]) is Some,
    ensures
        eval_word(r@, env) == Some(truth(prim_value(name, seq![a, b]).unwrap() == 0)),
{
    reveal_strlit("iszero");
    lemma_hexprs_pair(lhs, rhs);
    let av = r.kind->Call_args@;
    let inner = av[0];
    assert(av =~= seq![inner]);
    lemma_hexprs_single(inner);
    let iv = inner.kind->Call_args@;
    assert(iv =~= seq![lhs, rhs]);
    assert(seq![a, b][0] == a && seq![a, b][1] == b);
    assert(hexpr(inner).kind == HExprKind::Call(name, seq![hexpr(lhs), hexpr(rhs)]));
    let v = prim_value(name, seq![a, b]).unwrap();
    assert(eval_word(hexpr(inner), env) == Some(v));
    assert(hexpr(r).kind == HExprKind::Call("iszero"@, seq![hexpr(inner)]));
    assert(seq![v][0] == v);
}

/// Each compound assignment operator applies the arithmetic its symbol
/// names: `x op= r` is lowered through the binary operator `op`, and
/// `x op r` denotes the word that `op=` stores (so `-=` subtracts). Only
/// `=` has no binary operator.
pub proof fn law_compound_assignment_applies_its_own_operator(op: ParsedAssignOp, x: int, r: int)
    ensures
        match compound_op(op) {
            None => op == ParsedAssignOp::Eq,
            Some(b) => source_value(b, x, r) == Some(compound_value(op, x, r)),
        },
{
}

/// An assignment statement with a compound operator stores `lhs op rhs`
/// over the assigned place and the right-hand side, and on any words `x`
/// and `r` that expression denotes what the compound operator stores.
pub proof fn law_compound_assignment_stores_its_value(
    lhs: ParsedExpr,
    op: ParsedAssignOp,
    op_span: Span,
    rhs: ParsedExpr,
    x: int,
    r: int,
)
    requires
        op != ParsedAssignOp::Eq,
    ensures
        assigned_value(lhs, ParsedAssignTail::Binary { op, op_span, rhs }) matches PExpr::BinOp(_, l, b, _, rr)
            && *l == lhs@ && *rr == rhs@ && source_value(b, x, r) == Some(compound_value(op, x, r)),
{
}

/// A binary operator lowers to a Hull expression that evaluates to what the
/// source operator denotes on the values of its operands: `a < b` to `lt`,
/// `a > b` to `gt`, `a <= b` and `a >= b` to the negation of `gt` and `lt`,
/// and so on; `&&` and `||` do so on boolean operands. An operator that
/// failed to parse lowers to an expression with no value.
pub proof fn law_binary_operators_lower_to_their_meaning(
    span: Span,
    ty: HullTy,
    op: BinOp,
    lhs: HullExpr,
    rhs: HullExpr,
    r: HullExpr,
    env: Map<Seq<char>, int>,
    a: int,
    b: int,
)
    requires
        lowered_bin_op(span, ty, op, lhs, rhs, r),
        eval_word(lhs@, env) == Some(a),
        eval_word(rhs@, env) == Some(b),
        op == BinOp::And || op == BinOp::Or ==> (a == 0 || a == 1) && (b == 0 || b == 1),
    ensures
        eval_word(r@, env) == source_value(op, a, b),
{
    reveal_strlit("iszero");
    lemma_prim_names_distinct();
    lemma_hexprs_pair(lhs, rhs);
    assert(seq![a, b][0] == a && seq![a, b][1] == b);
    match op {
        BinOp::NotEq => {
            lemma_negated_call(span, ty, "primEqWord"@, lhs, rhs, r, env, a, b);
        },
        BinOp::LtEq => {
            lemma_negated_call(span, ty, "gt"@, lhs, rhs, r, env, a, b);
        },
        BinOp::GtEq => {
            lemma_negated_call(span, ty, "lt"@, lhs, rhs, r, env, a, b);
        },
        BinOp::And => {
            let f = bool_expr(span, ty, false);
            assert(hexpr(f).kind == HExprKind::Bool(false));
            assert(eval_word(hexpr(f), env) == Some(0int));
            assert(hexpr(r).kind == HExprKind::If(ty, Box::new(hexpr(lhs)), Box::new(hexpr(rhs)), Box::new(hexpr(f))));
        },
        BinOp::Or => {
            let t = bool_expr(span, ty, true);
            assert(hexpr(t).kind == HExprKind::Bool(true));
            assert(eval_word(hexpr(t), env) == Some(1int));
            assert(hexpr(r).kind == HExprKind::If(ty, Box::new(hexpr(lhs)), Box::new(hexpr(t)), Box::new(hexpr(rhs))));
        },
        BinOp::Error => {
            assert(hexprs(Seq::<HullExpr>::empty()) =~= Seq::<HExpr>::empty());
        },
        _ => {
            assert(bin_op_text(op) is Some);
            assert(hexpr(r).kind == HExprKind::Call(bin_op_text(op).unwrap(), seq![hexpr(lhs), hexpr(rhs)]));
            assert(eval_word(hexpr(r), env) == prim_value(bin_op_text(op).unwrap(), seq![a, b]));
        },
    }
}

/// A monomorphized compound assignment stores, through the word primitive
/// it calls on the assigned place and the right-hand side, what its
/// operator denotes (so `-=` calls `sub`); a plain assignment stores the
/// right-hand side.
pub proof fn law_assignment_callee_applies_its_operator(
    span: Span,
    op: AssignOp,
    lhs: HullExpr,
    rhs: HullExpr,
    value: HullExpr,
    env: Map<Seq<char>, int>,
    x: int,
    y: int,
)
    requires
        match assign_op_text(op) {
            None => value == rhs,
            Some(callee) => is_assign_call(value, span, callee, lhs, rhs),
        },
        eval_word(lhs@, env) == Some(x),
        eval_word(rhs@, env) == Some(y),
    ensures
        eval_word(value@, env) == Some(assign_value(op, x, y)),
{
    reveal_strlit("iszero");
    lemma_prim_names_distinct();
    if op != AssignOp::Plain {
        let args = value.kind->Call_args@;
        assert(args =~= seq![args[0], rhs]);
        lemma_hexprs_pair(args[0], rhs);
        assert(hexpr(value).kind == HExprKind::Call(assign_op_text(op).unwrap(), seq![hexpr(lhs), hexpr(rhs)]));
        assert(eval_word(hexpr(value), env) == prim_value(assign_op_text(op).unwrap(), seq![x, y]));
        assert(seq![x, y][0] == x && seq![x, y][1] == y);
    }
}

} // verus!
