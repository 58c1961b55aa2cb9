//! The Hull functions and statements that the emitter generates itself: the
//! string literal materializers with their registry of helper names, the
//! bounds-checked memory array read, and compound assignments. Helper bodies
//! are inline Yul, modelled here as far as these helpers use it.
use vstd::prelude::*;
use crate::diag::Span;
use crate::ops::AssignOp;
use crate::emit::{literal_word, string_literal_layout, word_count, HullExpr, HullExprKind, HullTy};
use crate::text::{dec_digit, dec_text, decimal, push_str, str_eq, string_of, strings_view};

verus! {

/// A Yul expression.
#[derive(Debug)]
pub enum YulExpr {
    Call { name: String, args: Vec<YulExpr> },
    Ident(String),
    Number(String),
}

/// A Yul statement.
#[derive(Debug)]
pub enum YulStmt {
    Expr(YulExpr),
    Assign { name: String, value: YulExpr },
    If { cond: YulExpr, body: Vec<YulStmt> },
}

#[derive(Debug)]
pub struct HullArg {
    pub name: String,
    pub ty: HullTy,
}

/// A Hull statement: its source span and its shape.
#[derive(Debug)]
pub struct HullStmt {
    pub span: Span,
    pub kind: HullStmtKind,
}

/// The constructor that a match alternative of a sum tests for.
#[derive(Clone, Copy, Debug, PartialEq, Eq, Structural)]
pub enum HullCon {
    Inl,
    Inr,
}

/// One alternative of a Hull match: the constructor it tests, the name bound
/// to the payload, and its statements.
#[derive(Debug)]
pub struct HullAlt {
    pub span: Span,
    pub con: HullCon,
    pub binder: String,
    pub body: Vec<HullStmt>,
}

/// The shape of a Hull statement, as far as the emitter builds them.
#[derive(Debug)]
pub enum HullStmtKind {
    Match { target: HullTy, scrutinee: HullExpr, alts: Vec<HullAlt> },
    Let { name: String, ty: HullTy },
    Assign { lhs: HullExpr, rhs: HullExpr },
    Expr(HullExpr),
    For { init: Vec<HullStmt>, cond: HullExpr, post: Vec<HullStmt>, body: Vec<HullStmt> },
    Assembly(Vec<YulStmt>),
    Return(HullExpr),
}

/// A Hull function.
#[derive(Debug)]
pub struct HullFunction {
    pub span: Span,
    pub name: String,
    pub args: Vec<HullArg>,
    pub ret: HullTy,
    pub body: Vec<HullStmt>,
}

/// The mathematical value of a `YulExpr`.
pub enum YulV {
    Call(Seq<char>, Seq<YulV>),
    Ident(Seq<char>),
    Number(Seq<char>),
}

/// The mathematical value of a `YulStmt`.
pub enum YulStmtV {
    Expr(YulV),
    Assign(Seq<char>, YulV),
    If(YulV, Seq<YulStmtV>),
}

pub open spec fn yul_view(e: YulExpr) -> YulV
    decreases e,
{
    match e {
        YulExpr::Call { name, args } => YulV::Call(name@, yul_views(args@)),
        YulExpr::Ident(n) => YulV::Ident(n@),
        YulExpr::Number(n) => YulV::Number(n@),
    }
}

pub open spec fn yul_views(s: Seq<YulExpr>) -> Seq<YulV>
    decreases s,
{
    if s.len() == 0 {
        Seq::empty()
    } else {
        yul_views(s.drop_last()).push(yul_view(s.last()))
    }
}

pub open spec fn yul_stmt_view(s: YulStmt) -> YulStmtV
    decreases s,
{
    match s {
        YulStmt::Expr(e) => YulStmtV::Expr(yul_view(e)),
        YulStmt::Assign { name, value } => YulStmtV::Assign(name@, yul_view(value)),
        YulStmt::If { cond, body } => YulStmtV::If(yul_view(cond), yul_stmt_views(body@)),
    }
}

pub open spec fn yul_stmt_views(s: Seq<YulStmt>) -> Seq<YulStmtV>
    decreases s,
{
    if s.len() == 0 {
        Seq::empty()
    } else {
        yul_stmt_views(s.drop_last()).push(yul_stmt_view(s.last()))
    }
}

proof fn lemma_yul_views_push(s: Seq<YulExpr>, e: YulExpr)
    ensures
        yul_views(s.push(e)) == yul_views(s).push(yul_view(e)),
{
    assert(s.push(e).drop_last() =~= s);
}

proof fn lemma_yul_stmt_views_push(s: Seq<YulStmt>, e: YulStmt)
    ensures
        yul_stmt_views(s.push(e)) == yul_stmt_views(s).push(yul_stmt_view(e)),
{
    assert(s.push(e).drop_last() =~= s);
}

fn ident(name: &str) -> (e: YulExpr)
    ensures
        yul_view(e) == YulV::Ident(name@),
{
    YulExpr::Ident(string_of(name))
}

fn number(text: String) -> (e: YulExpr)
    ensures
        yul_view(e) == YulV::Number(text@),
{
    YulExpr::Number(text)
}

fn call1(name: &str, a: YulExpr) -> (e: YulExpr)
    ensures
        yul_view(e) == YulV::Call(name@, seq![yul_view(a)]),
{
    let ghost va = yul_view(a);
    let mut args: Vec<YulExpr> = Vec::new();
    proof {
        lemma_yul_views_push(args@, a);
    }
    args.push(a);
    assert(yul_views(args@) =~= seq![va]);
    YulExpr::Call { name: string_of(name), args }
}

fn call2(name: &str, a: YulExpr, b: YulExpr) -> (e: YulExpr)
    ensures
        yul_view(e) == YulV::Call(name@, seq![yul_view(a), yul_view(b)]),
{
    let ghost va = yul_view(a);
    let ghost vb = yul_view(b);
    let mut args: Vec<YulExpr> = Vec::new();
    proof {
        lemma_yul_views_push(args@, a);
    }
    args.push(a);
    proof {
        lemma_yul_views_push(args@, b);
    }
    args.push(b);
    assert(yul_views(args@) =~= seq![va, vb]);
    YulExpr::Call { name: string_of(name), args }
}

pub open spec fn ycall1(name: Seq<char>, a: YulV) -> YulV {
    YulV::Call(name, seq![a])
}

pub open spec fn ycall2(name: Seq<char>, a: YulV, b: YulV) -> YulV {
    YulV::Call(name, seq![a, b])
}

/// `mstore(add(p, offset), value)`.
pub open spec fn store_at(offset: nat, value: Seq<char>) -> YulStmtV {
    YulStmtV::Expr(ycall2("mstore"@, ycall2("add"@, YulV::Ident("p"@), YulV::Number(dec_text(offset))), YulV::Number(value)))
}

/// The Yul that materializes a string literal in memory: take the free
/// memory pointer `p`, store the length, then each payload word at
/// `p + 32 * (k + 1)`, and bump the free memory pointer past the allocation.
pub open spec fn string_literal_assembly(bytes: Seq<u8>) -> Seq<YulStmtV> {
    let n = word_count(bytes.len());
    seq![
        YulStmtV::Assign("p"@, ycall1("mload"@, YulV::Number("0x40"@))),
        YulStmtV::Expr(ycall2("mstore"@, YulV::Ident("p"@), YulV::Number(dec_text(bytes.len())))),
    ] + Seq::new(n, |k: int| store_at((32 * (k + 1)) as nat, literal_word(bytes, k))) + seq![
        YulStmtV::Expr(
            ycall2("mstore"@, YulV::Number("0x40"@), ycall2("add"@, YulV::Ident("p"@), YulV::Number(dec_text(32 * (1 + n))))),
        ),
    ]
}

/// A function of no arguments returning a word, whose body declares the
/// word `var`, runs `assembly` and returns `var`.
pub open spec fn assembly_function(f: HullFunction, span: Span, name: Seq<char>, var: Seq<char>, assembly: Seq<YulStmtV>) -> bool {
    &&& f.span == span
    &&& f.name@ == name
    &&& f.ret == HullTy::Word
    &&& f.body@.len() == 3
    &&& forall|i: int| 0 <= i < 3 ==> (#[trigger] f.body@[i]).span == span
    &&& f.body@[0].kind matches HullStmtKind::Let { name: n, ty } && n@ == var && ty == HullTy::Word
    &&& f.body@[1].kind matches HullStmtKind::Assembly(a) && yul_stmt_views(a@) == assembly
    &&& f.body@[2].kind matches HullStmtKind::Return(e) && returns_var(e, span, var)
}

/// `e` reads the word variable `var` at `span`.
pub open spec fn returns_var(e: HullExpr, span: Span, var: Seq<char>) -> bool {
    &&& e.span == span
    &&& e.ty == HullTy::Word
    &&& e.kind matches HullExprKind::Var(v) && v@ == var
}

/// The helper `name` that returns a pointer to a fresh memory copy of the
/// string literal `bytes` (its length word, then its right-padded words).
pub fn string_literal_function(span: Span, name: &str, bytes: &[u8]) -> (f: HullFunction)
    requires
        bytes@.len() + 64 <= usize::MAX,
    ensures
        f.args@.len() == 0,
        assembly_function(f, span, name@, "p"@, string_literal_assembly(bytes@)),
{
    let (words, total) = string_literal_layout(bytes);
    let ghost n = word_count(bytes@.len() as nat);
    let mut assembly: Vec<YulStmt> = Vec::new();
    let first = YulStmt::Assign { name: string_of("p"), value: call1("mload", number(string_of("0x40"))) };
    proof {
        lemma_yul_stmt_views_push(assembly@, first);
    }
    assembly.push(first);
    let second = YulStmt::Expr(call2("mstore", ident("p"), number(decimal(bytes.len()))));
    proof {
        lemma_yul_stmt_views_push(assembly@, second);
    }
    assembly.push(second);
    let ghost head = yul_stmt_views(assembly@);
    let ghost stores = Seq::new(n, |k: int| store_at((32 * (k + 1)) as nat, literal_word(bytes@, k)));
    assert(n * 32 <= bytes@.len() + 31) by (nonlinear_arith)
        requires
            n == (bytes@.len() + 31) / 32,
    ;
    let mut index: usize = 0;
    while index < words.len()
        invariant
            words@.len() == n,
            n * 32 <= bytes@.len() + 31,
            bytes@.len() + 64 <= usize::MAX,
            forall|k: int| 0 <= k < words@.len() ==> #[trigger] words@[k]@ == literal_word(bytes@, k),
            index <= n,
            stores == Seq::new(n, |k: int| store_at((32 * (k + 1)) as nat, literal_word(bytes@, k))),
            yul_stmt_views(assembly@) == head + stores.take(index as int),
        decreases n - index,
    {
        let offset = 32 * (index + 1);
        let word = words[index].clone();
        let stmt = YulStmt::Expr(call2("mstore", call2("add", ident("p"), number(decimal(offset))), number(word)));
        proof {
            lemma_yul_stmt_views_push(assembly@, stmt);
            assert(stores.take(index + 1) =~= stores.take(index as int).push(stores[index as int]));
        }
        assembly.push(stmt);
        index = index + 1;
    }
    let last = YulStmt::Expr(
        call2("mstore", number(string_of("0x40")), call2("add", ident("p"), number(decimal(total)))),
    );
    proof {
        lemma_yul_stmt_views_push(assembly@, last);
        assert(stores.take(n as int) =~= stores);
    }
    assembly.push(last);
    assert(yul_stmt_views(assembly@) =~= string_literal_assembly(bytes@));
    let mut body: Vec<HullStmt> = Vec::new();
    body.push(HullStmt { span, kind: HullStmtKind::Let { name: string_of("p"), ty: HullTy::Word } });
    body.push(HullStmt { span, kind: HullStmtKind::Assembly(assembly) });
    body.push(HullStmt { span, kind: HullStmtKind::Return(HullExpr::var(span, "p", HullTy::Word)) });
    HullFunction { span, name: string_of(name), args: Vec::new(), ret: HullTy::Word, body }
}

/// The Yul of a bounds-checked read of element `index` of the memory array
/// at `base` (a length word, then the elements): out of bounds it reverts
/// with the `0xb4120f14` error selector, else it loads the element into `out`.
pub open spec fn memory_array_index_assembly() -> Seq<YulStmtV> {
    seq![
        YulStmtV::If(
            ycall1("iszero"@, ycall2("lt"@, YulV::Ident("index"@), ycall1("mload"@, YulV::Ident("base"@)))),
            seq![
                YulStmtV::Expr(ycall2("mstore"@, YulV::Number("0"@), YulV::Number("0xb4120f14"@))),
                YulStmtV::Expr(ycall2("revert"@, YulV::Number("28"@), YulV::Number("4"@))),
            ],
        ),
        YulStmtV::Assign(
            "out"@,
            ycall1(
                "mload"@,
                ycall2(
                    "add"@,
                    ycall2("add"@, YulV::Ident("base"@), YulV::Number("32"@)),
                    ycall2("mul"@, YulV::Ident("index"@), YulV::Number("32"@)),
                ),
            ),
        ),
    ]
}

/// The helper `name(base, index)` that reads a memory array element with a
/// bounds check.
pub fn memory_array_index_function(span: Span, name: &str) -> (f: HullFunction)
    ensures
        f.args@.len() == 2,
        f.args@[0].name@ == "base"@ && f.args@[0].ty == HullTy::Word,
        f.args@[1].name@ == "index"@ && f.args@[1].ty == HullTy::Word,
        assembly_function(f, span, name@, "out"@, memory_array_index_assembly()),
{
    let mut revert_body: Vec<YulStmt> = Vec::new();
    let store = YulStmt::Expr(call2("mstore", number(string_of("0")), number(string_of("0xb4120f14"))));
    let ghost store_v = yul_stmt_view(store);
    proof {
        lemma_yul_stmt_views_push(revert_body@, store);
    }
    revert_body.push(store);
    let revert = YulStmt::Expr(call2("revert", number(string_of("28")), number(string_of("4"))));
    let ghost revert_v = yul_stmt_view(revert);
    proof {
        lemma_yul_stmt_views_push(revert_body@, revert);
    }
    revert_body.push(revert);
    assert(yul_stmt_views(revert_body@) =~= seq![store_v, revert_v]);
    let out_of_bounds = YulStmt::If {
        cond: call1("iszero", call2("lt", ident("index"), call1("mload", ident("base")))),
        body: revert_body,
    };
    let read = YulStmt::Assign {
        name: string_of("out"),
        value: call1(
            "mload",
            call2("add", call2("add", ident("base"), number(string_of("32"))), call2("mul", ident("index"), number(string_of("32")))),
        ),
    };
    let mut assembly: Vec<YulStmt> = Vec::new();
    proof {
        lemma_yul_stmt_views_push(assembly@, out_of_bounds);
    }
    assembly.push(out_of_bounds);
    proof {
        lemma_yul_stmt_views_push(assembly@, read);
    }
    assembly.push(read);
    assert(yul_stmt_views(assembly@) =~= memory_array_index_assembly());
    let mut args: Vec<HullArg> = Vec::new();
    args.push(HullArg { name: string_of("base"), ty: HullTy::Word });
    args.push(HullArg { name: string_of("index"), ty: HullTy::Word });
    let mut body: Vec<HullStmt> = Vec::new();
    body.push(HullStmt { span, kind: HullStmtKind::Let { name: string_of("out"), ty: HullTy::Word } });
    body.push(HullStmt { span, kind: HullStmtKind::Assembly(assembly) });
    body.push(HullStmt { span, kind: HullStmtKind::Return(HullExpr::var(span, "out", HullTy::Word)) });
    HullFunction { span, name: string_of(name), args, ret: HullTy::Word, body }
}

/// `value` is `callee(lhs, rhs)` at `span`, of the type of `lhs`, with a
/// copy of `lhs` as first argument.
pub open spec fn is_assign_call(value: HullExpr, span: Span, callee: Seq<char>, lhs: HullExpr, rhs: HullExpr) -> bool {
    &&& value.span == span
    &&& value.ty == lhs.ty
    &&& value.kind matches HullExprKind::Call { callee: name, args } && name@ == callee && args@.len() == 2
        && args@[0]@ == lhs@ && args@[1] == rhs
}

/// Lowers a compound assignment at `span` over its already emitted operands
/// to the single statement `lhs = callee(lhs, rhs)`.
pub fn emit_assign_op(span: Span, lhs: HullExpr, callee: &str, rhs: HullExpr) -> (r: Vec<HullStmt>)
    ensures
        r@.len() == 1,
        r@[0].span == span,
        r@[0].kind matches HullStmtKind::Assign { lhs: target, rhs: value } && target == lhs
            && is_assign_call(value, span, callee@, lhs, rhs),
{
    let read = lhs.duplicate();
    let ty = lhs.ty.duplicate();
    let call = HullExpr { span, ty, kind: HullExprKind::Call { callee: string_of(callee), args: vec![read, rhs] } };
    let mut out: Vec<HullStmt> = Vec::new();
    out.push(HullStmt { span, kind: HullStmtKind::Assign { lhs, rhs: call } });
    out
}

/// The word primitive that a compound assignment operator applies, if any.
pub open spec fn assign_op_text(op: AssignOp) -> Option<Seq<char>> {
    match op {
        AssignOp::Plain => None,
        AssignOp::Add => Some("add"@),
        AssignOp::Sub => Some("sub"@),
        AssignOp::Mul => Some("mul"@),
        AssignOp::Div => Some("div"@),
        AssignOp::BitXor => Some("xor"@),
        AssignOp::BitAnd => Some("and"@),
        AssignOp::BitOr => Some("or"@),
        AssignOp::Mod => Some("mod"@),
    }
}

/// The word primitive that a compound assignment operator applies; `None`
/// for a plain assignment.
pub fn assign_op_callee(op: AssignOp) -> (r: Option<&'static str>)
    ensures
        match r {
            Some(s) => assign_op_text(op) == Some(s@),
            None => assign_op_text(op) is None,
        },
{
    match op {
        AssignOp::Plain => None,
        AssignOp::Add => Some("add"),
        AssignOp::Sub => Some("sub"),
        AssignOp::Mul => Some("mul"),
        AssignOp::Div => Some("div"),
        AssignOp::BitXor => Some("xor"),
        AssignOp::BitAnd => Some("and"),
        AssignOp::BitOr => Some("or"),
        AssignOp::Mod => Some("mod"),
    }
}

/// Lowers the assignment statement `lhs op rhs` at `span` over its already
/// emitted operands: a plain assignment stores `rhs`; a compound one stores
/// `callee(lhs, rhs)` for the operator's word primitive.
pub fn emit_assign_stmt(span: Span, op: AssignOp, lhs: HullExpr, rhs: HullExpr) -> (r: Vec<HullStmt>)
    ensures
        r@.len() == 1,
        r@[0].span == span,
        match assign_op_text(op) {
            None => r@[0].kind matches HullStmtKind::Assign { lhs: target, rhs: value } && target == lhs
                && value == rhs,
            Some(callee) => r@[0].kind matches HullStmtKind::Assign { lhs: target, rhs: value }
                && target == lhs && is_assign_call(value, span, callee, lhs, rhs),
        },
{
    match assign_op_callee(op) {
        None => {
            let mut out: Vec<HullStmt> = Vec::new();
            out.push(HullStmt { span, kind: HullStmtKind::Assign { lhs, rhs } });
            out
        },
        Some(callee) => emit_assign_op(span, lhs, callee, rhs),
    }
}

/// The helper that materializes one string literal.
#[derive(Debug)]
pub struct StringLiteralHelper {
    pub span: Span,
    pub name: String,
}

/// The emitter's record of string literal helpers: one helper per decoded
/// byte string, the counter for fresh helper names, and the names of all
/// functions of the module, helpers included.
#[derive(Debug)]
pub struct StringLiterals {
    pub helpers: Vec<(Vec<u8>, StringLiteralHelper)>,
    pub next_string_literal: usize,
    pub function_names: Vec<String>,
}

/// The name of the `n`-th candidate string literal helper.
pub open spec fn strlit_name(n: nat) -> Seq<char> {
    "__strlit_"@ + dec_text(n)
}

/// The name of the helper registered for `bytes`, if any.
pub open spec fn helper_for(helpers: Seq<(Vec<u8>, StringLiteralHelper)>, bytes: Seq<u8>) -> Option<Seq<char>>
    decreases helpers.len(),
{
    if helpers.len() == 0 {
        None
    } else if helpers[0].0@ == bytes {
        Some(helpers[0].1.name@)
    } else {
        helper_for(helpers.skip(1), bytes)
    }
}

proof fn lemma_dec_text_len(n: nat)
    ensures
        dec_text(n).len() >= 1,
        n >= 10 ==> dec_text(n).len() >= 2,
    decreases n,
{
    if n >= 10 {
        lemma_dec_text_len(n / 10);
    }
}

proof fn lemma_dec_digit_injective(a: nat, b: nat)
    requires
        a < 10,
        b < 10,
        dec_digit(a) == dec_digit(b),
    ensures
        a == b,
{
    assert((dec_digit(a) as nat) == 48 + a);
    assert((dec_digit(b) as nat) == 48 + b);
}

/// Distinct numbers have distinct decimal renderings.
pub proof fn lemma_dec_text_injective(a: nat, b: nat)
    requires
        dec_text(a) == dec_text(b),
    ensures
        a == b,
    decreases a,
{
    lemma_dec_text_len(a / 10);
    lemma_dec_text_len(b / 10);
    if a < 10 && b < 10 {
        assert(dec_text(a) =~= seq![dec_digit(a)]);
        assert(dec_text(b) =~= seq![dec_digit(b)]);
        assert(dec_text(a)[0] == dec_text(b)[0]);
        assert(seq![dec_digit(a)][0] == dec_digit(a));
        assert(seq![dec_digit(b)][0] == dec_digit(b));
        lemma_dec_digit_injective(a, b);
    } else if a < 10 {
        assert(dec_text(b).len() >= 2);
    } else if b < 10 {
        assert(dec_text(a).len() >= 2);
    } else {
        let da = dec_text(a);
        let db = dec_text(b);
        assert(da.last() == db.last());
        assert(da.drop_last() =~= dec_text(a / 10));
        assert(db.drop_last() =~= dec_text(b / 10));
        lemma_dec_digit_injective(a % 10, b % 10);
        lemma_dec_text_injective(a / 10, b / 10);
    }
}

proof fn lemma_strlit_name_injective(a: nat, b: nat)
    requires
        strlit_name(a) == strlit_name(b),
    ensures
        a == b,
{
    reveal_strlit("__strlit_");
    assert(strlit_name(a).skip(9) =~= dec_text(a));
    assert(strlit_name(b).skip(9) =~= dec_text(b));
    lemma_dec_text_injective(a, b);
}

/// `m` distinct candidate names all taken by `names` leave no more than
/// `names.len() - m` names.
proof fn lemma_taken_candidates(names: Seq<Seq<char>>, start: nat, m: nat)
    requires
        forall|j: nat| start <= j < start + m ==> names.contains(#[trigger] strlit_name(j)),
    ensures
        m <= names.len(),
{
    let cands = Seq::new(m, |i: int| strlit_name((start + i) as nat));
    assert forall|i: int, j: int| 0 <= i < cands.len() && 0 <= j < cands.len() && i != j implies cands[i] != cands[j] by {
        if cands[i] == cands[j] {
            lemma_strlit_name_injective((start + i) as nat, (start + j) as nat);
        }
    }
    assert(cands.no_duplicates());
    cands.unique_seq_to_set();
    names.lemma_cardinality_of_set();
    assert forall|x: Seq<char>| cands.to_set().contains(x) implies names.to_set().contains(x) by {
        let i = choose|i: int| 0 <= i < cands.len() && cands[i] == x;
        assert(names.contains(strlit_name((start + i) as nat)));
    }
    vstd::set_lib::lemma_len_subset(cands.to_set(), names.to_set());
}

fn contains_name(names: &Vec<String>, name: &String) -> (r: bool)
    ensures
        r == strings_view(names@).contains(name@),
{
    let mut i: usize = 0;
    while i < names.len()
        invariant
            i <= names@.len(),
            forall|j: int| 0 <= j < i ==> names@[j]@ != name@,
        decreases names@.len() - i,
    {
        if str_eq(names[i].as_str(), name.as_str()) {
            proof {
                assert(strings_view(names@)[i as int] == name@);
            }
            return true;
        }
        i = i + 1;
    }
    proof {
        if strings_view(names@).contains(name@) {
            let j = choose|j: int| 0 <= j < strings_view(names@).len() && strings_view(names@)[j] == name@;
            assert(names@[j]@ == name@);
        }
    }
    false
}

fn registered_helper(helpers: &Vec<(Vec<u8>, StringLiteralHelper)>, bytes: &Vec<u8>) -> (r: Option<String>)
    ensures
        match r {
            Some(n) => helper_for(helpers@, bytes@) == Some(n@),
            None => helper_for(helpers@, bytes@) is None,
        },
{
    let mut i: usize = 0;
    proof {
        assert(helpers@.skip(0) =~= helpers@);
    }
    while i < helpers.len()
        invariant
            i <= helpers@.len(),
            helper_for(helpers@, bytes@) == helper_for(helpers@.skip(i as int), bytes@),
        decreases helpers@.len() - i,
    {
        proof {
            assert(helpers@.skip(i as int)[0] == helpers@[i as int]);
            assert(helpers@.skip(i as int).skip(1) =~= helpers@.skip(i + 1));
        }
        let key = &helpers[i].0;
        let mut same = key.len() == bytes.len();
        let mut k: usize = 0;
        while same && k < key.len()
            invariant
                k <= key@.len(),
                same ==> key@.len() == bytes@.len() && key@.subrange(0, k as int) =~= bytes@.subrange(0, k as int),
                !same ==> key@ != bytes@,
            decreases key@.len() - k,
        {
            if key[k] != bytes[k] {
                same = false;
            }
            k = k + 1;
        }
        if same {
            proof {
                assert(key@ =~= key@.subrange(0, k as int));
                assert(bytes@ =~= bytes@.subrange(0, k as int));
            }
            return Some(helpers[i].1.name.clone());
        }
        i = i + 1;
    }
    None
}

/// `after` is `before` once the helper for `bytes`, first used at `span`, is
/// registered under `name`: the helper already registered for them, or a
/// new one named by the first `__strlit_<n>` candidate, from the counter on,
/// that no function of the module has, recorded with its span.
pub open spec fn registration(before: StringLiterals, after: StringLiterals, span: Span, bytes: Seq<u8>, name: Seq<char>) -> bool {
    match helper_for(before.helpers@, bytes) {
        Some(n) => {
            &&& name == n
            &&& after.helpers@ == before.helpers@
            &&& after.next_string_literal == before.next_string_literal
            &&& after.function_names@ == before.function_names@
        },
        None => {
            let k = (after.next_string_literal - 1) as nat;
            &&& before.next_string_literal <= k
            &&& name == strlit_name(k)
            &&& !strings_view(before.function_names@).contains(strlit_name(k))
            &&& forall|j: nat| before.next_string_literal <= j < k
                ==> strings_view(before.function_names@).contains(#[trigger] strlit_name(j))
            &&& after.function_names@.len() == before.function_names@.len() + 1
            &&& after.function_names@.drop_last() == before.function_names@
            &&& after.function_names@.last()@ == name
            &&& after.helpers@.len() == before.helpers@.len() + 1
            &&& after.helpers@.drop_last() == before.helpers@
            &&& after.helpers@.last().0@ == bytes
            &&& after.helpers@.last().1.span == span
            &&& after.helpers@.last().1.name@ == name
        },
    }
}

/// Returns the helper that materializes the decoded bytes `bytes`,
/// registering a new one on first use: equal byte strings share one helper.
/// A new helper takes the first name `__strlit_<n>`, counting from
/// `next_string_literal`, that no function of the module has, and the
/// counter moves past it.
pub fn register_string_literal(literals: &mut StringLiterals, span: Span, bytes: Vec<u8>) -> (name: String)
    requires
        old(literals).next_string_literal + old(literals).function_names@.len() < usize::MAX,
    ensures
        registration(*old(literals), *final(literals), span, bytes@, name@),
{
    if let Some(existing) = registered_helper(&literals.helpers, &bytes) {
        return existing;
    }
    let ghost start = literals.next_string_literal as nat;
    let ghost names = strings_view(literals.function_names@);
    let mut name = String::new();
    loop
        invariant_except_break
            forall|j: nat| start <= j < literals.next_string_literal ==> names.contains(#[trigger] strlit_name(j)),
            literals.next_string_literal - start <= names.len(),
        invariant
            literals.helpers@ == old(literals).helpers@,
            literals.function_names@ == old(literals).function_names@,
            start == old(literals).next_string_literal,
            helper_for(old(literals).helpers@, bytes@) is None,
            start <= literals.next_string_literal,
            start + names.len() < usize::MAX,
            names == strings_view(literals.function_names@),
        ensures
            literals.next_string_literal >= 1,
            start <= literals.next_string_literal - 1,
            name@ == strlit_name((literals.next_string_literal - 1) as nat),
            !names.contains(name@),
            forall|j: nat| start <= j < literals.next_string_literal - 1 ==> names.contains(#[trigger] strlit_name(j)),
            names == strings_view(literals.function_names@),
        decreases names.len() + start - literals.next_string_literal,
    {
        let mut candidate = string_of("__strlit_");
        let digits = decimal(literals.next_string_literal);
        push_str(&mut candidate, digits.as_str());
        literals.next_string_literal = literals.next_string_literal + 1;
        if !contains_name(&literals.function_names, &candidate) {
            name = candidate;
            break;
        }
        proof {
            lemma_taken_candidates(names, start, (literals.next_string_literal - start) as nat);
        }
    }
    let ghost old_names = literals.function_names@;
    literals.function_names.push(name.clone());
    proof {
        assert(literals.function_names@.drop_last() =~= old_names);
    }
    let helper = StringLiteralHelper { span, name: name.clone() };
    let ghost old_helpers = literals.helpers@;
    literals.helpers.push((bytes, helper));
    proof {
        assert(literals.helpers@.drop_last() =~= old_helpers);
    }
    name
}

} // verus!
