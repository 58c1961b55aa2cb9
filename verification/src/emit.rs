//! Pure helpers of the Hull emitter: string-literal decoding and layout,
//! name tables for intrinsics and operators, the lowering of operators over
//! already emitted operands, scoped name lookup, and small queries over the
//! monomorphized and Hull intermediate representations.
use vstd::prelude::*;
use vstd::string::*;
use vstd::utf8::encode_utf8;
use crate::diag::Span;
use crate::text::{byte_hex, hex_digit_char, push_char, push_str, string_of};
use crate::ty::{is_canonical_std_def_named, canonical_std_named, lemma_tys_view, Db, Ty, TyCtor, TyView};

verus! {

// ---------------------------------------------------------------------------
// String literals

/// The character denoted by `\c` in a string literal: `n`, `t` and `r` are
/// control characters, `0` is NUL, any other character stands for itself.
pub open spec fn escaped_char(c: char) -> char {
    if c == 'n' {
        '\n'
    } else if c == 't' {
        '\t'
    } else if c == 'r' {
        '\r'
    } else if c == '0' {
        '\0'
    } else {
        c
    }
}

/// Decodes the escapes of a literal's contents, left to right. A trailing
/// lone backslash stands for itself.
pub open spec fn decode_escapes(s: Seq<char>) -> Seq<char>
    decreases s.len(),
{
    if s.len() == 0 {
        Seq::empty()
    } else if s[0] == '\\' && s.len() >= 2 {
        seq![escaped_char(s[1])] + decode_escapes(s.skip(2))
    } else {
        seq![s[0]] + decode_escapes(s.skip(1))
    }
}

/// The decoded contents of a double-quoted source string literal.
pub open spec fn decoded_literal(source: Seq<char>) -> Option<Seq<char>> {
    if source.len() >= 2 && source[0] == '"' && source[source.len() - 1] == '"' {
        Some(decode_escapes(source.subrange(1, source.len() - 1)))
    } else {
        None
    }
}

fn escaped(c: char) -> (r: char)
    ensures
        r == escaped_char(c),
{
    if c == 'n' {
        '\n'
    } else if c == 't' {
        '\t'
    } else if c == 'r' {
        '\r'
    } else if c == '0' {
        '\0'
    } else {
        c
    }
}

/// Decodes a double-quoted source string literal; `None` when `source` is
/// not quoted.
pub fn decode_string_literal(source: &str) -> (r: Option<String>)
    ensures
        match r {
            Some(s) => decoded_literal(source@) == Some(s@),
            None => decoded_literal(source@) is None,
        },
{
    let n = source.unicode_len();
    if n < 2 || source.get_char(0) != '"' || source.get_char(n - 1) != '"' {
        return None;
    }
    let ghost content = source@.subrange(1, n - 1);
    let mut out = String::new();
    let mut i: usize = 1;
    while i < n - 1
        invariant
            n == source@.len(),
            n >= 2,
            1 <= i <= n - 1,
            content == source@.subrange(1, n - 1),
            out@ + decode_escapes(source@.subrange(i as int, n - 1)) == decode_escapes(content),
        decreases n - i,
    {
        let ghost rest = source@.subrange(i as int, n - 1);
        let c = source.get_char(i);
        if c == '\\' && i + 1 < n - 1 {
            let e = source.get_char(i + 1);
            proof {
                assert(rest.skip(2) =~= source@.subrange(i + 2, n - 1));
                assert(out@.push(escaped_char(e)) + decode_escapes(rest.skip(2)) =~= out@ + (seq![escaped_char(e)] + decode_escapes(rest.skip(2))));
            }
            push_char(&mut out, escaped(e));
            i = i + 2;
        } else {
            proof {
                assert(rest.skip(1) =~= source@.subrange(i + 1, n - 1));
                assert(out@.push(c) + decode_escapes(rest.skip(1)) =~= out@ + (seq![c] + decode_escapes(rest.skip(1))));
            }
            push_char(&mut out, c);
            i = i + 1;
        }
    }
    proof {
        assert(source@.subrange(i as int, n - 1).len() == 0);
        assert(out@ + decode_escapes(source@.subrange(i as int, n - 1)) =~= out@);
    }
    Some(out)
}

/// The byte at `i` of `bytes`, or zero past its end.
pub open spec fn padded_byte(bytes: Seq<u8>, i: int) -> u8 {
    if 0 <= i < bytes.len() {
        bytes[i]
    } else {
        0
    }
}

/// `0x` and the 64 hexadecimal digits of the 32-byte word `k` of `bytes`,
/// right-padded with zero bytes.
pub open spec fn literal_word(bytes: Seq<u8>, k: int) -> Seq<char> {
    seq!['0', 'x'] + Seq::new(64, |p: int| byte_hex(padded_byte(bytes, 32 * k + p / 2))[p % 2])
}

/// Number of 32-byte words needed for `len` bytes.
pub open spec fn word_count(len: nat) -> nat {
    (len + 31) / 32
}

/// Returns the right-padded, big-endian EVM words holding the string bytes and
/// the total allocation size (one length word plus the payload words).
pub fn string_literal_layout(bytes: &[u8]) -> (r: (Vec<String>, usize))
    requires
        bytes@.len() + 64 <= usize::MAX,
    ensures
        r.0@.len() == word_count(bytes@.len() as nat),
        forall|k: int| 0 <= k < r.0@.len() ==> #[trigger] r.0@[k]@ == literal_word(bytes@, k),
        r.1 == 32 * (1 + r.0@.len()),
{
    let len = bytes.len();
    let mut words: Vec<String> = Vec::new();
    let mut start: usize = 0;
    while start < len
        invariant
            len == bytes@.len(),
            len + 64 <= usize::MAX,
            start % 32 == 0,
            start <= len + 31,
            start < len ==> words@.len() * 32 == start,
            start >= len ==> words@.len() == word_count(len as nat),
            words@.len() * 32 == start,
            forall|k: int| 0 <= k < words@.len() ==> #[trigger] words@[k]@ == literal_word(bytes@, k),
        decreases len + 32 - start,
    {
        let mut word = String::new();
        push_char(&mut word, '0');
        push_char(&mut word, 'x');
        let mut j: usize = 0;
        while j < 32
            invariant
                len == bytes@.len(),
                start < len,
                len + 64 <= usize::MAX,
                j <= 32,
                word@ == seq!['0', 'x'] + Seq::new(2 * j as nat, |p: int| byte_hex(padded_byte(bytes@, start + p / 2))[p % 2]),
            decreases 32 - j,
        {
            let b = if start + j < len {
                bytes[start + j]
            } else {
                0u8
            };
            push_char(&mut word, hex_digit_char(b / 16));
            push_char(&mut word, hex_digit_char(b % 16));
            proof {
                assert(word@ =~= seq!['0', 'x'] + Seq::new(2 * (j + 1) as nat, |p: int| byte_hex(padded_byte(bytes@, start + p / 2))[p % 2]));
            }
            j = j + 1;
        }
        proof {
            let k = words@.len() as int;
            assert(start == 32 * k);
            assert(word@ =~= literal_word(bytes@, k));
        }
        words.push(word);
        start = start + 32;
    }
    let total = 32 * (1 + words.len());
    (words, total)
}

} // verus!

verus! {

// ---------------------------------------------------------------------------
// Hull expressions

/// A Hull type, as far as the emitter builds them.
#[derive(Debug, PartialEq, Eq)]
pub enum HullTy {
    Word,
    Unit,
    Pair(Box<HullTy>, Box<HullTy>),
    Sum(Box<HullTy>, Box<HullTy>),
}

impl HullTy {
    /// A deep copy of the type.
    pub fn duplicate(&self) -> (r: HullTy)
        ensures
            r == *self,
        decreases self,
    {
        match self {
            HullTy::Word => HullTy::Word,
            HullTy::Unit => HullTy::Unit,
            HullTy::Pair(a, b) => HullTy::Pair(Box::new(a.duplicate()), Box::new(b.duplicate())),
            HullTy::Sum(a, b) => HullTy::Sum(Box::new(a.duplicate()), Box::new(b.duplicate())),
        }
    }
}

/// A Hull IR expression: its source span, its Hull type and its shape.
#[derive(Debug)]
pub struct HullExpr {
    pub span: Span,
    pub ty: HullTy,
    pub kind: HullExprKind,
}

/// The shape of a Hull IR expression, as far as the emitter builds them.
#[derive(Debug)]
pub enum HullExprKind {
    Var(String),
    Pair(Box<HullExpr>, Box<HullExpr>),
    Fst(Box<HullExpr>),
    Snd(Box<HullExpr>),
    Inl { target: HullTy, value: Box<HullExpr> },
    Inr { target: HullTy, value: Box<HullExpr> },
    InK(Box<HullExpr>),
    Call { callee: String, args: Vec<HullExpr> },
    If { target: HullTy, cond: Box<HullExpr>, then_expr: Box<HullExpr>, else_expr: Box<HullExpr> },
    Word(String),
    Bool(bool),
    Unit,
}

/// The mathematical value of a `HullExpr`.
pub struct HExpr {
    pub span: Span,
    pub ty: HullTy,
    pub kind: HExprKind,
}

/// The mathematical value of a `HullExprKind`.
pub enum HExprKind {
    Var(Seq<char>),
    Pair(Box<HExpr>, Box<HExpr>),
    Fst(Box<HExpr>),
    Snd(Box<HExpr>),
    Inl(HullTy, Box<HExpr>),
    Inr(HullTy, Box<HExpr>),
    InK(Box<HExpr>),
    Call(Seq<char>, Seq<HExpr>),
    If(HullTy, Box<HExpr>, Box<HExpr>, Box<HExpr>),
    Word(Seq<char>),
    Bool(bool),
    Unit,
}

pub open spec fn hexpr(e: HullExpr) -> HExpr
    decreases e,
{
    HExpr {
        span: e.span,
        ty: e.ty,
        kind: match e.kind {
            HullExprKind::Var(v) => HExprKind::Var(v@),
            HullExprKind::Pair(l, r) => HExprKind::Pair(Box::new(hexpr(*l)), Box::new(hexpr(*r))),
            HullExprKind::Fst(x) => HExprKind::Fst(Box::new(hexpr(*x))),
            HullExprKind::Snd(x) => HExprKind::Snd(Box::new(hexpr(*x))),
            HullExprKind::Inl { target, value } => HExprKind::Inl(target, Box::new(hexpr(*value))),
            HullExprKind::Inr { target, value } => HExprKind::Inr(target, Box::new(hexpr(*value))),
            HullExprKind::InK(x) => HExprKind::InK(Box::new(hexpr(*x))),
            HullExprKind::Call { callee, args } => HExprKind::Call(callee@, hexprs(args@)),
            HullExprKind::If { target, cond, then_expr, else_expr } => HExprKind::If(
                target,
                Box::new(hexpr(*cond)),
                Box::new(hexpr(*then_expr)),
                Box::new(hexpr(*else_expr)),
            ),
            HullExprKind::Word(w) => HExprKind::Word(w@),
            HullExprKind::Bool(b) => HExprKind::Bool(b),
            HullExprKind::Unit => HExprKind::Unit,
        },
    }
}

pub open spec fn hexprs(s: Seq<HullExpr>) -> Seq<HExpr>
    decreases s,
{
    if s.len() == 0 {
        Seq::empty()
    } else {
        hexprs(s.drop_last()).push(hexpr(s.last()))
    }
}

impl View for HullExpr {
    type V = HExpr;

    open spec fn view(&self) -> HExpr {
        hexpr(*self)
    }
}

impl HullExpr {
    /// The expression `kind` at `span` with type `ty`.
    pub fn new(span: Span, ty: HullTy, kind: HullExprKind) -> (r: HullExpr)
        ensures
            r == (HullExpr { span, ty, kind }),
    {
        HullExpr { span, ty, kind }
    }

    /// The variable `name` of type `ty`, read at `span`.
    pub fn var(span: Span, name: &str, ty: HullTy) -> (r: HullExpr)
        ensures
            r.span == span && r.ty == ty,
            r.kind matches HullExprKind::Var(v) && v@ == name@,
    {
        HullExpr { span, ty, kind: HullExprKind::Var(string_of(name)) }
    }

    /// The unit value at `span`.
    pub fn unit(span: Span) -> (r: HullExpr)
        ensures
            r == unit_expr(span),
    {
        HullExpr { span, ty: HullTy::Unit, kind: HullExprKind::Unit }
    }

    /// A deep copy of the expression.
    #[verifier::loop_isolation(false)]
    pub fn duplicate(&self) -> (r: HullExpr)
        ensures
            r@ == self@,
        decreases self,
    {
        let kind = match &self.kind {
            HullExprKind::Var(v) => HullExprKind::Var(v.clone()),
            HullExprKind::Pair(l, r) => HullExprKind::Pair(Box::new(l.duplicate()), Box::new(r.duplicate())),
            HullExprKind::Fst(x) => HullExprKind::Fst(Box::new(x.duplicate())),
            HullExprKind::Snd(x) => HullExprKind::Snd(Box::new(x.duplicate())),
            HullExprKind::Inl { target, value } => HullExprKind::Inl {
                target: target.duplicate(),
                value: Box::new(value.duplicate()),
            },
            HullExprKind::Inr { target, value } => HullExprKind::Inr {
                target: target.duplicate(),
                value: Box::new(value.duplicate()),
            },
            HullExprKind::InK(x) => HullExprKind::InK(Box::new(x.duplicate())),
            HullExprKind::Call { callee, args } => {
                let mut out: Vec<HullExpr> = Vec::new();
                let mut i: usize = 0;
                while i < args.len()
                    invariant
                        i <= args@.len(),
                        hexprs(out@) == hexprs(args@.take(i as int)),
                    decreases args@.len() - i,
                {
                    proof {
                        assert(decreases_to!(args => args@));
                        assert(decreases_to!(args@ => args@[i as int]));
                    }
                    let a = args[i].duplicate();
                    proof {
                        assert(out@.push(a).drop_last() =~= out@);
                        assert(args@.take(i + 1).drop_last() =~= args@.take(i as int));
                    }
                    out.push(a);
                    i = i + 1;
                }
                proof {
                    assert(args@.take(args@.len() as int) =~= args@);
                }
                HullExprKind::Call { callee: callee.clone(), args: out }
            },
            HullExprKind::If { target, cond, then_expr, else_expr } => HullExprKind::If {
                target: target.duplicate(),
                cond: Box::new(cond.duplicate()),
                then_expr: Box::new(then_expr.duplicate()),
                else_expr: Box::new(else_expr.duplicate()),
            },
            HullExprKind::Word(w) => HullExprKind::Word(w.clone()),
            HullExprKind::Bool(b) => HullExprKind::Bool(*b),
            HullExprKind::Unit => HullExprKind::Unit,
        };
        HullExpr { span: self.span, ty: self.ty.duplicate(), kind }
    }
}

/// The unit value at `span`, of the unit type.
pub open spec fn unit_expr(span: Span) -> HullExpr {
    HullExpr { span, ty: HullTy::Unit, kind: HullExprKind::Unit }
}

/// Whether `e` reads the variable `name`.
pub open spec fn reads_var(e: HullExpr, name: Seq<char>) -> bool
    decreases e,
{
    match e.kind {
        HullExprKind::Var(v) => v@ == name,
        HullExprKind::Pair(l, r) => reads_var(*l, name) || reads_var(*r, name),
        HullExprKind::Fst(x) => reads_var(*x, name),
        HullExprKind::Snd(x) => reads_var(*x, name),
        HullExprKind::Inl { value, .. } => reads_var(*value, name),
        HullExprKind::Inr { value, .. } => reads_var(*value, name),
        HullExprKind::InK(x) => reads_var(*x, name),
        HullExprKind::Call { args, .. } => any_reads_var(args@, name),
        HullExprKind::If { cond, then_expr, else_expr, .. } => reads_var(*cond, name) || reads_var(
            *then_expr,
            name,
        ) || reads_var(*else_expr, name),
        _ => false,
    }
}

pub open spec fn any_reads_var(s: Seq<HullExpr>, name: Seq<char>) -> bool
    decreases s,
{
    if s.len() == 0 {
        false
    } else {
        any_reads_var(s.drop_last(), name) || reads_var(s.last(), name)
    }
}

/// Whether the Hull expression reads the variable `expected`.
pub fn expr_reads_var(expr: &HullExpr, expected: &str) -> (r: bool)
    ensures
        r == reads_var(*expr, expected@),
    decreases expr,
{
    match &expr.kind {
        HullExprKind::Var(name) => crate::text::str_eq(name.as_str(), expected),
        HullExprKind::Pair(lhs, rhs) => expr_reads_var(lhs, expected) || expr_reads_var(rhs, expected),
        HullExprKind::Fst(e) => expr_reads_var(e, expected),
        HullExprKind::Snd(e) => expr_reads_var(e, expected),
        HullExprKind::Inl { value, .. } => expr_reads_var(value, expected),
        HullExprKind::Inr { value, .. } => expr_reads_var(value, expected),
        HullExprKind::InK(e) => expr_reads_var(e, expected),
        HullExprKind::Call { args, .. } => {
            proof {
                assert(args@.take(args@.len() as int) =~= args@);
            }
            args_read_var(args, args.len(), expected)
        },
        HullExprKind::If { cond, then_expr, else_expr, .. } => expr_reads_var(cond, expected)
            || expr_reads_var(then_expr, expected) || expr_reads_var(else_expr, expected),
        _ => false,
    }
}

fn args_read_var(args: &Vec<HullExpr>, n: usize, expected: &str) -> (r: bool)
    requires
        n <= args@.len(),
    ensures
        r == any_reads_var(args@.take(n as int), expected@),
    decreases args, n,
{
    if n == 0 {
        return false;
    }
    proof {
        assert(args@.take(n as int).drop_last() =~= args@.take(n - 1));
        assert(decreases_to!(args => args@));
        assert(decreases_to!(args@ => args@[n - 1]));
    }
    args_read_var(args, n - 1, expected) || expr_reads_var(&args[n - 1], expected)
}

// ---------------------------------------------------------------------------
// Monomorphized statements

/// A monomorphized statement, as far as let-hoisting inspects it.
#[derive(Debug)]
pub struct MonoStmt {
    pub span: Span,
    pub kind: MonoStmtKind,
}

#[derive(Debug)]
pub enum MonoStmtKind {
    Let { name: String },
    If { then_body: Vec<MonoStmt>, else_body: Option<Vec<MonoStmt>> },
    For { init: Vec<MonoStmt>, post: Vec<MonoStmt>, body: Vec<MonoStmt> },
    Match { arms: Vec<Vec<MonoStmt>> },
    Block(Vec<MonoStmt>),
    Return,
    Expr,
    Assign,
    Assembly,
    Break,
    Continue,
    Error,
}

/// The `let` statements whose bindings escape into the enclosing scope:
/// those directly in `stmts` and, recursively, those in `if` branches and
/// `for` headers and bodies. Blocks and match arms keep their own scopes.
pub open spec fn leaking_lets(stmts: Seq<MonoStmt>) -> Seq<MonoStmt>
    decreases stmts,
{
    if stmts.len() == 0 {
        Seq::empty()
    } else {
        leaking_lets(stmts.drop_last()) + stmt_leaking_lets(stmts.last())
    }
}

pub open spec fn stmt_leaking_lets(stmt: MonoStmt) -> Seq<MonoStmt>
    decreases stmt,
{
    match stmt.kind {
        MonoStmtKind::Let { .. } => seq![stmt],
        MonoStmtKind::If { then_body, else_body } => leaking_lets(then_body@) + match else_body {
            Some(e) => leaking_lets(e@),
            None => Seq::empty(),
        },
        MonoStmtKind::For { init, post, body } => leaking_lets(init@) + leaking_lets(post@) + leaking_lets(body@),
        _ => Seq::empty(),
    }
}

pub open spec fn derefs<'a>(s: Seq<&'a MonoStmt>) -> Seq<MonoStmt> {
    s.map_values(|r: &'a MonoStmt| *r)
}

/// Appends to `out` the `let` statements of `stmts` that leak into the
/// enclosing scope, in source order.
pub fn collect_leaking_let_stmts<'a>(stmts: &'a Vec<MonoStmt>, out: &mut Vec<&'a MonoStmt>)
    ensures
        derefs(final(out)@) == derefs(old(out)@) + leaking_lets(stmts@),
    decreases stmts,
{
    let mut i: usize = 0;
    proof {
        assert(derefs(out@) + leaking_lets(stmts@.take(0)) =~= derefs(out@));
    }
    while i < stmts.len()
        invariant
            i <= stmts@.len(),
            derefs(out@) == derefs(old(out)@) + leaking_lets(stmts@.take(i as int)),
        decreases stmts@.len() - i,
    {
        let stmt = &stmts[i];
        proof {
            assert(decreases_to!(stmts => stmts@));
            assert(decreases_to!(stmts@ => stmts@[i as int]));
            assert(stmts@.take(i + 1).drop_last() =~= stmts@.take(i as int));
        }
        let ghost before = derefs(out@);
        match &stmt.kind {
            MonoStmtKind::Let { .. } => {
                out.push(stmt);
                proof {
                    assert(derefs(out@) =~= before + seq![*stmt]);
                }
            },
            MonoStmtKind::If { then_body, else_body } => {
                collect_leaking_let_stmts(then_body, out);
                if let Some(else_body) = else_body {
                    collect_leaking_let_stmts(else_body, out);
                }
                proof {
                    assert(derefs(out@) =~= before + stmt_leaking_lets(*stmt));
                }
            },
            MonoStmtKind::For { init, post, body } => {
                collect_leaking_let_stmts(init, out);
                collect_leaking_let_stmts(post, out);
                collect_leaking_let_stmts(body, out);
                proof {
                    assert(derefs(out@) =~= before + stmt_leaking_lets(*stmt));
                }
            },
            _ => {
                proof {
                    assert(derefs(out@) =~= before + stmt_leaking_lets(*stmt));
                }
            },
        }
        proof {
            assert(leaking_lets(stmts@.take(i + 1)) =~= leaking_lets(stmts@.take(i as int)) + stmt_leaking_lets(*stmt));
        }
        i = i + 1;
    }
    proof {
        assert(stmts@.take(stmts@.len() as int) =~= stmts@);
    }
}

} // verus!

verus! {

// ---------------------------------------------------------------------------
// Names of intrinsics, operators and expression kinds

#[derive(Clone, Copy, Debug, PartialEq, Eq, Hash, Structural)]
pub enum MonoIntrinsic {
    PrimAddWord,
    PrimEqWord,
    SubWord,
    MulWord,
    GtWord,
    BxorWord,
    BandWord,
    BorWord,
    BnotWord,
    WordToInteger,
    WordFromInteger,
    IntegerAdd,
    IntegerSub,
    IntegerMul,
    IntegerLt,
    IntegerEq,
    ConcatLit,
    StrlenLit,
    KeccakLit,
    KeccakWordLit,
    MemStringFromLit,
}

pub open spec fn intrinsic_text(i: MonoIntrinsic) -> Seq<char> {
    match i {
        MonoIntrinsic::PrimAddWord => "primAddWord"@,
        MonoIntrinsic::PrimEqWord => "primEqWord"@,
        MonoIntrinsic::SubWord => "subWord"@,
        MonoIntrinsic::MulWord => "mulWord"@,
        MonoIntrinsic::GtWord => "gtWord"@,
        MonoIntrinsic::BxorWord => "bxorWord"@,
        MonoIntrinsic::BandWord => "bandWord"@,
        MonoIntrinsic::BorWord => "borWord"@,
        MonoIntrinsic::BnotWord => "bnotWord"@,
        MonoIntrinsic::WordToInteger => "wordToInteger"@,
        MonoIntrinsic::WordFromInteger => "wordFromInteger"@,
        MonoIntrinsic::IntegerAdd => "integerAdd"@,
        MonoIntrinsic::IntegerSub => "integerSub"@,
        MonoIntrinsic::IntegerMul => "integerMul"@,
        MonoIntrinsic::IntegerLt => "integerLt"@,
        MonoIntrinsic::IntegerEq => "integerEq"@,
        MonoIntrinsic::ConcatLit => "concatLit"@,
        MonoIntrinsic::StrlenLit => "strlenLit"@,
        MonoIntrinsic::KeccakLit => "keccakLit"@,
        MonoIntrinsic::KeccakWordLit => "keccakWordLit"@,
        MonoIntrinsic::MemStringFromLit => "memStringFromLit"@,
    }
}

/// The backend function implementing an intrinsic.
pub fn intrinsic_name(intrinsic: MonoIntrinsic) -> (s: &'static str)
    ensures
        s@ == intrinsic_text(intrinsic),
{
    match intrinsic {
        MonoIntrinsic::PrimAddWord => "primAddWord",
        MonoIntrinsic::PrimEqWord => "primEqWord",
        MonoIntrinsic::SubWord => "subWord",
        MonoIntrinsic::MulWord => "mulWord",
        MonoIntrinsic::GtWord => "gtWord",
        MonoIntrinsic::BxorWord => "bxorWord",
        MonoIntrinsic::BandWord => "bandWord",
        MonoIntrinsic::BorWord => "borWord",
        MonoIntrinsic::BnotWord => "bnotWord",
        MonoIntrinsic::WordToInteger => "wordToInteger",
        MonoIntrinsic::WordFromInteger => "wordFromInteger",
        MonoIntrinsic::IntegerAdd => "integerAdd",
        MonoIntrinsic::IntegerSub => "integerSub",
        MonoIntrinsic::IntegerMul => "integerMul",
        MonoIntrinsic::IntegerLt => "integerLt",
        MonoIntrinsic::IntegerEq => "integerEq",
        MonoIntrinsic::ConcatLit => "concatLit",
        MonoIntrinsic::StrlenLit => "strlenLit",
        MonoIntrinsic::KeccakLit => "keccakLit",
        MonoIntrinsic::KeccakWordLit => "keccakWordLit",
        MonoIntrinsic::MemStringFromLit => "memStringFromLit",
    }
}

/// Where a monomorphized call's callee comes from.
#[derive(Clone, Copy, Debug, PartialEq, Eq, Hash, Structural)]
pub enum MonoCallOrigin {
    Builtin(MonoIntrinsic),
    Source(u32),
    ByName,
}

/// The backend callee name: intrinsics by their backend name, other calls
/// by their own name.
pub fn call_name(origin: &MonoCallOrigin, name: &str) -> (s: String)
    ensures
        s@ == match origin {
            MonoCallOrigin::Builtin(i) => intrinsic_text(*i),
            _ => name@,
        },
{
    let mut out = String::new();
    match origin {
        MonoCallOrigin::Builtin(intrinsic) => push_str(&mut out, intrinsic_name(*intrinsic)),
        _ => push_str(&mut out, name),
    }
    out
}

pub open spec fn bin_op_text(op: crate::ops::BinOp) -> Option<Seq<char>> {
    match op {
        crate::ops::BinOp::Add => Some("add"@),
        crate::ops::BinOp::Sub => Some("sub"@),
        crate::ops::BinOp::Mul => Some("mul"@),
        crate::ops::BinOp::Div => Some("div"@),
        crate::ops::BinOp::Mod => Some("mod"@),
        crate::ops::BinOp::BitAnd => Some("and"@),
        crate::ops::BinOp::BitXor => Some("xor"@),
        crate::ops::BinOp::BitOr => Some("or"@),
        crate::ops::BinOp::Eq => Some("primEqWord"@),
        crate::ops::BinOp::Lt => Some("lt"@),
        crate::ops::BinOp::Gt => Some("gt"@),
        _ => None,
    }
}

/// The word primitive implementing a binary operator directly, if any.
pub fn bin_op_name(op: crate::ops::BinOp) -> (r: Option<&'static str>)
    ensures
        match r {
            Some(s) => bin_op_text(op) == Some(s@),
            None => bin_op_text(op) is None,
        },
{
    match op {
        crate::ops::BinOp::Add => Some("add"),
        crate::ops::BinOp::Sub => Some("sub"),
        crate::ops::BinOp::Mul => Some("mul"),
        crate::ops::BinOp::Div => Some("div"),
        crate::ops::BinOp::Mod => Some("mod"),
        crate::ops::BinOp::BitAnd => Some("and"),
        crate::ops::BinOp::BitXor => Some("xor"),
        crate::ops::BinOp::BitOr => Some("or"),
        crate::ops::BinOp::Eq => Some("primEqWord"),
        crate::ops::BinOp::Lt => Some("lt"),
        crate::ops::BinOp::Gt => Some("gt"),
        _ => None,
    }
}

/// `e` is, at `span` and of type `ty`, a call of `callee` on exactly `args`.
pub open spec fn is_call(e: HullExpr, span: Span, ty: HullTy, callee: Seq<char>, args: Seq<HullExpr>) -> bool {
    &&& e.span == span
    &&& e.ty == ty
    &&& e.kind matches HullExprKind::Call { callee: n, args: a } && n@ == callee && a@ == args
}

/// `e` is `outer(inner(args))`, both calls at `span` and of type `ty`.
pub open spec fn is_nested_call(
    e: HullExpr,
    span: Span,
    ty: HullTy,
    outer: Seq<char>,
    inner: Seq<char>,
    args: Seq<HullExpr>,
) -> bool {
    &&& e.span == span
    &&& e.ty == ty
    &&& e.kind matches HullExprKind::Call { callee: n, args: a } && n@ == outer && a@.len() == 1
        && is_call(a@[0], span, ty, inner, args)
}

/// The boolean constant `b` at `span`, of type `ty`.
pub open spec fn bool_expr(span: Span, ty: HullTy, b: bool) -> HullExpr {
    HullExpr { span, ty, kind: HullExprKind::Bool(b) }
}

/// How a binary operator applied to the emitted operands `lhs` and `rhs`
/// lowers at `span` with result type `ty`: `!=`, `<=` and `>=` negate
/// `primEqWord`, `gt` and `lt`; `&&` and `||` branch on `lhs` with target
/// `ty`; the other operators call their word primitive; an operator with
/// none calls `unsupported` with no arguments. Every node built carries
/// `span` and `ty`.
pub open spec fn lowered_bin_op(
    span: Span,
    ty: HullTy,
    op: crate::ops::BinOp,
    lhs: HullExpr,
    rhs: HullExpr,
    r: HullExpr,
) -> bool {
    match op {
        crate::ops::BinOp::NotEq => is_nested_call(r, span, ty, "iszero"@, "primEqWord"@, seq![lhs, rhs]),
        crate::ops::BinOp::LtEq => is_nested_call(r, span, ty, "iszero"@, "gt"@, seq![lhs, rhs]),
        crate::ops::BinOp::GtEq => is_nested_call(r, span, ty, "iszero"@, "lt"@, seq![lhs, rhs]),
        crate::ops::BinOp::And => r == (HullExpr {
            span,
            ty,
            kind: HullExprKind::If {
                target: ty,
                cond: Box::new(lhs),
                then_expr: Box::new(rhs),
                else_expr: Box::new(bool_expr(span, ty, false)),
            },
        }),
        crate::ops::BinOp::Or => r == (HullExpr {
            span,
            ty,
            kind: HullExprKind::If {
                target: ty,
                cond: Box::new(lhs),
                then_expr: Box::new(bool_expr(span, ty, true)),
                else_expr: Box::new(rhs),
            },
        }),
        _ => match bin_op_text(op) {
            Some(name) => is_call(r, span, ty, name, seq![lhs, rhs]),
            None => is_call(r, span, ty, "unsupported"@, Seq::empty()),
        },
    }
}

/// The call `callee(args)` at `span`, of type `ty`.
fn call_expr(span: Span, ty: HullTy, callee: &str, args: Vec<HullExpr>) -> (r: HullExpr)
    ensures
        is_call(r, span, ty, callee@, args@),
{
    HullExpr { span, ty, kind: HullExprKind::Call { callee: string_of(callee), args } }
}

/// Lowers a binary operator over its already emitted operands, at `span`
/// with result type `ty`. The second component names the construct that
/// could not be lowered, if any.
pub fn emit_bin_op(span: Span, ty: HullTy, lhs: HullExpr, op: crate::ops::BinOp, rhs: HullExpr) -> (r: (
    HullExpr,
    Option<String>,
))
    ensures
        lowered_bin_op(span, ty, op, lhs, rhs, r.0),
        match r.1 {
            Some(c) => op == crate::ops::BinOp::Error && c@ == "binary operator Error"@,
            None => op != crate::ops::BinOp::Error,
        },
{
    match op {
        crate::ops::BinOp::NotEq => {
            let eq = call_expr(span, ty.duplicate(), "primEqWord", vec![lhs, rhs]);
            let args = vec![eq];
            assert(args@ =~= seq![eq]);
            return (call_expr(span, ty, "iszero", args), None);
        },
        crate::ops::BinOp::LtEq | crate::ops::BinOp::GtEq => {
            let callee = if op == crate::ops::BinOp::LtEq {
                "gt"
            } else {
                "lt"
            };
            let cmp = call_expr(span, ty.duplicate(), callee, vec![lhs, rhs]);
            let args = vec![cmp];
            assert(args@ =~= seq![cmp]);
            return (call_expr(span, ty, "iszero", args), None);
        },
        crate::ops::BinOp::And => {
            let otherwise = HullExpr { span, ty: ty.duplicate(), kind: HullExprKind::Bool(false) };
            let target = ty.duplicate();
            return (
                HullExpr {
                    span,
                    ty,
                    kind: HullExprKind::If {
                        target,
                        cond: Box::new(lhs),
                        then_expr: Box::new(rhs),
                        else_expr: Box::new(otherwise),
                    },
                },
                None,
            );
        },
        crate::ops::BinOp::Or => {
            let always = HullExpr { span, ty: ty.duplicate(), kind: HullExprKind::Bool(true) };
            let target = ty.duplicate();
            return (
                HullExpr {
                    span,
                    ty,
                    kind: HullExprKind::If {
                        target,
                        cond: Box::new(lhs),
                        then_expr: Box::new(always),
                        else_expr: Box::new(rhs),
                    },
                },
                None,
            );
        },
        _ => {},
    }
    match bin_op_name(op) {
        Some(callee) => (call_expr(span, ty, callee, vec![lhs, rhs]), None),
        None => (call_expr(span, ty, "unsupported", Vec::new()), Some(string_of("binary operator Error"))),
    }
}

/// How a unary operator applied to the emitted operand `e` lowers at `span`
/// with result type `ty`: `!` branches, with target `ty`, to the sum's left
/// (false) or right (true) injection of unit, both of type `ty`; `~` calls
/// `not`; an operator that failed to parse calls `unsupported`.
pub open spec fn lowered_unary_op(span: Span, ty: HullTy, op: crate::ops::UnOp, e: HullExpr, r: HullExpr) -> bool {
    match op {
        crate::ops::UnOp::Not => r == (HullExpr {
            span,
            ty,
            kind: HullExprKind::If {
                target: ty,
                cond: Box::new(e),
                then_expr: Box::new(
                    HullExpr { span, ty, kind: HullExprKind::Inl { target: ty, value: Box::new(unit_expr(span)) } },
                ),
                else_expr: Box::new(
                    HullExpr { span, ty, kind: HullExprKind::Inr { target: ty, value: Box::new(unit_expr(span)) } },
                ),
            },
        }),
        crate::ops::UnOp::BitNot => is_call(r, span, ty, "not"@, seq![e]),
        crate::ops::UnOp::Error => is_call(r, span, ty, "unsupported"@, Seq::empty()),
    }
}

/// Lowers a unary operator over its already emitted operand, at `span` with
/// result type `ty`. The second component names the construct that could
/// not be lowered, if any.
pub fn emit_unary_op(span: Span, ty: HullTy, op: crate::ops::UnOp, operand: HullExpr) -> (r: (
    HullExpr,
    Option<String>,
))
    ensures
        lowered_unary_op(span, ty, op, operand, r.0),
        match r.1 {
            Some(c) => op == crate::ops::UnOp::Error && c@ == "unary error"@,
            None => op != crate::ops::UnOp::Error,
        },
{
    match op {
        crate::ops::UnOp::Not => {
            let false_expr = HullExpr {
                span,
                ty: ty.duplicate(),
                kind: HullExprKind::Inl { target: ty.duplicate(), value: Box::new(HullExpr::unit(span)) },
            };
            let true_expr = HullExpr {
                span,
                ty: ty.duplicate(),
                kind: HullExprKind::Inr { target: ty.duplicate(), value: Box::new(HullExpr::unit(span)) },
            };
            let target = ty.duplicate();
            (
                HullExpr {
                    span,
                    ty,
                    kind: HullExprKind::If {
                        target,
                        cond: Box::new(operand),
                        then_expr: Box::new(false_expr),
                        else_expr: Box::new(true_expr),
                    },
                },
                None,
            )
        },
        crate::ops::UnOp::BitNot => {
            let args = vec![operand];
            assert(args@ =~= seq![operand]);
            (call_expr(span, ty, "not", args), None)
        },
        crate::ops::UnOp::Error => (call_expr(span, ty, "unsupported", Vec::new()), Some(string_of("unary error"))),
    }
}

// ---------------------------------------------------------------------------
// Monomorphized expressions and patterns

#[derive(Debug)]
pub enum LitKind {
    Number(String),
    Hex(String),
    String(String),
    Error,
}

#[derive(Clone, Copy, Debug, PartialEq, Eq, Hash, Structural)]
pub enum MonoBuiltinCtor {
    True,
    False,
    Unit,
    Pair,
    Inl,
    Inr,
}

/// A constructor reference in a pattern.
#[derive(Debug)]
pub struct MonoCtor {
    pub name: String,
    pub builtin: Option<MonoBuiltinCtor>,
}

#[derive(Debug)]
pub enum MonoPatKind {
    Con { ctor: MonoCtor, args: Vec<MonoPat> },
    Var(String),
    Wildcard,
    Lit(LitKind),
    Error,
}

#[derive(Debug)]
pub struct MonoPat {
    pub span: Span,
    pub kind: MonoPatKind,
}

#[derive(Debug)]
pub enum MonoExprKind {
    Lit(LitKind),
    TypeAnnot { expr: Box<MonoExpr> },
    Var(String),
    Call { origin: MonoCallOrigin, name: String, args: Vec<MonoExpr> },
    Field { base: Box<MonoExpr>, name: String },
    Index { base: Box<MonoExpr>, index: Box<MonoExpr> },
    MemoryArrayIndex { base: Box<MonoExpr>, index: Box<MonoExpr> },
    StorageIndex { base: Box<MonoExpr>, index: Box<MonoExpr> },
    Match { scrutinee: Box<MonoExpr>, arms: Vec<MonoExprArm> },
    Proxy(Ty),
    Lambda { name: String },
    ClosureDispatch,
    Error,
}

#[derive(Debug)]
pub struct MonoExpr {
    pub span: Span,
    pub kind: MonoExprKind,
}

#[derive(Debug)]
pub struct MonoExprArm {
    pub pat: MonoPat,
    pub expr: MonoExpr,
}

pub open spec fn mono_expr_text(kind: MonoExprKind) -> Seq<char> {
    match kind {
        MonoExprKind::Field { .. } => "field access"@,
        MonoExprKind::Index { .. } => "index access"@,
        MonoExprKind::MemoryArrayIndex { .. } => "memory array index access"@,
        MonoExprKind::StorageIndex { .. } => "storage index access"@,
        MonoExprKind::Match { .. } => "expression match"@,
        MonoExprKind::Proxy(_) => "proxy expression"@,
        MonoExprKind::Lambda { .. } => "lambda expression"@,
        MonoExprKind::ClosureDispatch => "closure dispatch"@,
        MonoExprKind::Error => "error expression"@,
        _ => "expression"@,
    }
}

/// The description of an expression kind used in diagnostics.
pub fn mono_expr_name(kind: &MonoExprKind) -> (s: &'static str)
    ensures
        s@ == mono_expr_text(*kind),
{
    match kind {
        MonoExprKind::Field { .. } => "field access",
        MonoExprKind::Index { .. } => "index access",
        MonoExprKind::MemoryArrayIndex { .. } => "memory array index access",
        MonoExprKind::StorageIndex { .. } => "storage index access",
        MonoExprKind::Match { .. } => "expression match",
        MonoExprKind::Proxy(_) => "proxy expression",
        MonoExprKind::Lambda { .. } => "lambda expression",
        MonoExprKind::ClosureDispatch => "closure dispatch",
        MonoExprKind::Error => "error expression",
        _ => "expression",
    }
}

/// The Boolean value matched by a nullary `true`/`false` constructor pattern.
pub open spec fn bool_pat_value(pat: MonoPat) -> Option<bool> {
    match pat.kind {
        MonoPatKind::Con { ctor, args } => if args@.len() == 0 && ctor.builtin == Some(MonoBuiltinCtor::True) {
            Some(true)
        } else if args@.len() == 0 && ctor.builtin == Some(MonoBuiltinCtor::False) {
            Some(false)
        } else {
            None
        },
        _ => None,
    }
}

pub fn bool_constructor_pat_value(pat: &MonoPat) -> (r: Option<bool>)
    ensures
        r == bool_pat_value(*pat),
{
    match &pat.kind {
        MonoPatKind::Con { ctor, args } => {
            if args.len() == 0 && ctor.builtin == Some(MonoBuiltinCtor::True) {
                Some(true)
            } else if args.len() == 0 && ctor.builtin == Some(MonoBuiltinCtor::False) {
                Some(false)
            } else {
                None
            }
        },
        _ => None,
    }
}

/// The `true` and `false` arm expressions of a Boolean match, when the arms
/// are exactly one `true` and one `false` constructor pattern.
pub fn bool_match_expr_arms<'a>(arms: &'a Vec<MonoExprArm>) -> (r: Option<(&'a MonoExpr, &'a MonoExpr)>)
    ensures
        match r {
            Some((t, e)) => arms@.len() == 2 && {
                ||| bool_pat_value(arms@[0].pat) == Some(true) && bool_pat_value(arms@[1].pat) == Some(false)
                    && *t == arms@[0].expr && *e == arms@[1].expr
                ||| bool_pat_value(arms@[0].pat) == Some(false) && bool_pat_value(arms@[1].pat) == Some(true)
                    && *t == arms@[1].expr && *e == arms@[0].expr
            },
            None => !(arms@.len() == 2 && bool_pat_value(arms@[0].pat) is Some && bool_pat_value(arms@[1].pat) is Some
                && bool_pat_value(arms@[0].pat) != bool_pat_value(arms@[1].pat)),
        },
{
    let mut then_expr: Option<&'a MonoExpr> = None;
    let mut else_expr: Option<&'a MonoExpr> = None;
    let mut i: usize = 0;
    while i < arms.len()
        invariant
            i <= arms@.len(),
            forall|k: int| 0 <= k < i ==> #[trigger] bool_pat_value(arms@[k].pat) is Some,
            then_expr is Some <==> exists|k: int| 0 <= k < i && bool_pat_value(#[trigger] arms@[k].pat) == Some(true),
            else_expr is Some <==> exists|k: int| 0 <= k < i && bool_pat_value(#[trigger] arms@[k].pat) == Some(false),
            forall|k1: int, k2: int| 0 <= k1 < k2 < i ==> bool_pat_value(#[trigger] arms@[k1].pat) != bool_pat_value(#[trigger] arms@[k2].pat),
            then_expr matches Some(t) ==> exists|k: int| 0 <= k < i && bool_pat_value(#[trigger] arms@[k].pat) == Some(true) && *t == arms@[k].expr,
            else_expr matches Some(e) ==> exists|k: int| 0 <= k < i && bool_pat_value(#[trigger] arms@[k].pat) == Some(false) && *e == arms@[k].expr,
        decreases arms@.len() - i,
    {
        let arm = &arms[i];
        match bool_constructor_pat_value(&arm.pat) {
            None => {
                return None;
            },
            Some(true) => {
                if then_expr.is_none() {
                    then_expr = Some(&arm.expr);
                } else {
                    return None;
                }
            },
            Some(false) => {
                if else_expr.is_none() {
                    else_expr = Some(&arm.expr);
                } else {
                    return None;
                }
            },
        }
        i = i + 1;
    }
    match (then_expr, else_expr) {
        (Some(t), Some(e)) => {
            proof {
                let n = arms@.len();
                if n >= 3 {
                    let a = bool_pat_value(arms@[0].pat);
                    let b = bool_pat_value(arms@[1].pat);
                    let c = bool_pat_value(arms@[2].pat);
                    assert(a != b && a != c && b != c);
                    assert(false);
                }
                assert(n >= 2) by {
                    let kt = choose|k: int| 0 <= k < i && bool_pat_value(#[trigger] arms@[k].pat) == Some(true);
                    let ke = choose|k: int| 0 <= k < i && bool_pat_value(#[trigger] arms@[k].pat) == Some(false);
                    assert(kt != ke);
                }
                let v0 = bool_pat_value(arms@[0].pat);
                let v1 = bool_pat_value(arms@[1].pat);
                assert(v0 != v1);
            }
            Some((t, e))
        },
        _ => {
            proof {
                if arms@.len() == 2 && bool_pat_value(arms@[0].pat) is Some && bool_pat_value(arms@[1].pat) is Some
                    && bool_pat_value(arms@[0].pat) != bool_pat_value(arms@[1].pat) {
                    if bool_pat_value(arms@[0].pat) == Some(true) {
                        assert(bool_pat_value(arms@[1].pat) == Some(false));
                    } else {
                        assert(bool_pat_value(arms@[0].pat) == Some(false));
                    }
                }
            }
            None
        },
    }
}

/// Whether a semantic type is a canonical `storage(t)` reference.
pub fn sem_ty_is_storage_ref(db: &Db, ty: &Ty) -> (b: bool)
    ensures
        b == (ty@ matches TyView::Named { ctor: TyCtor::User(storage), args } && args.len() == 1
            && canonical_std_named(db, storage.def, "storage"@)),
{
    match ty {
        Ty::Named { ctor: TyCtor::User(storage), args } => {
            proof {
                lemma_tys_view(args@);
            }
            args.len() == 1 && is_canonical_std_def_named(db, storage.def, "storage")
        },
        _ => false,
    }
}

/// The UTF-8 bytes of a (possibly type-annotated) string literal expression.
pub fn decoded_string_literal(expr: &MonoExpr) -> (r: Option<Vec<u8>>)
    ensures
        match r {
            Some(v) => decoded_literal_bytes(*expr) == Some(v@),
            None => decoded_literal_bytes(*expr) is None,
        },
    decreases expr,
{
    match &expr.kind {
        MonoExprKind::Lit(LitKind::String(source)) => match decode_string_literal(source.as_str()) {
            Some(s) => {
                let bytes = vstd::slice::slice_to_vec(s.as_str().as_bytes());
                Some(bytes)
            },
            None => None,
        },
        MonoExprKind::TypeAnnot { expr } => decoded_string_literal(expr),
        _ => None,
    }
}

pub open spec fn decoded_literal_bytes(expr: MonoExpr) -> Option<Seq<u8>>
    decreases expr,
{
    match expr.kind {
        MonoExprKind::Lit(LitKind::String(source)) => match decoded_literal(source@) {
            Some(s) => Some(encode_utf8(s)),
            None => None,
        },
        MonoExprKind::TypeAnnot { expr } => decoded_literal_bytes(*expr),
        _ => None,
    }
}

/// The name that a closure call dispatches to: that of a variable or a
/// lambda, seen through type annotations.
pub open spec fn callee_name(e: MonoExpr) -> Option<Seq<char>>
    decreases e,
{
    match e.kind {
        MonoExprKind::Var(n) => Some(n@),
        MonoExprKind::Lambda { name } => Some(name@),
        MonoExprKind::TypeAnnot { expr } => callee_name(*expr),
        _ => None,
    }
}

/// `name`, when it is one of `function_names`.
fn known_function(function_names: &Vec<String>, name: &String) -> (r: Option<String>)
    ensures
        if crate::text::strings_view(function_names@).contains(name@) {
            r matches Some(s) && s@ == name@
        } else {
            r is None
        },
{
    let mut i: usize = 0;
    while i < function_names.len()
        invariant
            i <= function_names@.len(),
            forall|j: int| 0 <= j < i ==> function_names@[j]@ != name@,
        decreases function_names@.len() - i,
    {
        if crate::text::str_eq(function_names[i].as_str(), name.as_str()) {
            proof {
                assert(crate::text::strings_view(function_names@)[i as int] == name@);
            }
            return Some(name.clone());
        }
        i = i + 1;
    }
    proof {
        if crate::text::strings_view(function_names@).contains(name@) {
            let j = choose|j: int| 0 <= j < function_names@.len() && #[trigger] crate::text::strings_view(function_names@)[j] == name@;
            assert(function_names@[j]@ == name@);
        }
    }
    None
}

/// The function that a closure call can call directly: the callee's name,
/// when it names a function of the module.
pub fn closure_callee_name(function_names: &Vec<String>, callee: &MonoExpr) -> (r: Option<String>)
    ensures
        match callee_name(*callee) {
            Some(n) => if crate::text::strings_view(function_names@).contains(n) {
                r matches Some(s) && s@ == n
            } else {
                r is None
            },
            None => r is None,
        },
    decreases callee,
{
    match &callee.kind {
        MonoExprKind::Var(n) => known_function(function_names, n),
        MonoExprKind::Lambda { name } => known_function(function_names, name),
        MonoExprKind::TypeAnnot { expr } => closure_callee_name(function_names, expr),
        _ => None,
    }
}

/// The expression bound to `name` in one scope, if any.
pub open spec fn binding_in(scope: Seq<(String, HullExpr)>, name: Seq<char>) -> Option<HullExpr>
    decreases scope.len(),
{
    if scope.len() == 0 {
        None
    } else if scope[0].0@ == name {
        Some(scope[0].1)
    } else {
        binding_in(scope.skip(1), name)
    }
}

/// The binding of `name` in the innermost scope that binds it; scopes are
/// listed outermost first.
pub open spec fn scope_lookup(scopes: Seq<Vec<(String, HullExpr)>>, name: Seq<char>) -> Option<HullExpr>
    decreases scopes.len(),
{
    if scopes.len() == 0 {
        None
    } else {
        match binding_in(scopes.last()@, name) {
            Some(e) => Some(e),
            None => scope_lookup(scopes.drop_last(), name),
        }
    }
}

fn lookup_in_scope(scope: &Vec<(String, HullExpr)>, name: &str) -> (r: Option<HullExpr>)
    ensures
        match binding_in(scope@, name@) {
            Some(e) => r matches Some(x) && x@ == e@,
            None => r is None,
        },
{
    let mut i: usize = 0;
    proof {
        assert(scope@.skip(0) =~= scope@);
    }
    while i < scope.len()
        invariant
            i <= scope@.len(),
            binding_in(scope@, name@) == binding_in(scope@.skip(i as int), name@),
        decreases scope@.len() - i,
    {
        proof {
            assert(scope@.skip(i as int).skip(1) =~= scope@.skip(i + 1));
            assert(scope@.skip(i as int)[0] == scope@[i as int]);
        }
        if crate::text::str_eq(scope[i].0.as_str(), name) {
            return Some(scope[i].1.duplicate());
        }
        i = i + 1;
    }
    None
}

/// The expression a source name stands for: its binding in the innermost
/// scope that binds it.
pub fn lookup_expr(scopes: &Vec<Vec<(String, HullExpr)>>, name: &str) -> (r: Option<HullExpr>)
    ensures
        match scope_lookup(scopes@, name@) {
            Some(e) => r matches Some(x) && x@ == e@,
            None => r is None,
        },
{
    let mut k: usize = scopes.len();
    proof {
        assert(scopes@.take(k as int) =~= scopes@);
    }
    while k > 0
        invariant
            k <= scopes@.len(),
            scope_lookup(scopes@, name@) == scope_lookup(scopes@.take(k as int), name@),
        decreases k,
    {
        proof {
            assert(scopes@.take(k as int).last() == scopes@[k - 1]);
            assert(scopes@.take(k as int).drop_last() =~= scopes@.take(k - 1));
        }
        if let Some(e) = lookup_in_scope(&scopes[k - 1], name) {
            return Some(e);
        }
        k = k - 1;
    }
    proof {
        assert(scopes@.take(0) =~= Seq::<Vec<(String, HullExpr)>>::empty());
    }
    None
}

/// A rewrite recorded by the front end's desugaring of a function body, as
/// far as the emitter reads it.
#[derive(Clone, Copy, Debug, PartialEq, Eq, Structural)]
pub enum FrontendTransform {
    /// An `if` statement lowered to a `match`; the span is that of the
    /// source statement.
    IfStmtToMatch { origin: Span },
    Other,
}

/// The origin spans of the `if` statements lowered to matches in `ts`.
pub open spec fn if_spans_of(ts: Seq<FrontendTransform>) -> Seq<Span>
    decreases ts.len(),
{
    if ts.len() == 0 {
        Seq::empty()
    } else {
        if_spans_of(ts.drop_last()) + match ts.last() {
            FrontendTransform::IfStmtToMatch { origin } => seq![origin],
            FrontendTransform::Other => Seq::empty(),
        }
    }
}

/// `if_spans_of` over all bodies, in order.
pub open spec fn bodies_if_spans(bodies: Seq<Vec<FrontendTransform>>) -> Seq<Span>
    decreases bodies.len(),
{
    if bodies.len() == 0 {
        Seq::empty()
    } else {
        bodies_if_spans(bodies.drop_last()) + if_spans_of(bodies.last()@)
    }
}

/// The spans of the source `if` statements that the front end lowered to
/// matches, over the transforms of every body in order.
pub fn if_stmt_spans(bodies: &Vec<Vec<FrontendTransform>>) -> (r: Vec<Span>)
    ensures
        r@ == bodies_if_spans(bodies@),
{
    let mut out: Vec<Span> = Vec::new();
    let mut b: usize = 0;
    while b < bodies.len()
        invariant
            b <= bodies@.len(),
            out@ == bodies_if_spans(bodies@.take(b as int)),
        decreases bodies@.len() - b,
    {
        let ts = &bodies[b];
        let ghost before = out@;
        let mut t: usize = 0;
        while t < ts.len()
            invariant
                t <= ts@.len(),
                out@ == before + if_spans_of(ts@.take(t as int)),
            decreases ts@.len() - t,
        {
            proof {
                assert(ts@.take(t + 1).drop_last() =~= ts@.take(t as int));
                assert(ts@.take(t + 1).last() == ts@[t as int]);
            }
            match ts[t] {
                FrontendTransform::IfStmtToMatch { origin } => {
                    out.push(origin);
                    proof {
                        assert(out@ =~= before + if_spans_of(ts@.take(t + 1)));
                    }
                },
                FrontendTransform::Other => {
                    proof {
                        assert(if_spans_of(ts@.take(t + 1)) =~= if_spans_of(ts@.take(t as int)));
                    }
                },
            }
            t = t + 1;
        }
        proof {
            assert(ts@.take(ts@.len() as int) =~= ts@);
            assert(bodies@.take(b + 1).drop_last() =~= bodies@.take(b as int));
            assert(bodies@.take(b + 1).last() == bodies@[b as int]);
        }
        b = b + 1;
    }
    proof {
        assert(bodies@.take(bodies@.len() as int) =~= bodies@);
    }
    out
}

} // verus!
