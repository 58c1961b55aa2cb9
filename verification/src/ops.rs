//! Source operators shared by the parser and the emitter.
use vstd::prelude::*;

verus! {

#[derive(Clone, Copy, Debug, PartialEq, Eq, Hash, Structural)]
pub enum BinOp {
    Add,
    Sub,
    Mul,
    Div,
    Mod,
    BitAnd,
    BitXor,
    BitOr,
    Eq,
    NotEq,
    Lt,
    Gt,
    LtEq,
    GtEq,
    And,
    Or,
    Error,
}

#[derive(Clone, Copy, Debug, PartialEq, Eq, Hash, Structural)]
pub enum UnOp {
    Not,
    BitNot,
    Error,
}

/// An assignment operator of a monomorphized assignment statement.
#[derive(Clone, Copy, Debug, PartialEq, Eq, Hash, Structural)]
pub enum AssignOp {
    Plain,
    Add,
    Sub,
    Mul,
    Div,
    BitXor,
    BitAnd,
    BitOr,
    Mod,
}

} // verus!
