//! Verified core of the Solcore contract front end: ABI signatures and
//! selectors, compiler-derived class clauses, storage access typing, and the
//! pure helpers of the Hull emitter and the source parser.

pub mod text;
pub mod ty;
pub mod ops;
pub mod diag;
pub mod resolve;
pub mod abi_spec;
pub mod abi;
pub mod derived;
pub mod storage;
pub mod parse;
pub mod stmt;
pub mod token;
pub mod attr;
pub mod typarse;
pub mod body;
pub mod enums;
pub mod preds;
pub mod emit;
pub mod yul;
pub mod emitter;
pub mod semantics;
pub mod laws;
