//! The mathematical definition of canonical ABI lowering.
//!
//! Every function here states what the executable functions of `abi`
//! compute, over type values (`TyView`) and character sequences.
use vstd::prelude::*;
use crate::text::{dec_text, join_seqs};
use crate::diag::{DiagnosticView, Span};
use crate::ty::{
    canonical_std_named, flatten, lemma_flatten_size, lemma_tvs_size_elem, mentions_adt, subst,
    split_product, is_tuple_shape,
    tv_size, tvs_size, ty_text, AdtShape, BuiltinTyCtor, Db, DefId, DefLocation, TyCtor, TyView,
    UserTyCtor,
};

verus! {

pub type TextResult = Result<Seq<char>, Seq<char>>;

/// The error of an ADT that passes every other check when the stack of
/// concrete ADT types being expanded already holds `usize::MAX` entries, the
/// most that a `Vec` can index: it is not expanded further, and the calldata
/// search does not look inside it. Memory runs out long before, so this bound
/// only makes the expansion's termination a machine limit.
pub open spec fn expansion_limit_text(db: &Db, def: DefId) -> Seq<char> {
    adt_name(db, def) + " (ABI expansion stack is full)"@
}

/// Remaining budget of the stack of concrete ADT types being expanded.
pub open spec fn expansion_budget(stack: Seq<TyView>) -> nat {
    if stack.len() < usize::MAX {
        (usize::MAX - stack.len()) as nat
    } else {
        0
    }
}

/// Remaining nesting budget of a stack of ADT definitions.
pub open spec fn depth_budget(db: &Db, stack: Seq<DefId>) -> nat {
    if stack.len() < db.defs@.len() {
        (db.defs@.len() - stack.len()) as nat
    } else {
        0
    }
}

pub open spec fn user_ty(user: UserTyCtor, args: Seq<TyView>) -> TyView {
    TyView::Named { ctor: TyCtor::User(user), args }
}

pub open spec fn adt_name(db: &Db, def: DefId) -> Seq<char> {
    match db.name_of(def) {
        Some(n) => n,
        None => "<anonymous ADT>"@,
    }
}

pub open spec fn adt_shape(db: &Db, def: DefId) -> Option<AdtShape> {
    if db.has(def) {
        db.info(def).adt
    } else {
        None
    }
}

pub open spec fn count_text(what: Seq<char>, found: nat) -> Seq<char> {
    what + " (expected one type argument, found "@ + dec_text(found) + ")"@
}

/// `uint256`, `address`, `bytes4` or `bytes32` from the root std module.
pub open spec fn canonical_user_name(db: &Db, user: UserTyCtor) -> Option<Seq<char>> {
    match db.name_of(user.def) {
        Some(n) => if db.location_of(user.def) == DefLocation::StdRoot && (n == "uint256"@ || n
            == "address"@ || n == "bytes4"@ || n == "bytes32"@) {
            Some(n)
        } else {
            None
        },
        None => None,
    }
}

/// The element type `t` of the canonical `calldata(array(t))`.
pub open spec fn calldata_element(db: &Db, user: UserTyCtor, args: Seq<TyView>) -> Result<Option<TyView>, Seq<char>> {
    if !canonical_std_named(db, user.def, "calldata"@) {
        Ok(None)
    } else if args.len() != 1 {
        Err(count_text("calldata"@, args.len()))
    } else {
        match args[0] {
            TyView::Named { ctor: TyCtor::User(array), args: elements } => {
                if !canonical_std_named(db, array.def, "array"@) {
                    Err(ty_text(db, args[0]) + " (only the canonical std array supports calldata ABI decoding)"@)
                } else if elements.len() != 1 {
                    Err(count_text("array"@, elements.len()))
                } else {
                    Ok(Some(elements[0]))
                }
            },
            _ => Err(ty_text(db, args[0]) + " (only calldata(array(t)) has canonical external ABI evidence)"@),
        }
    }
}

pub open spec fn is_location_name(n: Seq<char>) -> bool {
    n == "memory"@ || n == "calldata"@ || n == "storage"@ || n == "mapping"@
}

pub open spec fn memory_only_text(db: &Db, inner: TyView) -> Seq<char> {
    ty_text(db, inner) + " (only memory(string) and memory(bytes) have canonical ABI evidence)"@
}

/// ABI name of a canonical std location: `memory(string)` and
/// `memory(bytes)` are `string` and `bytes`; the other locations are errors.
pub open spec fn location_name(db: &Db, user: UserTyCtor, args: Seq<TyView>) -> Result<Option<Seq<char>>, Seq<char>> {
    match db.name_of(user.def) {
        None => Ok(None),
        Some(name) => if !is_location_name(name) || db.location_of(user.def) != DefLocation::StdRoot {
            Ok(None)
        } else if name != "memory"@ {
            Err(ty_text(db, user_ty(user, args)) + " ("@ + name + " values are not supported by the canonical external ABI)"@)
        } else if args.len() != 1 {
            Err(count_text("memory"@, args.len()))
        } else {
            match args[0] {
                TyView::Named { ctor: TyCtor::User(inner_user), args: inner_args } => {
                    if inner_args.len() != 0 {
                        Err(memory_only_text(db, args[0]))
                    } else {
                        match db.name_of(inner_user.def) {
                            None => Ok(None),
                            Some(inner_name) => if (inner_name == "string"@ || inner_name == "bytes"@)
                                && db.location_of(inner_user.def) == DefLocation::StdRoot {
                                Ok(Some(inner_name))
                            } else {
                                Err(memory_only_text(db, args[0]))
                            },
                        }
                    }
                },
                _ => Err(memory_only_text(db, args[0])),
            }
        },
    }
}

/// Standard-library types without canonical ABI evidence are rejected.
pub open spec fn std_fallback(db: &Db, user: UserTyCtor, args: Seq<TyView>) -> Result<(), Seq<char>> {
    if db.location_of(user.def) == DefLocation::StdRoot || db.location_of(user.def) == DefLocation::StdLibrary {
        let name = match db.name_of(user.def) {
            Some(n) => n,
            None => "<anonymous standard-library type>"@,
        };
        Err(ty_text(db, user_ty(user, args)) + " (standard-library type `"@ + name + "` has no canonical external ABI evidence)"@)
    } else {
        Ok(())
    }
}

pub open spec fn recursive_adt_text(db: &Db, def: DefId) -> Seq<char> {
    adt_name(db, def) + " (recursive ADTs have no finite external ABI signature)"@
}

pub open spec fn unsupported_user_adt_text(db: &Db, user: UserTyCtor, args: Seq<TyView>) -> Seq<char> {
    ty_text(db, user_ty(user, args)) + " (user-defined ADTs are not supported by the canonical external ABI)"@
}

pub open spec fn arity_text(db: &Db, def: DefId, expected: nat, found: nat) -> Seq<char> {
    adt_name(db, def) + " (expected "@ + dec_text(expected) + " ABI type arguments, found "@ + dec_text(found) + ")"@
}

pub open spec fn manual_generic_text(db: &Db, def: DefId) -> Seq<char> {
    adt_name(db, def) + " (manual or excluded Generic representations are not canonical ABI layouts)"@
}

pub open spec fn unavailable_text(db: &Db, def: DefId) -> Seq<char> {
    adt_name(db, def) + " (definition is unavailable for ABI lowering)"@
}

/// The checks that precede expanding a user ADT through its compiler-owned
/// `Generic` representation; `Ok` carries the representation (over bound
/// variables) to expand.
pub open spec fn owned_rep(
    db: &Db,
    manual: Set<DefId>,
    derived: Set<DefId>,
    user: UserTyCtor,
    args: Seq<TyView>,
    stack: Seq<TyView>,
) -> Result<TyView, Seq<char>> {
    let def = user.def;
    let name = adt_name(db, def);
    if stack.contains(user_ty(user, args)) {
        Err(recursive_adt_text(db, def))
    } else if manual.contains(def) || (db.has(def) && (db.info(def).generic_excluded
        || db.info(def).local_generic_instance)) {
        Err(manual_generic_text(db, def))
    } else {
        match adt_shape(db, def) {
            None => Err(unavailable_text(db, def)),
            Some(shape) => if shape.param_count != args.len() {
                Err(arity_text(db, def, shape.param_count as nat, args.len()))
            } else if !db.info(def).generic_class_visible {
                Err(unsupported_user_adt_text(db, user, args))
            } else {
                match shape.generic_rep {
                    None => Err(name + " (cannot derive its compiler-owned Generic ABI representation)"@),
                    Some(rep) => if !db.info(def).abi_derivation_enabled {
                        Err(name + " (its defining module does not enable compiler-owned ABI derivation; import std.ABIGeneric there)"@)
                    } else if mentions_adt(rep@, def) {
                        Err(recursive_adt_text(db, def))
                    } else if !derived.contains(def) {
                        Err(name + " (compiler-owned ABIAttribs and ABIDecode evidence is not visible from the contract module; add an instance import of its defining module along the re-export path)"@)
                    } else if stack.len() >= usize::MAX {
                        Err(expansion_limit_text(db, def))
                    } else {
                        Ok(rep@)
                    },
                }
            },
        }
    }
}

/// The `SigString` of a user ADT expanded through its `Generic` representation.
pub open spec fn owned_sig(
    db: &Db,
    manual: Set<DefId>,
    derived: Set<DefId>,
    user: UserTyCtor,
    args: Seq<TyView>,
    stack: Seq<TyView>,
) -> TextResult
    decreases expansion_budget(stack), tvs_size(args) + 1, 1nat,
{
    match owned_rep(db, manual, derived, user, args, stack) {
        Err(e) => Err(e),
        Ok(rep) => {
            let inner = stack.push(user_ty(user, args));
            match generic_parts(db, manual, derived, args, inner) {
                Err(e) => Err(e),
                Ok(_) => generic_sig(db, manual, derived, subst(rep, args), inner),
            }
        },
    }
}

/// Signature text of a user type constructor application (shared by the
/// method-signature and the `Generic` renderings).
pub open spec fn user_sig(
    db: &Db,
    manual: Set<DefId>,
    derived: Set<DefId>,
    user: UserTyCtor,
    args: Seq<TyView>,
    stack: Seq<TyView>,
) -> TextResult
    decreases expansion_budget(stack), tvs_size(args) + 1, 2nat,
{
    if args.len() == 0 && canonical_user_name(db, user) is Some {
        Ok(canonical_user_name(db, user).unwrap())
    } else {
        match calldata_element(db, user, args) {
            Err(e) => Err(e),
            Ok(Some(element)) => {
                proof {
                    lemma_tvs_size_elem(args, 0);
                    if let TyView::Named { args: elements, .. } = args[0] {
                        lemma_tvs_size_elem(elements, 0);
                    }
                }
                match generic_sig(db, manual, derived, element, stack) {
                    Err(e) => Err(e),
                    Ok(s) => Ok(s + "[]"@),
                }
            },
            Ok(None) => match location_name(db, user, args) {
                Err(e) => Err(e),
                Ok(Some(n)) => Ok(n),
                Ok(None) => match std_fallback(db, user, args) {
                    Err(e) => Err(e),
                    Ok(_) => owned_sig(db, manual, derived, user, args, stack),
                },
            },
        }
    }
}

/// The final `SigString` of the target standard library: products are
/// comma-joined without a tuple wrapper, sums keep `sum(l,r)`.
pub open spec fn generic_sig(
    db: &Db,
    manual: Set<DefId>,
    derived: Set<DefId>,
    t: TyView,
    stack: Seq<TyView>,
) -> TextResult
    decreases expansion_budget(stack), tv_size(t), 3nat,
{
    match t {
        TyView::Named { ctor: TyCtor::Builtin(BuiltinTyCtor::Word), args } if args.len() == 0 => Ok("uint256"@),
        TyView::Named { ctor: TyCtor::Builtin(BuiltinTyCtor::Bool), args } if args.len() == 0 => Ok("bool"@),
        TyView::Named { ctor: TyCtor::Builtin(BuiltinTyCtor::String), args } if args.len() == 0 => Ok("string"@),
        TyView::Named { ctor: TyCtor::Builtin(BuiltinTyCtor::Unit), args } if args.len() == 0 => Ok(Seq::empty()),
        TyView::Tuple(elems) => match generic_parts(db, manual, derived, elems, stack) {
            Err(e) => Err(e),
            Ok(parts) => Ok(join_seqs(parts, ","@)),
        },
        TyView::Named { ctor: TyCtor::Builtin(BuiltinTyCtor::Pair), args } if args.len() == 2 => match generic_parts(db, manual, derived, args, stack) {
            Err(e) => Err(e),
            Ok(parts) => Ok(join_seqs(parts, ","@)),
        },
        TyView::Named { ctor: TyCtor::Builtin(BuiltinTyCtor::Sum), args } if args.len() == 2 => {
            proof {
                lemma_tvs_size_elem(args, 0);
                lemma_tvs_size_elem(args, 1);
            }
            match generic_sig(db, manual, derived, args[0], stack) {
                Err(e) => Err(e),
                Ok(l) => match generic_sig(db, manual, derived, args[1], stack) {
                    Err(e) => Err(e),
                    Ok(r) => Ok("sum("@ + l + ","@ + r + ")"@),
                },
            }
        },
        TyView::Named { ctor: TyCtor::User(user), args } => user_sig(db, manual, derived, user, args, stack),
        _ => Err(ty_text(db, t)),
    }
}

/// `generic_sig` of each element, left to right; the first error wins.
pub open spec fn generic_parts(
    db: &Db,
    manual: Set<DefId>,
    derived: Set<DefId>,
    s: Seq<TyView>,
    stack: Seq<TyView>,
) -> Result<Seq<Seq<char>>, Seq<char>>
    decreases expansion_budget(stack), tvs_size(s), 4nat,
{
    if s.len() == 0 {
        Ok(Seq::empty())
    } else {
        proof {
            lemma_tvs_size_elem(s, s.len() - 1);
        }
        match generic_parts(db, manual, derived, s.drop_last(), stack) {
            Err(e) => Err(e),
            Ok(parts) => match generic_sig(db, manual, derived, s.last(), stack) {
                Err(e) => Err(e),
                Ok(p) => Ok(parts.push(p)),
            },
        }
    }
}

/// The canonical method-signature rendering of one parameter type.
pub open spec fn sig_top(db: &Db, manual: Set<DefId>, derived: Set<DefId>, t: TyView) -> TextResult
    decreases tv_size(t), 1nat,
{
    match t {
        TyView::Named { ctor: TyCtor::Builtin(BuiltinTyCtor::Word), args } if args.len() == 0 => Ok("uint256"@),
        TyView::Named { ctor: TyCtor::Builtin(BuiltinTyCtor::Bool), args } if args.len() == 0 => Ok("bool"@),
        TyView::Named { ctor: TyCtor::Builtin(BuiltinTyCtor::String), args } if args.len() == 0 => Ok("string"@),
        TyView::Named { ctor: TyCtor::Builtin(BuiltinTyCtor::Unit), args } if args.len() == 0 => Ok(Seq::empty()),
        TyView::Tuple(elems) => {
            proof {
                lemma_flatten_size(elems);
            }
            match top_parts(db, manual, derived, flatten(elems)) {
                Err(e) => Err(e),
                Ok(parts) => Ok("("@ + join_seqs(parts, ","@) + ")"@),
            }
        },
        TyView::Named { ctor: TyCtor::Builtin(BuiltinTyCtor::Pair), args } if args.len() == 2 => {
            proof {
                lemma_flatten_size(args);
            }
            match top_parts(db, manual, derived, flatten(args)) {
                Err(e) => Err(e),
                Ok(parts) => Ok("("@ + join_seqs(parts, ","@) + ")"@),
            }
        },
        TyView::Named { ctor: TyCtor::User(user), args } => user_sig(db, manual, derived, user, args, Seq::empty()),
        _ => Err(ty_text(db, t)),
    }
}

pub open spec fn top_parts(db: &Db, manual: Set<DefId>, derived: Set<DefId>, s: Seq<TyView>) -> Result<Seq<Seq<char>>, Seq<char>>
    decreases tvs_size(s), 2nat,
{
    if s.len() == 0 {
        Ok(Seq::empty())
    } else {
        proof {
            lemma_tvs_size_elem(s, s.len() - 1);
        }
        match top_parts(db, manual, derived, s.drop_last()) {
            Err(e) => Err(e),
            Ok(parts) => match sig_top(db, manual, derived, s.last()) {
                Err(e) => Err(e),
                Ok(p) => Ok(parts.push(p)),
            },
        }
    }
}

/// `name(p1,p2,..)` over the canonical renderings of the parameter types.
pub open spec fn method_sig(db: &Db, manual: Set<DefId>, derived: Set<DefId>, name: Seq<char>, params: Seq<TyView>) -> TextResult {
    match top_list(db, manual, derived, params) {
        Err(e) => Err(e),
        Ok(parts) => Ok(name + "("@ + join_seqs(parts, ","@) + ")"@),
    }
}

/// `sig_top` of each parameter, left to right; the first error wins.
pub open spec fn top_list(db: &Db, manual: Set<DefId>, derived: Set<DefId>, s: Seq<TyView>) -> Result<Seq<Seq<char>>, Seq<char>>
    decreases s.len(),
{
    if s.len() == 0 {
        Ok(Seq::empty())
    } else {
        match top_list(db, manual, derived, s.drop_last()) {
            Err(e) => Err(e),
            Ok(parts) => match sig_top(db, manual, derived, s.last()) {
                Err(e) => Err(e),
                Ok(p) => Ok(parts.push(p)),
            },
        }
    }
}

} // verus!

verus! {

/// The mathematical value of an `AbiType`.
pub enum AbiTy {
    Uint256,
    Bool,
    String,
    Unit,
    Tuple,
    Named(Seq<char>),
    Unsupported,
}

/// The mathematical value of an `AbiParam`.
pub struct AbiParamV {
    pub name: Seq<char>,
    pub ty: AbiTy,
    pub components: Seq<AbiParamV>,
}

/// The textual form of an ABI type, as in JSON ABI `type` fields.
pub open spec fn abi_ty_text(t: AbiTy) -> Seq<char> {
    match t {
        AbiTy::Uint256 => "uint256"@,
        AbiTy::Bool => "bool"@,
        AbiTy::String => "string"@,
        AbiTy::Unit => Seq::empty(),
        AbiTy::Tuple => "tuple"@,
        AbiTy::Named(n) => n,
        AbiTy::Unsupported => "<unsupported>"@,
    }
}

/// The ABI name of a user ADT lowered through its `Generic` representation:
/// the representation must render, then the ADT is named by its source
/// spelling.
pub open spec fn owned_source_name(
    db: &Db,
    manual: Set<DefId>,
    derived: Set<DefId>,
    user: UserTyCtor,
    args: Seq<TyView>,
) -> TextResult {
    match owned_sig(db, manual, derived, user, args, Seq::empty()) {
        Err(e) => Err(e),
        Ok(_) => Ok(if args.len() == 0 { adt_name(db, user.def) } else { ty_text(db, user_ty(user, args)) }),
    }
}

pub type AbiOf = Result<(AbiTy, Seq<AbiParamV>), Seq<char>>;

/// The canonical ABI type of a semantic type, with its tuple components.
pub open spec fn abi_of(db: &Db, manual: Set<DefId>, derived: Set<DefId>, t: TyView) -> AbiOf
    decreases tv_size(t), 1nat,
{
    match t {
        TyView::Named { ctor: TyCtor::Builtin(BuiltinTyCtor::Word), args } if args.len() == 0 => Ok((AbiTy::Uint256, Seq::empty())),
        TyView::Named { ctor: TyCtor::Builtin(BuiltinTyCtor::Bool), args } if args.len() == 0 => Ok((AbiTy::Bool, Seq::empty())),
        TyView::Named { ctor: TyCtor::Builtin(BuiltinTyCtor::String), args } if args.len() == 0 => Ok((AbiTy::String, Seq::empty())),
        TyView::Named { ctor: TyCtor::Builtin(BuiltinTyCtor::Unit), args } if args.len() == 0 => Ok((AbiTy::Unit, Seq::empty())),
        TyView::Tuple(elems) => if elems.len() == 0 {
            Ok((AbiTy::Unit, Seq::empty()))
        } else {
            proof {
                lemma_flatten_size(elems);
            }
            match abi_components(db, manual, derived, flatten(elems)) {
                Err(e) => Err(e),
                Ok(c) => Ok((AbiTy::Tuple, c)),
            }
        },
        TyView::Named { ctor: TyCtor::Builtin(BuiltinTyCtor::Pair), args } if args.len() == 2 => {
            proof {
                lemma_flatten_size(args);
            }
            match abi_components(db, manual, derived, flatten(args)) {
                Err(e) => Err(e),
                Ok(c) => Ok((AbiTy::Tuple, c)),
            }
        },
        TyView::Named { ctor: TyCtor::User(user), args } => {
            if args.len() == 0 && canonical_user_name(db, user) is Some {
                Ok((AbiTy::Named(canonical_user_name(db, user).unwrap()), Seq::empty()))
            } else {
                match calldata_element(db, user, args) {
                    Err(e) => Err(e),
                    Ok(Some(element)) => {
                        proof {
                            lemma_tvs_size_elem(args, 0);
                            if let TyView::Named { args: elements, .. } = args[0] {
                                lemma_tvs_size_elem(elements, 0);
                            }
                        }
                        match abi_of(db, manual, derived, element) {
                            Err(e) => Err(e),
                            Ok((et, comps)) => Ok((AbiTy::Named(abi_ty_text(et) + "[]"@), comps)),
                        }
                    },
                    Ok(None) => match location_name(db, user, args) {
                        Err(e) => Err(e),
                        Ok(Some(n)) => Ok((AbiTy::Named(n), Seq::empty())),
                        Ok(None) => match std_fallback(db, user, args) {
                            Err(e) => Err(e),
                            Ok(_) => match owned_source_name(db, manual, derived, user, args) {
                                Err(e) => Err(e),
                                Ok(n) => Ok((AbiTy::Named(n), Seq::empty())),
                            },
                        },
                    },
                }
            }
        },
        _ => Err(ty_text(db, t)),
    }
}

/// Unnamed ABI parameters of each type, left to right; the first error wins.
pub open spec fn abi_components(db: &Db, manual: Set<DefId>, derived: Set<DefId>, s: Seq<TyView>) -> Result<Seq<AbiParamV>, Seq<char>>
    decreases tvs_size(s), 2nat,
{
    if s.len() == 0 {
        Ok(Seq::empty())
    } else {
        proof {
            lemma_tvs_size_elem(s, s.len() - 1);
        }
        match abi_components(db, manual, derived, s.drop_last()) {
            Err(e) => Err(e),
            Ok(ps) => match abi_of(db, manual, derived, s.last()) {
                Err(e) => Err(e),
                Ok((t, c)) => Ok(ps.push(AbiParamV { name: Seq::empty(), ty: t, components: c })),
            },
        }
    }
}

/// Whether a type contains the canonical `calldata(array(t))`, looking
/// through type arguments, function types and derived `Generic`
/// representations of user ADTs.
pub open spec fn contains_calldata_array(db: &Db, t: TyView, stack: Seq<TyView>) -> bool
    decreases expansion_budget(stack), tv_size(t), 1nat,
{
    match t {
        TyView::Named { ctor: TyCtor::User(user), args } => {
            if (calldata_element(db, user, args) matches Ok(Some(_))) || any_contains_calldata_array(db, args, stack) {
                true
            } else if stack.contains(user_ty(user, args)) {
                false
            } else {
                match adt_shape(db, user.def) {
                    None => false,
                    Some(shape) => if !db.info(user.def).generic_class_visible {
                        false
                    } else {
                        match shape.generic_rep {
                            None => false,
                            Some(rep) => if mentions_adt(rep@, user.def) || stack.len() >= usize::MAX {
                                false
                            } else {
                                contains_calldata_array(db, subst(rep@, args), stack.push(user_ty(user, args)))
                            },
                        }
                    },
                }
            }
        },
        TyView::Named { args, .. } => any_contains_calldata_array(db, args, stack),
        TyView::Tuple(args) => any_contains_calldata_array(db, args, stack),
        TyView::Function { params, ret } => any_contains_calldata_array(db, params, stack)
            || contains_calldata_array(db, *ret, stack),
        TyView::Comptime(inner) => contains_calldata_array(db, *inner, stack),
        _ => false,
    }
}

pub open spec fn any_contains_calldata_array(db: &Db, s: Seq<TyView>, stack: Seq<TyView>) -> bool
    decreases expansion_budget(stack), tvs_size(s), 2nat,
{
    if s.len() == 0 {
        false
    } else {
        proof {
            lemma_tvs_size_elem(s, s.len() - 1);
        }
        any_contains_calldata_array(db, s.drop_last(), stack) || contains_calldata_array(db, s.last(), stack)
    }
}

} // verus!

verus! {

/// The diagnostic for a type that cannot be represented in the ABI.
pub open spec fn contract_diag(span: Span, context: Seq<char>, ty: Seq<char>) -> DiagnosticView {
    DiagnosticView {
        message: context + " cannot be represented in the ABI: "@ + ty,
        code: "SC0231"@,
        span,
        label: "unsupported ABI type"@,
    }
}

/// A parameter lowered to the ABI; a type that cannot be lowered becomes
/// an `Unsupported` parameter.
pub open spec fn lowered_param(db: &Db, manual: Set<DefId>, derived: Set<DefId>, name: Seq<char>, t: TyView) -> AbiParamV {
    match abi_of(db, manual, derived, t) {
        Ok((ty, c)) => AbiParamV { name, ty, components: c },
        Err(_) => AbiParamV { name, ty: AbiTy::Unsupported, components: Seq::empty() },
    }
}

/// Diagnostics for the types of `s` that cannot be lowered, in order.
pub open spec fn param_diags(db: &Db, manual: Set<DefId>, derived: Set<DefId>, s: Seq<TyView>, span: Span, context: Seq<char>) -> Seq<DiagnosticView>
    decreases s.len(),
{
    if s.len() == 0 {
        Seq::empty()
    } else {
        param_diags(db, manual, derived, s.drop_last(), span, context) + match abi_of(db, manual, derived, s.last()) {
            Err(e) => seq![contract_diag(span, context, e)],
            Ok(_) => Seq::empty(),
        }
    }
}

pub open spec fn output_only_text(db: &Db, t: TyView) -> Seq<char> {
    ty_text(db, t) + " (calldata(array(t)) is input-only; the target std has no ABIEncode evidence for it)"@
}

/// One ABI output: input-only calldata arrays are unsupported.
pub open spec fn output_param(db: &Db, manual: Set<DefId>, derived: Set<DefId>, t: TyView) -> AbiParamV {
    if contains_calldata_array(db, t, Seq::empty()) {
        AbiParamV { name: Seq::empty(), ty: AbiTy::Unsupported, components: Seq::empty() }
    } else {
        lowered_param(db, manual, derived, Seq::empty(), t)
    }
}

pub open spec fn output_diags(db: &Db, manual: Set<DefId>, derived: Set<DefId>, s: Seq<TyView>, span: Span) -> Seq<DiagnosticView>
    decreases s.len(),
{
    if s.len() == 0 {
        Seq::empty()
    } else {
        output_diags(db, manual, derived, s.drop_last(), span) + if contains_calldata_array(db, s.last(), Seq::empty()) {
            seq![contract_diag(span, "ABI output"@, output_only_text(db, s.last()))]
        } else {
            match abi_of(db, manual, derived, s.last()) {
                Err(e) => seq![contract_diag(span, "ABI output"@, e)],
                Ok(_) => Seq::empty(),
            }
        }
    }
}

} // verus!

verus! {

/// `memory`, `calldata`, `storage` or `mapping` of the root std module.
pub open spec fn is_std_location(db: &Db, user: UserTyCtor) -> bool {
    match db.name_of(user.def) {
        Some(n) => is_location_name(n) && db.location_of(user.def) == DefLocation::StdRoot,
        None => false,
    }
}

/// A canonical std location or the canonical std `array`.
pub open spec fn is_std_abi_container(db: &Db, user: UserTyCtor) -> bool {
    is_std_location(db, user) || canonical_std_named(db, user.def, "array"@)
}

/// The constructor fields of a single-constructor user ADT, read from its
/// derived `Generic` product with the type arguments substituted.
pub open spec fn product_fields(db: &Db, user: UserTyCtor, args: Seq<TyView>, stack: Seq<DefId>) -> Result<Seq<TyView>, Seq<char>> {
    let def = user.def;
    let name = adt_name(db, def);
    if stack.contains(def) || stack.len() >= db.defs@.len() {
        Err(name + " (recursive ADTs have no finite canonical ABI tuple)"@)
    } else if db.has(def) && db.info(def).generic_excluded {
        Err(manual_generic_text(db, def))
    } else {
        match adt_shape(db, def) {
            None => Err(unavailable_text(db, def)),
            Some(shape) => {
                let ctors = shape.ctor_field_counts@;
                if ctors.len() == 0 {
                    Err(name + " (constructorless ADTs have no canonical ABI representation)"@)
                } else if ctors.len() > 1 {
                    Err(name + " (multi-constructor ADTs have no canonical ABI representation)"@)
                } else if ctors[0] == 0 {
                    Err(name + " (zero-field ADTs have no canonical ABI tuple representation)"@)
                } else if shape.param_count != args.len() {
                    Err(arity_text(db, def, shape.param_count as nat, args.len()))
                } else if shape.generic_rep is None {
                    Err(name + " (cannot derive its Generic ABI representation)"@)
                } else {
                    match shape.product_rep {
                        None => Err(name + " (cannot derive its constructor product representation)"@),
                        Some(product) => match split_product(subst(product@, args), ctors[0] as nat) {
                            None => Err(name + " (its Generic product does not match the source constructor arity "@
                                + dec_text(ctors[0] as nat) + ")"@),
                            Some(fields) => if exists|i: int| 0 <= i < fields.len() && is_tuple_shape(#[trigger] fields[i]) {
                                Err(name + " (tuple-typed constructor fields are unsupported because Generic erases their ABI tuple boundary)"@)
                            } else {
                                Ok(fields)
                            },
                        },
                    }
                }
            },
        }
    }
}

/// Whether the ABI layout of `t` reaches the ADT `target`, looking through
/// tuples, pairs, canonical containers and single-constructor user ADTs.
pub open spec fn abi_reaches_adt(db: &Db, t: TyView, target: DefId, stack: Seq<DefId>) -> bool
    decreases depth_budget(db, stack), tv_size(t), 1nat,
{
    match t {
        TyView::Tuple(elems) => any_abi_reaches_adt(db, elems, target, stack),
        TyView::Named { ctor: TyCtor::Builtin(BuiltinTyCtor::Pair), args } if args.len() == 2 =>
            any_abi_reaches_adt(db, args, target, stack),
        TyView::Named { ctor: TyCtor::User(user), args } => {
            if is_std_abi_container(db, user) && args.len() == 1 {
                proof {
                    lemma_tvs_size_elem(args, 0);
                }
                abi_reaches_adt(db, args[0], target, stack)
            } else if args.len() == 0 && canonical_user_name(db, user) is Some {
                false
            } else if user.def == target {
                true
            } else {
                match product_fields(db, user, args, stack) {
                    Err(_) => false,
                    Ok(fields) => any_abi_reaches_adt(db, fields, target, stack.push(user.def)),
                }
            }
        },
        TyView::Comptime(inner) => abi_reaches_adt(db, *inner, target, stack),
        _ => false,
    }
}

pub open spec fn any_abi_reaches_adt(db: &Db, s: Seq<TyView>, target: DefId, stack: Seq<DefId>) -> bool
    decreases depth_budget(db, stack), tvs_size(s), 2nat,
{
    if s.len() == 0 {
        false
    } else {
        proof {
            lemma_tvs_size_elem(s, s.len() - 1);
        }
        any_abi_reaches_adt(db, s.drop_last(), target, stack) || abi_reaches_adt(db, s.last(), target, stack)
    }
}

} // verus!
