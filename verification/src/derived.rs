//! Compiler-derived class clauses: the `ABIAttribs`/`ABIDecode` and
//! `StorageSize`/`CanStore` instances backed by a derived `Generic`
//! representation, and the plans of user `derive` declarations.
use vstd::prelude::*;
use crate::diag::Span;
use crate::resolve::{
    adt_named, class_named, is_adt_named, is_class_named, lookup_def, lookup_named_def,
    std_adt, canonical_std_adt_def, visible_def, visible_named_def, DefLookup, DeriveResolution,
    DefResolutionKind, ImportSurface, ItemResolutionFacts, Resolution,
};
use crate::ty::{
    canonical_std_named, is_canonical_std_def_named, lemma_tys_view, lemma_tys_view_push, mentions_adt,
    ty_mentions_adt, tys_view, Db, DefId, Ty, TyCtor, TyView, UserTyCtor, UserTyCtorKind,
};

verus! {

/// A type class.
#[derive(Clone, Copy, Debug, PartialEq, Eq, Hash, Structural)]
pub enum ClassId {
    User(DefId),
}

/// A class predicate `main : class(args)`.
#[derive(Debug)]
pub struct Pred {
    pub class: ClassId,
    pub main: Ty,
    pub args: Vec<Ty>,
}

pub struct PredV {
    pub class: ClassId,
    pub main: TyView,
    pub args: Seq<TyView>,
}

impl View for Pred {
    type V = PredV;

    open spec fn view(&self) -> PredV {
        PredV { class: self.class, main: self.main@, args: tys_view(self.args@) }
    }
}

pub open spec fn preds_view(s: Seq<Pred>) -> Seq<PredV> {
    s.map_values(|p: Pred| p@)
}

#[derive(Clone, Copy, Debug, PartialEq, Eq, Hash, Structural)]
pub enum DerivedClauseKind {
    AbiAttribs { adt: DefId },
    AbiDecode { adt: DefId, word_reader: DefId },
    StorageSize { adt: DefId },
    CanStore { adt: DefId, storage_size: DefId },
}

#[derive(Clone, Copy, Debug, PartialEq, Eq, Hash, Structural)]
pub enum ClauseOrigin {
    Derived(DerivedClauseKind),
    Instance(DefId),
}

/// `forall binders. conditions => head`.
#[derive(Debug)]
pub struct ProgramClause {
    pub binder_count: u32,
    pub head: Pred,
    pub conditions: Vec<Pred>,
    pub origin: ClauseOrigin,
}

pub struct ClauseV {
    pub binder_count: u32,
    pub head: PredV,
    pub conditions: Seq<PredV>,
    pub origin: ClauseOrigin,
}

impl View for ProgramClause {
    type V = ClauseV;

    open spec fn view(&self) -> ClauseV {
        ClauseV {
            binder_count: self.binder_count,
            head: self.head@,
            conditions: preds_view(self.conditions@),
            origin: self.origin,
        }
    }
}

pub open spec fn clauses_view(s: Seq<ProgramClause>) -> Seq<ClauseV> {
    s.map_values(|c: ProgramClause| c@)
}

/// What the derivation needs of a local ADT declaration.
#[derive(Debug)]
pub struct AdtDeriveInfo {
    pub adt: DefId,
    pub name: String,
    pub name_span: Span,
    /// Spans of the `derive` targets, in order.
    pub derive_spans: Vec<Span>,
    /// Number of declared type parameters.
    pub param_count: usize,
    /// Number of type variables in scope of the declaration (more than
    /// `param_count` for a contract-local ADT of a generic contract).
    pub type_var_count: usize,
    /// The ADT has no constructors.
    pub ctorless: bool,
}

/// Definitions for the instances backed by `std.ABIGeneric`.
#[derive(Clone, Copy, Debug, PartialEq, Eq, Hash, Structural)]
pub struct DerivedAbiClauseSource {
    pub marker: DefId,
    pub abi_attribs: DefId,
    pub abi_decode: DefId,
    pub word_reader: DefId,
    pub abi_decoder: DefId,
}

/// Definitions for the instances backed by `std.StorageGeneric`.
#[derive(Clone, Copy, Debug, PartialEq, Eq, Hash, Structural)]
pub struct DerivedStorageClauseSource {
    pub marker: DefId,
    pub storage_size: DefId,
    pub can_store: DefId,
    pub storage: DefId,
}

pub open spec fn abi_source(db: &Db, lookup: DefLookup) -> Option<DerivedAbiClauseSource> {
    match (lookup_def(db, lookup, "ABIDeriving"@), lookup_def(db, lookup, "ABIAttribs"@), lookup_def(db, lookup, "ABIDecode"@),
        lookup_def(db, lookup, "WordReader"@), lookup_def(db, lookup, "ABIDecoder"@)) {
        (Some(marker), Some(abi_attribs), Some(abi_decode), Some(word_reader), Some(abi_decoder)) =>
            if is_class_named(db, marker, "ABIDeriving"@) && is_class_named(db, abi_attribs, "ABIAttribs"@)
                && is_class_named(db, abi_decode, "ABIDecode"@) && is_class_named(db, word_reader, "WordReader"@)
                && is_adt_named(db, abi_decoder, "ABIDecoder"@) {
                Some(DerivedAbiClauseSource { marker, abi_attribs, abi_decode, word_reader, abi_decoder })
            } else {
                None
            },
        _ => None,
    }
}

/// The ABI clause source found through `lookup`, when all five definitions
/// exist with the right kinds.
pub fn abi_clause_source_from_lookup(db: &Db, lookup: &DefLookup) -> (r: Option<DerivedAbiClauseSource>)
    ensures
        r == abi_source(db, *lookup),
{
    let marker = lookup_named_def(db, lookup, "ABIDeriving")?;
    let abi_attribs = lookup_named_def(db, lookup, "ABIAttribs")?;
    let abi_decode = lookup_named_def(db, lookup, "ABIDecode")?;
    let word_reader = lookup_named_def(db, lookup, "WordReader")?;
    let abi_decoder = lookup_named_def(db, lookup, "ABIDecoder")?;
    class_named(db, marker, "ABIDeriving")?;
    class_named(db, abi_attribs, "ABIAttribs")?;
    class_named(db, abi_decode, "ABIDecode")?;
    class_named(db, word_reader, "WordReader")?;
    adt_named(db, abi_decoder, "ABIDecoder")?;
    Some(DerivedAbiClauseSource { marker, abi_attribs, abi_decode, word_reader, abi_decoder })
}

/// The ABI clause source visible from a consumer module.
pub fn visible_abi_clause_source(db: &Db, env: &ImportSurface) -> (r: Option<DerivedAbiClauseSource>)
    ensures
        r == abi_source(db, DefLookup::Visible(env)),
{
    abi_clause_source_from_lookup(db, &DefLookup::Visible(env))
}

/// The ABI clause source resolved in a defining module.
pub fn resolved_abi_clause_source(db: &Db, items: &Vec<crate::resolve::LocalItem>, facts: &ItemResolutionFacts) -> (r: Option<DerivedAbiClauseSource>)
    ensures
        r == abi_source(db, DefLookup::Resolved(items, facts)),
{
    abi_clause_source_from_lookup(db, &DefLookup::Resolved(items, facts))
}

pub open spec fn storage_source(db: &Db, lookup: DefLookup) -> Option<DerivedStorageClauseSource> {
    match (lookup_def(db, lookup, "StorageDeriving"@), lookup_def(db, lookup, "StorageSize"@),
        lookup_def(db, lookup, "CanStore"@), lookup_def(db, lookup, "storage"@)) {
        (Some(marker), Some(storage_size), Some(can_store), Some(storage)) =>
            if is_class_named(db, marker, "StorageDeriving"@) && is_class_named(db, storage_size, "StorageSize"@)
                && is_class_named(db, can_store, "CanStore"@) && is_adt_named(db, storage, "storage"@) {
                Some(DerivedStorageClauseSource { marker, storage_size, can_store, storage })
            } else {
                None
            },
        _ => None,
    }
}

/// The storage clause source found through `lookup`.
pub fn storage_clause_source_from_lookup(db: &Db, lookup: &DefLookup) -> (r: Option<DerivedStorageClauseSource>)
    ensures
        r == storage_source(db, *lookup),
{
    let marker = lookup_named_def(db, lookup, "StorageDeriving")?;
    let storage_size = lookup_named_def(db, lookup, "StorageSize")?;
    let can_store = lookup_named_def(db, lookup, "CanStore")?;
    let storage = lookup_named_def(db, lookup, "storage")?;
    class_named(db, marker, "StorageDeriving")?;
    class_named(db, storage_size, "StorageSize")?;
    class_named(db, can_store, "CanStore")?;
    adt_named(db, storage, "storage")?;
    Some(DerivedStorageClauseSource { marker, storage_size, can_store, storage })
}

pub fn visible_storage_clause_source(db: &Db, env: &ImportSurface) -> (r: Option<DerivedStorageClauseSource>)
    ensures
        r == storage_source(db, DefLookup::Visible(env)),
{
    storage_clause_source_from_lookup(db, &DefLookup::Visible(env))
}

pub fn resolved_storage_clause_source(db: &Db, items: &Vec<crate::resolve::LocalItem>, facts: &ItemResolutionFacts) -> (r: Option<DerivedStorageClauseSource>)
    ensures
        r == storage_source(db, DefLookup::Resolved(items, facts)),
{
    storage_clause_source_from_lookup(db, &DefLookup::Resolved(items, facts))
}

} // verus!

verus! {

pub open spec fn bound_params(n: nat) -> Seq<TyView> {
    Seq::new(n, |i: int| TyView::BoundVar(i as u32))
}

/// The ADT applied to its own bound type parameters.
pub open spec fn adt_head(adt: DefId, n: nat) -> TyView {
    TyView::Named { ctor: TyCtor::User(UserTyCtor { def: adt, kind: UserTyCtorKind::Adt }), args: bound_params(n) }
}

pub open spec fn adt_applied(adt: DefId, args: Seq<TyView>) -> TyView {
    TyView::Named { ctor: TyCtor::User(UserTyCtor { def: adt, kind: UserTyCtorKind::Adt }), args }
}

pub open spec fn in_class(class: DefId, main: TyView, args: Seq<TyView>) -> PredV {
    PredV { class: ClassId::User(class), main, args }
}

/// The derived `ABIAttribs` and `ABIDecode` clauses of an ADT, or none when
/// its `Generic` representation mentions the ADT itself.
pub open spec fn derived_abi_clauses(adt: DefId, param_count: nat, type_var_count: nat, rep: TyView, source: DerivedAbiClauseSource) -> Seq<ClauseV> {
    if mentions_adt(rep, adt) {
        Seq::empty()
    } else {
        let params = bound_params(param_count);
        let main = adt_head(adt, param_count);
        let reader = TyView::BoundVar(type_var_count as u32);
        seq![
            ClauseV {
                binder_count: type_var_count as u32,
                head: in_class(source.abi_attribs, main, Seq::empty()),
                conditions: Seq::new(param_count, |i: int| in_class(source.abi_attribs, params[i], Seq::empty())),
                origin: ClauseOrigin::Derived(DerivedClauseKind::AbiAttribs { adt }),
            },
            ClauseV {
                binder_count: (type_var_count + 1) as u32,
                head: in_class(source.abi_decode, adt_applied(source.abi_decoder, seq![main, reader]), seq![main]),
                conditions: seq![in_class(source.word_reader, reader, Seq::empty())] + Seq::new(param_count, |i: int|
                    in_class(source.abi_decode, adt_applied(source.abi_decoder, seq![params[i], reader]), seq![params[i]])),
                origin: ClauseOrigin::Derived(DerivedClauseKind::AbiDecode { adt, word_reader: source.word_reader }),
            },
        ]
    }
}

/// The derived `StorageSize` and `CanStore` clauses of an ADT, or none when
/// its `Generic` representation mentions the ADT itself.
pub open spec fn derived_storage_clauses(adt: DefId, param_count: nat, type_var_count: nat, rep: TyView, source: DerivedStorageClauseSource) -> Seq<ClauseV> {
    if mentions_adt(rep, adt) {
        Seq::empty()
    } else {
        let params = bound_params(param_count);
        let main = adt_head(adt, param_count);
        seq![
            ClauseV {
                binder_count: type_var_count as u32,
                head: in_class(source.storage_size, main, Seq::empty()),
                conditions: Seq::new(param_count, |i: int| in_class(source.storage_size, params[i], Seq::empty())),
                origin: ClauseOrigin::Derived(DerivedClauseKind::StorageSize { adt }),
            },
            ClauseV {
                binder_count: type_var_count as u32,
                head: in_class(source.can_store, adt_applied(source.storage, seq![main]), seq![main]),
                conditions: Seq::new(param_count, |i: int| in_class(source.can_store, adt_applied(source.storage, seq![params[i]]), seq![params[i]]))
                    + Seq::new(param_count, |i: int| in_class(source.storage_size, params[i], Seq::empty())),
                origin: ClauseOrigin::Derived(DerivedClauseKind::CanStore { adt, storage_size: source.storage_size }),
            },
        ]
    }
}

fn bound_var_tys(n: usize) -> (r: Vec<Ty>)
    requires
        n <= u32::MAX + 1,
    ensures
        tys_view(r@) == bound_params(n as nat),
{
    let mut out: Vec<Ty> = Vec::new();
    let mut i: usize = 0;
    while i < n
        invariant
            i <= n,
            n <= u32::MAX + 1,
            tys_view(out@) == bound_params(i as nat),
        decreases n - i,
    {
        let t = Ty::BoundVar(i as u32);
        proof {
            lemma_tys_view_push(out@, t);
            assert(bound_params(i as nat).push(TyView::BoundVar(i as u32)) =~= bound_params((i + 1) as nat));
        }
        out.push(t);
        i = i + 1;
    }
    out
}

fn adt_ty(adt: DefId, args: Vec<Ty>) -> (t: Ty)
    ensures
        t@ == adt_applied(adt, tys_view(args@)),
{
    Ty::Named { ctor: TyCtor::User(UserTyCtor { def: adt, kind: UserTyCtorKind::Adt }), args }
}

fn one_ty(t: Ty) -> (v: Vec<Ty>)
    ensures
        tys_view(v@) == seq![t@],
{
    let mut v: Vec<Ty> = Vec::new();
    proof {
        lemma_tys_view_push(v@, t);
        assert(v@.push(t).drop_last() =~= v@);
    }
    v.push(t);
    proof {
        assert(tys_view(v@) =~= seq![t@]);
    }
    v
}

fn two_tys(a: Ty, b: Ty) -> (v: Vec<Ty>)
    ensures
        tys_view(v@) == seq![a@, b@],
{
    let mut v = one_ty(a);
    proof {
        lemma_tys_view_push(v@, b);
    }
    v.push(b);
    proof {
        assert(tys_view(v@) =~= seq![a@, b@]);
    }
    v
}

fn pred(class: DefId, main: Ty, args: Vec<Ty>) -> (p: Pred)
    ensures
        p@ == in_class(class, main@, tys_view(args@)),
{
    Pred { class: ClassId::User(class), main, args }
}

fn no_tys() -> (v: Vec<Ty>)
    ensures
        tys_view(v@) == Seq::<TyView>::empty(),
{
    Vec::new()
}

/// Adds the derived `ABIAttribs` and `ABIDecode` clauses of an ADT whose
/// `Generic` representation is `rep`.
pub fn push_derived_abi_clauses(clauses: &mut Vec<ProgramClause>, info: &AdtDeriveInfo, rep: &Ty, source: DerivedAbiClauseSource)
    requires
        info.param_count <= u32::MAX,
        info.type_var_count < u32::MAX,
    ensures
        clauses_view(final(clauses)@) == clauses_view(old(clauses)@) + derived_abi_clauses(info.adt, info.param_count as nat, info.type_var_count as nat, rep@, source),
{
    let adt = info.adt;
    if ty_mentions_adt(rep, adt) {
        proof {
            assert(clauses_view(clauses@) + Seq::<ClauseV>::empty() =~= clauses_view(clauses@));
        }
        return;
    }
    let n = info.param_count;
    let tvc = info.type_var_count as u32;
    let ghost params = bound_params(n as nat);
    let ghost main_v = adt_head(adt, n as nat);
    let ghost reader_v = TyView::BoundVar(tvc);

    let mut attribs_conditions: Vec<Pred> = Vec::new();
    let mut i: usize = 0;
    while i < n
        invariant
            i <= n,
            n <= u32::MAX,
            preds_view(attribs_conditions@) == Seq::new(i as nat, |k: int| in_class(source.abi_attribs, bound_params(n as nat)[k], Seq::empty())),
        decreases n - i,
    {
        let p = pred(source.abi_attribs, Ty::BoundVar(i as u32), no_tys());
        proof {
            assert(preds_view(attribs_conditions@.push(p)) =~= preds_view(attribs_conditions@).push(p@));
            assert(bound_params(n as nat)[i as int] == TyView::BoundVar(i as u32));
            assert(p@ == in_class(source.abi_attribs, bound_params(n as nat)[i as int], Seq::empty()));
            assert(preds_view(attribs_conditions@.push(p)) =~= Seq::new((i + 1) as nat, |k: int| in_class(source.abi_attribs, bound_params(n as nat)[k], Seq::empty())));
        }
        attribs_conditions.push(p);
        i = i + 1;
    }
    let head = pred(source.abi_attribs, adt_ty(adt, bound_var_tys(n)), no_tys());
    let c1 = ProgramClause {
        binder_count: tvc,
        head,
        conditions: attribs_conditions,
        origin: ClauseOrigin::Derived(DerivedClauseKind::AbiAttribs { adt }),
    };

    let mut decode_conditions: Vec<Pred> = Vec::new();
    decode_conditions.push(pred(source.word_reader, Ty::BoundVar(tvc), no_tys()));
    let mut i: usize = 0;
    while i < n
        invariant
            i <= n,
            n <= u32::MAX,
            tvc == info.type_var_count,
            preds_view(decode_conditions@) == seq![in_class(source.word_reader, TyView::BoundVar(tvc), Seq::empty())] + Seq::new(i as nat, |k: int|
                in_class(source.abi_decode, adt_applied(source.abi_decoder, seq![bound_params(n as nat)[k], TyView::BoundVar(tvc)]), seq![bound_params(n as nat)[k]])),
        decreases n - i,
    {
        let decoder = adt_ty(source.abi_decoder, two_tys(Ty::BoundVar(i as u32), Ty::BoundVar(tvc)));
        let p = pred(source.abi_decode, decoder, one_ty(Ty::BoundVar(i as u32)));
        proof {
            assert(preds_view(decode_conditions@.push(p)) =~= preds_view(decode_conditions@).push(p@));
            assert(bound_params(n as nat)[i as int] == TyView::BoundVar(i as u32));
            assert(p@ == in_class(source.abi_decode, adt_applied(source.abi_decoder, seq![bound_params(n as nat)[i as int], TyView::BoundVar(tvc)]), seq![bound_params(n as nat)[i as int]]));
            assert(preds_view(decode_conditions@.push(p)) =~= seq![in_class(source.word_reader, TyView::BoundVar(tvc), Seq::empty())] + Seq::new((i + 1) as nat, |k: int|
                in_class(source.abi_decode, adt_applied(source.abi_decoder, seq![bound_params(n as nat)[k], TyView::BoundVar(tvc)]), seq![bound_params(n as nat)[k]])));
        }
        decode_conditions.push(p);
        i = i + 1;
    }
    let decoded_main = adt_ty(source.abi_decoder, two_tys(adt_ty(adt, bound_var_tys(n)), Ty::BoundVar(tvc)));
    let head2 = pred(source.abi_decode, decoded_main, one_ty(adt_ty(adt, bound_var_tys(n))));
    let c2 = ProgramClause {
        binder_count: tvc + 1,
        head: head2,
        conditions: decode_conditions,
        origin: ClauseOrigin::Derived(DerivedClauseKind::AbiDecode { adt, word_reader: source.word_reader }),
    };
    proof {
        assert(clauses_view(clauses@.push(c1).push(c2)) =~= clauses_view(clauses@) + seq![c1@, c2@]);
        assert(seq![c1@, c2@] =~= derived_abi_clauses(info.adt, info.param_count as nat, info.type_var_count as nat, rep@, source));
    }
    clauses.push(c1);
    clauses.push(c2);
}

} // verus!

verus! {

/// Adds the derived `StorageSize` and `CanStore` clauses of an ADT whose
/// `Generic` representation is `rep`.
pub fn push_derived_storage_clauses(clauses: &mut Vec<ProgramClause>, info: &AdtDeriveInfo, rep: &Ty, source: DerivedStorageClauseSource)
    requires
        info.param_count <= u32::MAX,
        info.type_var_count <= u32::MAX,
    ensures
        clauses_view(final(clauses)@) == clauses_view(old(clauses)@) + derived_storage_clauses(info.adt, info.param_count as nat, info.type_var_count as nat, rep@, source),
{
    let adt = info.adt;
    if ty_mentions_adt(rep, adt) {
        proof {
            assert(clauses_view(clauses@) + Seq::<ClauseV>::empty() =~= clauses_view(clauses@));
        }
        return;
    }
    let n = info.param_count;
    let tvc = info.type_var_count as u32;

    let mut size_conditions: Vec<Pred> = Vec::new();
    let mut i: usize = 0;
    while i < n
        invariant
            i <= n,
            n <= u32::MAX,
            preds_view(size_conditions@) == Seq::new(i as nat, |k: int| in_class(source.storage_size, bound_params(n as nat)[k], Seq::empty())),
        decreases n - i,
    {
        let p = pred(source.storage_size, Ty::BoundVar(i as u32), no_tys());
        proof {
            assert(preds_view(size_conditions@.push(p)) =~= preds_view(size_conditions@).push(p@));
            assert(bound_params(n as nat)[i as int] == TyView::BoundVar(i as u32));
            assert(preds_view(size_conditions@.push(p)) =~= Seq::new((i + 1) as nat, |k: int| in_class(source.storage_size, bound_params(n as nat)[k], Seq::empty())));
        }
        size_conditions.push(p);
        i = i + 1;
    }
    let head = pred(source.storage_size, adt_ty(adt, bound_var_tys(n)), no_tys());
    let c1 = ProgramClause {
        binder_count: tvc,
        head,
        conditions: size_conditions,
        origin: ClauseOrigin::Derived(DerivedClauseKind::StorageSize { adt }),
    };

    let mut store_conditions: Vec<Pred> = Vec::new();
    let mut i: usize = 0;
    while i < n
        invariant
            i <= n,
            n <= u32::MAX,
            preds_view(store_conditions@) == Seq::new(i as nat, |k: int|
                in_class(source.can_store, adt_applied(source.storage, seq![bound_params(n as nat)[k]]), seq![bound_params(n as nat)[k]])),
        decreases n - i,
    {
        let stored = adt_ty(source.storage, one_ty(Ty::BoundVar(i as u32)));
        let p = pred(source.can_store, stored, one_ty(Ty::BoundVar(i as u32)));
        proof {
            assert(preds_view(store_conditions@.push(p)) =~= preds_view(store_conditions@).push(p@));
            assert(bound_params(n as nat)[i as int] == TyView::BoundVar(i as u32));
            assert(preds_view(store_conditions@.push(p)) =~= Seq::new((i + 1) as nat, |k: int|
                in_class(source.can_store, adt_applied(source.storage, seq![bound_params(n as nat)[k]]), seq![bound_params(n as nat)[k]])));
        }
        store_conditions.push(p);
        i = i + 1;
    }
    let ghost stored_part = preds_view(store_conditions@);
    let mut i: usize = 0;
    while i < n
        invariant
            i <= n,
            n <= u32::MAX,
            preds_view(store_conditions@) == stored_part + Seq::new(i as nat, |k: int| in_class(source.storage_size, bound_params(n as nat)[k], Seq::empty())),
        decreases n - i,
    {
        let p = pred(source.storage_size, Ty::BoundVar(i as u32), no_tys());
        proof {
            assert(preds_view(store_conditions@.push(p)) =~= preds_view(store_conditions@).push(p@));
            assert(bound_params(n as nat)[i as int] == TyView::BoundVar(i as u32));
            assert(preds_view(store_conditions@.push(p)) =~= stored_part + Seq::new((i + 1) as nat, |k: int| in_class(source.storage_size, bound_params(n as nat)[k], Seq::empty())));
        }
        store_conditions.push(p);
        i = i + 1;
    }
    let stored_main = adt_ty(source.storage, one_ty(adt_ty(adt, bound_var_tys(n))));
    let head2 = pred(source.can_store, stored_main, one_ty(adt_ty(adt, bound_var_tys(n))));
    let c2 = ProgramClause {
        binder_count: tvc,
        head: head2,
        conditions: store_conditions,
        origin: ClauseOrigin::Derived(DerivedClauseKind::CanStore { adt, storage_size: source.storage_size }),
    };
    proof {
        assert(clauses_view(clauses@.push(c1).push(c2)) =~= clauses_view(clauses@) + seq![c1@, c2@]);
        assert(seq![c1@, c2@] =~= derived_storage_clauses(info.adt, info.param_count as nat, info.type_var_count as nat, rep@, source));
    }
    clauses.push(c1);
    clauses.push(c2);
}

} // verus!

verus! {

/// The number of class arguments besides the main type, when `class` is a
/// class declared in its module.
pub open spec fn class_extra_args(db: &Db, class: DefId) -> Option<usize> {
    if db.has(class) {
        db.info(class).class_extra_args
    } else {
        None
    }
}

pub fn user_class_extra_arg_count(db: &Db, class: DefId) -> (r: Option<usize>)
    ensures
        r == class_extra_args(db, class),
{
    match db.def_info(class) {
        Some(info) => info.class_extra_args,
        None => None,
    }
}

/// Only single-parameter classes can be derived.
pub fn user_class_supports_deriving(db: &Db, class: DefId) -> (b: bool)
    ensures
        b == (class_extra_args(db, class) == Some(0usize)),
{
    match user_class_extra_arg_count(db, class) {
        Some(n) => n == 0,
        None => false,
    }
}

/// The first derive info for `adt`.
pub open spec fn find_info(infos: Seq<AdtDeriveInfo>, adt: DefId) -> Option<AdtDeriveInfo>
    decreases infos.len(),
{
    if infos.len() == 0 {
        None
    } else if infos[0].adt == adt {
        Some(infos[0])
    } else {
        find_info(infos.skip(1), adt)
    }
}

fn find_adt_info<'a>(infos: &'a Vec<AdtDeriveInfo>, adt: DefId) -> (r: Option<&'a AdtDeriveInfo>)
    ensures
        match r {
            Some(i) => find_info(infos@, adt) == Some(*i),
            None => find_info(infos@, adt) is None,
        },
{
    let mut i: usize = 0;
    proof {
        assert(infos@.skip(0) =~= infos@);
    }
    while i < infos.len()
        invariant
            i <= infos@.len(),
            find_info(infos@, adt) == find_info(infos@.skip(i as int), adt),
        decreases infos@.len() - i,
    {
        proof {
            assert(infos@.skip(i as int).skip(1) =~= infos@.skip(i + 1));
            assert(infos@.skip(i as int)[0] == infos@[i as int]);
        }
        if infos[i].adt == adt {
            return Some(&infos[i]);
        }
        i = i + 1;
    }
    None
}

/// A plan for a valid class derivation.
#[derive(Debug)]
pub struct DerivedClassPlan {
    pub adt: DefId,
    pub class: DefId,
    pub target_index: u32,
    pub binder_count: u32,
    pub head: Pred,
    pub conditions: Vec<Pred>,
    /// The ADT has no constructors.
    pub empty: bool,
}

pub struct PlanV {
    pub adt: DefId,
    pub class: DefId,
    pub target_index: u32,
    pub binder_count: u32,
    pub head: PredV,
    pub conditions: Seq<PredV>,
    pub empty: bool,
}

impl View for DerivedClassPlan {
    type V = PlanV;

    open spec fn view(&self) -> PlanV {
        PlanV {
            adt: self.adt,
            class: self.class,
            target_index: self.target_index,
            binder_count: self.binder_count,
            head: self.head@,
            conditions: preds_view(self.conditions@),
            empty: self.empty,
        }
    }
}

/// The plan for one `derive` target: the class must be a derivable class and
/// the ADT a local declaration that captures no type variables beyond its
/// own parameters; the plan is `forall params. params : class => adt(params) : class`.
pub open spec fn derive_plan(db: &Db, infos: Seq<AdtDeriveInfo>, d: DeriveResolution) -> Option<PlanV> {
    match d.resolution {
        Resolution::Def { def: class, kind: DefResolutionKind::Class } => {
            if class_extra_args(db, class) != Some(0usize) {
                None
            } else {
                match find_info(infos, d.adt) {
                    None => None,
                    Some(info) => if info.type_var_count != info.param_count {
                        None
                    } else {
                        let n = info.param_count as nat;
                        Some(PlanV {
                            adt: d.adt,
                            class,
                            target_index: d.index,
                            binder_count: n as u32,
                            head: in_class(class, adt_head(d.adt, n), Seq::empty()),
                            conditions: Seq::new(n, |i: int| in_class(class, bound_params(n)[i], Seq::empty())),
                            empty: info.ctorless,
                        })
                    },
                }
            }
        },
        _ => None,
    }
}

pub open spec fn derive_plans(db: &Db, infos: Seq<AdtDeriveInfo>, derives: Seq<DeriveResolution>) -> Seq<PlanV>
    decreases derives.len(),
{
    if derives.len() == 0 {
        Seq::empty()
    } else {
        derive_plans(db, infos, derives.drop_last()) + match derive_plan(db, infos, derives.last()) {
            Some(p) => seq![p],
            None => Seq::empty(),
        }
    }
}

pub open spec fn plans_view(s: Seq<DerivedClassPlan>) -> Seq<PlanV> {
    s.map_values(|p: DerivedClassPlan| p@)
}

/// The plans of all valid class derivations among a module's derive targets,
/// in declaration order.
pub fn derived_class_plans_with_resolutions(db: &Db, infos: &Vec<AdtDeriveInfo>, facts: &ItemResolutionFacts) -> (r: Vec<DerivedClassPlan>)
    requires
        forall|i: int| 0 <= i < infos@.len() ==> #[trigger] infos@[i].param_count <= u32::MAX,
    ensures
        plans_view(r@) == derive_plans(db, infos@, facts.derives@),
{
    let mut plans: Vec<DerivedClassPlan> = Vec::new();
    let mut i: usize = 0;
    let derives = &facts.derives;
    proof {
        assert(plans_view(plans@) =~= derive_plans(db, infos@, derives@.take(0)));
    }
    while i < derives.len()
        invariant
            i <= derives@.len(),
            forall|k: int| 0 <= k < infos@.len() ==> #[trigger] infos@[k].param_count <= u32::MAX,
            plans_view(plans@) == derive_plans(db, infos@, derives@.take(i as int)),
        decreases derives@.len() - i,
    {
        let d = derives[i];
        proof {
            assert(derives@.take(i + 1).drop_last() =~= derives@.take(i as int));
        }
        let ghost before = plans_view(plans@);
        if let Resolution::Def { def: class, kind: DefResolutionKind::Class } = d.resolution {
            if user_class_supports_deriving(db, class) {
                if let Some(info) = find_adt_info(infos, d.adt) {
                    proof {
                        lemma_find_info_in(infos@, d.adt);
                    }
                    let n = info.param_count;
                    if info.type_var_count == n {
                        let mut conditions: Vec<Pred> = Vec::new();
                        let mut k: usize = 0;
                        while k < n
                            invariant
                                k <= n,
                                n <= u32::MAX,
                                preds_view(conditions@) == Seq::new(k as nat, |j: int| in_class(class, bound_params(n as nat)[j], Seq::empty())),
                            decreases n - k,
                        {
                            let p = pred(class, Ty::BoundVar(k as u32), no_tys());
                            proof {
                                assert(preds_view(conditions@.push(p)) =~= preds_view(conditions@).push(p@));
                                assert(bound_params(n as nat)[k as int] == TyView::BoundVar(k as u32));
                                assert(preds_view(conditions@.push(p)) =~= Seq::new((k + 1) as nat, |j: int| in_class(class, bound_params(n as nat)[j], Seq::empty())));
                            }
                            conditions.push(p);
                            k = k + 1;
                        }
                        let head = pred(class, adt_ty(d.adt, bound_var_tys(n)), no_tys());
                        let plan = DerivedClassPlan {
                            adt: d.adt,
                            class,
                            target_index: d.index,
                            binder_count: n as u32,
                            head,
                            conditions,
                            empty: info.ctorless,
                        };
                        proof {
                            assert(plans_view(plans@.push(plan)) =~= before + seq![plan@]);
                        }
                        plans.push(plan);
                    }
                }
            }
        }
        proof {
            assert(plans_view(plans@) =~= derive_plans(db, infos@, derives@.take(i + 1)));
        }
        i = i + 1;
    }
    proof {
        assert(derives@.take(derives@.len() as int) =~= derives@);
    }
    plans
}

proof fn lemma_find_info_in(infos: Seq<AdtDeriveInfo>, adt: DefId)
    ensures
        find_info(infos, adt) matches Some(info) ==> exists|i: int| 0 <= i < infos.len() && infos[i] == info,
    decreases infos.len(),
{
    if infos.len() > 0 && infos[0].adt != adt {
        lemma_find_info_in(infos.skip(1), adt);
        if let Some(info) = find_info(infos, adt) {
            let j = choose|j: int| 0 <= j < infos.skip(1).len() && infos.skip(1)[j] == info;
            assert(infos[j + 1] == info);
        }
    }
}

} // verus!

verus! {

/// A rejected `derive` target.
#[derive(Debug)]
pub struct InvalidDerive {
    pub span: Span,
    pub ty: String,
    pub class: String,
    pub reason: String,
}

pub struct InvalidDeriveV {
    pub span: Span,
    pub ty: Seq<char>,
    pub class: Seq<char>,
    pub reason: Seq<char>,
}

impl View for InvalidDerive {
    type V = InvalidDeriveV;

    open spec fn view(&self) -> InvalidDeriveV {
        InvalidDeriveV { span: self.span, ty: self.ty@, class: self.class@, reason: self.reason@ }
    }
}

pub open spec fn invalid_derives_view(s: Seq<InvalidDerive>) -> Seq<InvalidDeriveV> {
    s.map_values(|d: InvalidDerive| d@)
}

/// The span of the `index`-th derive target of a declaration, or its name
/// when there is no such target.
pub open spec fn target_span(info: AdtDeriveInfo, index: u32) -> Span {
    if (index as int) < info.derive_spans@.len() {
        info.derive_spans@[index as int]
    } else {
        info.name_span
    }
}

pub open spec fn class_text(db: &Db, class: DefId) -> Seq<char> {
    match db.name_of(class) {
        Some(n) => n,
        None => "<anonymous class>"@,
    }
}

/// The diagnostic of one `derive` target, if it is invalid.
pub open spec fn derive_diag(db: &Db, infos: Seq<AdtDeriveInfo>, d: DeriveResolution) -> Seq<InvalidDeriveV> {
    match d.resolution {
        Resolution::Def { def: class, kind: DefResolutionKind::Class } => match find_info(infos, d.adt) {
            None => Seq::empty(),
            Some(info) => {
                let span = target_span(info, d.index);
                if class_extra_args(db, class) matches Some(n) && n != 0 {
                    seq![InvalidDeriveV { span, ty: info.name@, class: class_text(db, class), reason: "only single-parameter classes can be derived"@ }]
                } else if info.type_var_count != info.param_count {
                    seq![InvalidDeriveV { span, ty: info.name@, class: class_text(db, class), reason: "a contract-local data type cannot capture generic contract parameters"@ }]
                } else {
                    Seq::empty()
                }
            },
        },
        _ => Seq::empty(),
    }
}

pub open spec fn derive_diags(db: &Db, infos: Seq<AdtDeriveInfo>, derives: Seq<DeriveResolution>) -> Seq<InvalidDeriveV>
    decreases derives.len(),
{
    if derives.len() == 0 {
        Seq::empty()
    } else {
        derive_diags(db, infos, derives.drop_last()) + derive_diag(db, infos, derives.last())
    }
}

fn derive_target_span(info: &AdtDeriveInfo, index: u32) -> (s: Span)
    ensures
        s == target_span(*info, index),
{
    if (index as usize) < info.derive_spans.len() {
        info.derive_spans[index as usize]
    } else {
        info.name_span
    }
}

fn class_display_name(db: &Db, class: DefId) -> (s: String)
    ensures
        s@ == class_text(db, class),
{
    match db.name(class) {
        Some(n) => n.clone(),
        None => crate::text::string_of("<anonymous class>"),
    }
}

/// The invalid `derive` targets of a module, in declaration order.
pub fn class_derivation_diagnostics(db: &Db, infos: &Vec<AdtDeriveInfo>, facts: &ItemResolutionFacts) -> (r: Vec<InvalidDerive>)
    ensures
        invalid_derives_view(r@) == derive_diags(db, infos@, facts.derives@),
{
    let mut out: Vec<InvalidDerive> = Vec::new();
    let derives = &facts.derives;
    let mut i: usize = 0;
    proof {
        assert(invalid_derives_view(out@) =~= derive_diags(db, infos@, derives@.take(0)));
    }
    while i < derives.len()
        invariant
            i <= derives@.len(),
            invalid_derives_view(out@) == derive_diags(db, infos@, derives@.take(i as int)),
        decreases derives@.len() - i,
    {
        let d = derives[i];
        proof {
            assert(derives@.take(i + 1).drop_last() =~= derives@.take(i as int));
        }
        let ghost before = invalid_derives_view(out@);
        if let Resolution::Def { def: class, kind: DefResolutionKind::Class } = d.resolution {
            if let Some(info) = find_adt_info(infos, d.adt) {
                let span = derive_target_span(info, d.index);
                let extra = user_class_extra_arg_count(db, class);
                let invalid_arity = match extra {
                    Some(n) => n != 0,
                    None => false,
                };
                if invalid_arity {
                    let diag = InvalidDerive {
                        span,
                        ty: info.name.clone(),
                        class: class_display_name(db, class),
                        reason: crate::text::string_of("only single-parameter classes can be derived"),
                    };
                    proof {
                        assert(invalid_derives_view(out@.push(diag)) =~= before + seq![diag@]);
                    }
                    out.push(diag);
                } else if info.type_var_count != info.param_count {
                    let diag = InvalidDerive {
                        span,
                        ty: info.name.clone(),
                        class: class_display_name(db, class),
                        reason: crate::text::string_of("a contract-local data type cannot capture generic contract parameters"),
                    };
                    proof {
                        assert(invalid_derives_view(out@.push(diag)) =~= before + seq![diag@]);
                    }
                    out.push(diag);
                }
            }
        }
        proof {
            assert(invalid_derives_view(out@) =~= derive_diags(db, infos@, derives@.take(i + 1)));
        }
        i = i + 1;
    }
    proof {
        assert(derives@.take(derives@.len() as int) =~= derives@);
    }
    out
}

/// The span of a derive target of a local ADT.
pub fn derived_class_target_span(infos: &Vec<AdtDeriveInfo>, adt: DefId, target_index: u32) -> (r: Option<Span>)
    ensures
        r == (match find_info(infos@, adt) {
            Some(info) => Some(target_span(info, target_index)),
            None => None,
        }),
{
    let info = find_adt_info(infos, adt)?;
    Some(derive_target_span(info, target_index))
}

} // verus!

verus! {

/// The type a storage field of type `field_ty` loads as: mappings and
/// storage arrays stay slot handles, strings and bytes load into memory, any
/// other value loads as itself. `None` when the memory wrapper is missing.
pub open spec fn field_loaded_ty(db: &Db, storage_ty: TyView, field_ty: TyView) -> Option<TyView> {
    match field_ty {
        TyView::Named { ctor: TyCtor::User(u), .. } => {
            if canonical_std_named(db, u.def, "mapping"@) || canonical_std_named(db, u.def, "array"@) {
                Some(storage_ty)
            } else if canonical_std_named(db, u.def, "string"@) || canonical_std_named(db, u.def, "bytes"@) {
                match std_adt(db, "memory"@) {
                    Some(memory) => Some(adt_applied(memory, seq![field_ty])),
                    None => None,
                }
            } else {
                Some(field_ty)
            }
        },
        _ => Some(field_ty),
    }
}

/// The obligation `storage(field_ty) : CanStore(loaded)` carried by a
/// contract field, with the classes visible at the use site.
pub open spec fn field_storage_pred(db: &Db, env: &ImportSurface, field_ty: TyView) -> Option<PredV> {
    match (visible_def(db, env, "CanStore"@), visible_def(db, env, "storage"@)) {
        (Some(can_store), Some(storage)) => if !is_class_named(db, can_store, "CanStore"@) || !is_adt_named(db, storage, "storage"@) {
            None
        } else {
            let storage_ty = adt_applied(storage, seq![field_ty]);
            match field_loaded_ty(db, storage_ty, field_ty) {
                Some(loaded) => Some(in_class(can_store, storage_ty, seq![loaded])),
                None => None,
            }
        },
        _ => None,
    }
}

/// Builds the storage obligation carried by a contract field declaration.
pub fn contract_field_storage_predicate(db: &Db, env: &ImportSurface, field_ty: &Ty) -> (r: Option<Pred>)
    ensures
        match r {
            Some(p) => field_storage_pred(db, env, field_ty@) == Some(p@),
            None => field_storage_pred(db, env, field_ty@) is None,
        },
{
    let can_store = visible_named_def(db, env, "CanStore")?;
    let storage = visible_named_def(db, env, "storage")?;
    class_named(db, can_store, "CanStore")?;
    adt_named(db, storage, "storage")?;
    let storage_ty = adt_ty(storage, one_ty(field_ty.copy_ty()));
    let loaded: Ty = match field_ty {
        Ty::Named { ctor: TyCtor::User(u), .. } => {
            if is_canonical_std_def_named(db, u.def, "mapping") || is_canonical_std_def_named(db, u.def, "array") {
                storage_ty.copy_ty()
            } else if is_canonical_std_def_named(db, u.def, "string") || is_canonical_std_def_named(db, u.def, "bytes") {
                let memory = canonical_std_adt_def(db, "memory")?;
                adt_ty(memory, one_ty(field_ty.copy_ty()))
            } else {
                field_ty.copy_ty()
            }
        },
        _ => field_ty.copy_ty(),
    };
    Some(pred(can_store, storage_ty, one_ty(loaded)))
}

} // verus!

verus! {

/// Solver evidence for a class goal, as far as the validation of derived
/// storage instances inspects it.
#[derive(Debug)]
pub enum Evidence {
    /// The goal `pred` is met by a compiler-derived clause, with evidence
    /// for each of the clause's conditions.
    Derived { kind: DerivedClauseKind, pred: Pred, sub_evidence: Vec<Evidence> },
    /// Any other evidence: a hand-written instance, a local given, ...
    Other,
}

/// The derived `Generic` representation of a definition, when it has one.
pub open spec fn adt_rep(db: &Db, def: DefId) -> Option<TyView> {
    if db.has(def) {
        match db.info(def).adt {
            Some(shape) => match shape.generic_rep {
                Some(rep) => Some(rep@),
                None => None,
            },
            None => None,
        }
    } else {
        None
    }
}

/// `storage_ctor(t) : CanStore(t)`.
pub open spec fn can_store_pred(can_store: DefId, storage_ctor: TyCtor, t: TyView) -> PredV {
    PredV { class: ClassId::User(can_store), main: TyView::Named { ctor: storage_ctor, args: seq![t] }, args: seq![t] }
}

/// For evidence of a derived `storage(T<args>) : CanStore(T<args>)`, the
/// goal that type-checks the generated instance body,
/// `storage(rep) : CanStore(rep)` over the ADT's representation `rep` with
/// `args` substituted, and the givens it may assume: `storage(a) :
/// CanStore(a)` and then `a : StorageSize` for each argument `a`.
pub open spec fn can_store_implementation_goal(db: &Db, e: Evidence) -> Option<(Seq<PredV>, PredV)> {
    match e {
        Evidence::Derived { kind: DerivedClauseKind::CanStore { adt, storage_size }, pred, sub_evidence } => {
            let p = pred@;
            match p.class {
                ClassId::User(can_store) => if p.args.len() != 1 {
                    None
                } else {
                    let main = p.args[0];
                    match p.main {
                        TyView::Named { ctor: storage_ctor, args: storage_args } => if storage_args != seq![main] {
                            None
                        } else {
                            match main {
                                TyView::Named { ctor: TyCtor::User(UserTyCtor { def: main_adt, kind: UserTyCtorKind::Adt }), args: main_args } =>
                                    if main_adt != adt || sub_evidence@.len() != main_args.len() * 2 {
                                    None
                                } else {
                                    match adt_rep(db, adt) {
                                        None => None,
                                        Some(rep) => {
                                            let r = crate::ty::subst(rep, main_args);
                                            let givens = Seq::new(main_args.len(), |i: int| can_store_pred(can_store, storage_ctor, main_args[i]))
                                                + Seq::new(main_args.len(), |i: int| in_class(storage_size, main_args[i], Seq::empty()));
                                            Some((givens, can_store_pred(can_store, storage_ctor, r)))
                                        },
                                    }
                                },
                                _ => None,
                            }
                        },
                        _ => None,
                    }
                },
            }
        },
        _ => None,
    }
}

fn ctor_ty(ctor: TyCtor, t: Ty) -> (r: Ty)
    ensures
        r@ == (TyView::Named { ctor, args: seq![t@] }),
{
    Ty::Named { ctor, args: one_ty(t) }
}

fn can_store_pred_of(can_store: DefId, storage_ctor: TyCtor, t: &Ty) -> (p: Pred)
    ensures
        p@ == can_store_pred(can_store, storage_ctor, t@),
{
    let main = ctor_ty(storage_ctor, t.copy_ty());
    Pred { class: ClassId::User(can_store), main, args: one_ty(t.copy_ty()) }
}

/// The definition-side goal and givens for type-checking the generated
/// body of a selected derived `CanStore` instance; `None` for any other
/// evidence or a malformed goal.
pub fn derived_can_store_implementation_goal(db: &Db, evidence: &Evidence) -> (r: Option<(Vec<Pred>, Pred)>)
    ensures
        match can_store_implementation_goal(db, *evidence) {
            Some((givens, goal)) => r matches Some((gs, g)) && preds_view(gs@) == givens && g@ == goal,
            None => r is None,
        },
{
    let (adt, storage_size, goal_pred, sub_evidence) = match evidence {
        Evidence::Derived { kind: DerivedClauseKind::CanStore { adt, storage_size }, pred, sub_evidence } =>
            (*adt, *storage_size, pred, sub_evidence),
        _ => {
            return None;
        },
    };
    let can_store = match goal_pred.class {
        ClassId::User(c) => c,
    };
    proof {
        lemma_tys_view(goal_pred.args@);
    }
    if goal_pred.args.len() != 1 {
        return None;
    }
    let main = &goal_pred.args[0];
    let (storage_ctor, storage_args) = match &goal_pred.main {
        Ty::Named { ctor, args } => (*ctor, args),
        _ => {
            return None;
        },
    };
    proof {
        lemma_tys_view(storage_args@);
    }
    if storage_args.len() != 1 || !crate::ty::ty_eq(&storage_args[0], main) {
        proof {
            assert(tys_view(goal_pred.args@)[0] == main@);
            if storage_args@.len() == 1 {
                assert(tys_view(storage_args@)[0] == storage_args@[0]@);
                assert(seq![main@][0] == main@);
                assert(tys_view(storage_args@)[0] != seq![main@][0]);
            } else {
                assert(tys_view(storage_args@).len() != seq![main@].len());
            }
        }
        return None;
    }
    proof {
        assert(tys_view(storage_args@) =~= seq![main@]);
    }
    let main_args = match main {
        Ty::Named { ctor: TyCtor::User(UserTyCtor { def, kind: UserTyCtorKind::Adt }), args } => {
            if *def != adt {
                return None;
            }
            args
        },
        _ => {
            return None;
        },
    };
    proof {
        lemma_tys_view(main_args@);
    }
    if sub_evidence.len() % 2 != 0 || sub_evidence.len() / 2 != main_args.len() {
        return None;
    }
    let rep = match db.def_info(adt) {
        Some(info) => match &info.adt {
            Some(shape) => match &shape.generic_rep {
                Some(rep) => rep,
                None => {
                    return None;
                },
            },
            None => {
                return None;
            },
        },
        None => {
            return None;
        },
    };
    let r = crate::ty::substitute_bound_tys(rep, main_args);
    let goal = can_store_pred_of(can_store, storage_ctor, &r);
    let ghost n = main_args@.len();
    let ghost tv = tys_view(main_args@);
    let mut givens: Vec<Pred> = Vec::new();
    let mut i: usize = 0;
    while i < main_args.len()
        invariant
            i <= main_args@.len(),
            n == main_args@.len(),
            tv == tys_view(main_args@),
            tv.len() == n,
            forall|k: int| 0 <= k < n ==> #[trigger] tv[k] == main_args@[k]@,
            preds_view(givens@) == Seq::new(i as nat, |k: int| can_store_pred(can_store, storage_ctor, tv[k])),
        decreases main_args@.len() - i,
    {
        let p = can_store_pred_of(can_store, storage_ctor, &main_args[i]);
        proof {
            assert(preds_view(givens@.push(p)) =~= preds_view(givens@).push(p@));
            assert(p@ == can_store_pred(can_store, storage_ctor, tv[i as int]));
            assert(preds_view(givens@).push(p@) =~= Seq::new((i + 1) as nat, |k: int| can_store_pred(can_store, storage_ctor, tv[k])));
        }
        givens.push(p);
        i = i + 1;
    }
    let ghost first = preds_view(givens@);
    let mut j: usize = 0;
    while j < main_args.len()
        invariant
            j <= main_args@.len(),
            n == main_args@.len(),
            tv == tys_view(main_args@),
            tv.len() == n,
            forall|k: int| 0 <= k < n ==> #[trigger] tv[k] == main_args@[k]@,
            first == Seq::new(n, |k: int| can_store_pred(can_store, storage_ctor, tv[k])),
            preds_view(givens@) == first + Seq::new(j as nat, |k: int| in_class(storage_size, tv[k], Seq::empty())),
        decreases main_args@.len() - j,
    {
        let p = pred(storage_size, main_args[j].copy_ty(), no_tys());
        proof {
            assert(preds_view(givens@.push(p)) =~= preds_view(givens@).push(p@));
            assert(p@ == in_class(storage_size, tv[j as int], Seq::empty()));
            assert(preds_view(givens@).push(p@) =~= first + Seq::new((j + 1) as nat, |k: int| in_class(storage_size, tv[k], Seq::empty())));
        }
        givens.push(p);
        j = j + 1;
    }
    Some((givens, goal))
}

} // verus!
