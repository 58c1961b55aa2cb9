//! Typing of storage-backed reads and writes: how contract fields, storage
//! mappings and arrays, memory arrays and calldata arrays are indexed and
//! what a storage reference loads as.
//!
//! Each type is inspected after the aliases at its head are expanded and
//! its inference variables resolved through the context's bindings, and so
//! is the argument of a `storage`, `memory` or `calldata` handle.
use vstd::prelude::*;
use crate::derived::ClassId;
use crate::resolve::{canonical_std_adt_def, std_adt, table_get, table_lookup, DefResolutionKind, ImportSurface, Resolution};
use crate::text::str_eq;
use crate::ty::{expand_alias_head, expand_aliases, lemma_tys_view, lemma_tys_view_push, tys_view, BuiltinTyCtor, Db, DefId, Ty, TyCtor, TyView, UserTyCtor, UserTyCtorKind};

verus! {

#[derive(Clone, Copy, Debug, PartialEq, Eq, Hash, Structural)]
pub enum ObligationSource {
    Scheme,
    ClassMethod,
}

/// A class obligation recorded during inference.
#[derive(Debug)]
pub struct PendingObligation {
    pub class: ClassId,
    pub main: Ty,
    pub args: Vec<Ty>,
    pub source: ObligationSource,
}

pub struct ObligationV {
    pub class: ClassId,
    pub main: TyView,
    pub args: Seq<TyView>,
    pub source: ObligationSource,
}

impl View for PendingObligation {
    type V = ObligationV;

    open spec fn view(&self) -> ObligationV {
        ObligationV { class: self.class, main: self.main@, args: tys_view(self.args@), source: self.source }
    }
}

pub open spec fn obligations_view(s: Seq<PendingObligation>) -> Seq<ObligationV> {
    s.map_values(|o: PendingObligation| o@)
}

/// The part of the inference context that storage typing reads and writes.
#[derive(Debug)]
pub struct StorageCtx {
    /// The `storage` type constructor in scope, if any.
    pub storage_ctor: Option<TyCtor>,
    /// The `memory` type constructor in scope, if any.
    pub memory_ctor: Option<TyCtor>,
    /// The `CanStore` class in scope, if any.
    pub can_store: Option<ClassId>,
    /// The `Typedef` class in scope, if any.
    pub typedef: Option<ClassId>,
    /// Inference runs under a trait environment (a function with givens).
    pub has_trait_env: bool,
    /// Bindings of inference variables, by index.
    pub bindings: Vec<Option<Ty>>,
    /// Obligations recorded so far.
    pub pending: Vec<PendingObligation>,
}

pub open spec fn resolve_fuel(bindings: Seq<Option<Ty>>, t: TyView, fuel: nat) -> TyView
    decreases fuel,
{
    if fuel == 0 {
        t
    } else {
        match t {
            TyView::Infer(v) => if (v as int) < bindings.len() && bindings[v as int] is Some {
                resolve_fuel(bindings, bindings[v as int].unwrap()@, (fuel - 1) as nat)
            } else {
                t
            },
            _ => t,
        }
    }
}

pub open spec fn named_user(def: DefId, args: Seq<TyView>) -> TyView {
    TyView::Named { ctor: TyCtor::User(UserTyCtor { def, kind: UserTyCtorKind::Adt }), args }
}

impl StorageCtx {
    /// A type with its inference variables at the head resolved through the
    /// bindings (a chain is followed at most once per variable).
    pub open spec fn resolved(&self, t: TyView) -> TyView {
        resolve_fuel(self.bindings@, t, self.bindings@.len())
    }

    pub fn resolve(&self, ty: &Ty) -> (r: Ty)
        ensures
            r@ == self.resolved(ty@),
    {
        let mut cur: &Ty = ty;
        let mut fuel: usize = self.bindings.len();
        while fuel > 0
            invariant
                fuel <= self.bindings@.len(),
                self.resolved(ty@) == resolve_fuel(self.bindings@, cur@, fuel as nat),
            decreases fuel,
        {
            match cur {
                Ty::Infer(v) => {
                    if (*v as usize) < self.bindings.len() {
                        match &self.bindings[*v as usize] {
                            Some(b) => {
                                cur = b;
                            },
                            None => {
                                return cur.copy_ty();
                            },
                        }
                    } else {
                        return cur.copy_ty();
                    }
                },
                _ => {
                    return cur.copy_ty();
                },
            }
            fuel = fuel - 1;
        }
        cur.copy_ty()
    }

    /// A type with the aliases at its head expanded, then its inference
    /// variables at the head resolved.
    pub open spec fn normal(&self, db: &Db, t: TyView) -> TyView {
        self.resolved(expand_aliases(db, t))
    }

    pub fn normalize(&self, db: &Db, ty: &Ty) -> (r: Ty)
        ensures
            r@ == self.normal(db, ty@),
    {
        let expanded = expand_alias_head(db, ty);
        self.resolve(&expanded)
    }

    /// Key and value-reference types of an indexed storage mapping
    /// (possibly behind a `storage` handle).
    pub open spec fn mapping_args(&self, db: &Db, t: TyView) -> Option<(TyView, TyView)> {
        let r0 = self.normal(db, t);
        let r = match (self.storage_ctor, r0) {
            (Some(sc), TyView::Named { ctor, args }) => if ctor == sc && args.len() == 1 {
                self.normal(db, args[0])
            } else {
                r0
            },
            _ => r0,
        };
        match r {
            TyView::Named { ctor: TyCtor::User(UserTyCtor { def, kind: UserTyCtorKind::Adt }), args } =>
                if db.name_of(def) == Some("mapping"@) && args.len() == 2 {
                    Some((args[0], match self.storage_ctor {
                        Some(sc) => TyView::Named { ctor: sc, args: seq![args[1]] },
                        None => args[1],
                    }))
                } else {
                    None
                },
            _ => None,
        }
    }

    /// The `storage` constructor and element type of a `storage(array(t))`.
    pub open spec fn array_elem(&self, db: &Db, t: TyView) -> Option<(TyCtor, TyView)> {
        match (std_adt(db, "storage"@), std_adt(db, "array"@)) {
            (Some(storage), Some(array)) => match self.normal(db, t) {
                TyView::Named { ctor: TyCtor::User(su), args } => if su.def == storage && args.len() == 1 {
                    match self.normal(db, args[0]) {
                        TyView::Named { ctor: TyCtor::User(au), args: inner } => if au.def == array && inner.len() == 1 {
                            Some((TyCtor::User(su), inner[0]))
                        } else {
                            None
                        },
                        _ => None,
                    }
                } else {
                    None
                },
                _ => None,
            },
            _ => None,
        }
    }

    /// The element type of `outer(inner(t))` for two canonical std ADTs.
    pub open spec fn wrapped_elem(&self, db: &Db, outer: Seq<char>, inner: Seq<char>, t: TyView) -> Option<TyView> {
        match (std_adt(db, outer), std_adt(db, inner)) {
            (Some(o), Some(i)) => match self.normal(db, t) {
                TyView::Named { ctor: TyCtor::User(oc), args } => if oc.def == o && args.len() == 1 {
                    match self.normal(db, args[0]) {
                        TyView::Named { ctor: TyCtor::User(ic), args: elems } => if ic.def == i && elems.len() == 1 {
                            Some(elems[0])
                        } else {
                            None
                        },
                        _ => None,
                    }
                } else {
                    None
                },
                _ => None,
            },
            _ => None,
        }
    }

    /// An ADT called `name` with `arity` arguments (any arity when `None`).
    pub open spec fn named_adt(&self, db: &Db, t: TyView, name: Seq<char>, arity: Option<usize>) -> bool {
        match self.normal(db, t) {
            TyView::Named { ctor: TyCtor::User(UserTyCtor { def, kind: UserTyCtorKind::Adt }), args } =>
                db.name_of(def) == Some(name) && match arity {
                    Some(a) => args.len() == a,
                    None => true,
                },
            _ => false,
        }
    }

    pub open spec fn storage_array_adt(&self, db: &Db, t: TyView) -> bool {
        match std_adt(db, "array"@) {
            Some(array) => match self.normal(db, t) {
                TyView::Named { ctor: TyCtor::User(u), args } => u.def == array && args.len() == 1,
                _ => false,
            },
            None => false,
        }
    }

    pub open spec fn memory_backed(&self, db: &Db, t: TyView) -> bool {
        self.named_adt(db, t, "string"@, Some(0usize)) || self.named_adt(db, t, "bytes"@, Some(0usize))
    }

    /// What reading a storage reference of type `t` yields: mappings and
    /// storage arrays stay references, strings and bytes load into memory
    /// (outside a trait environment), other values load as themselves.
    pub open spec fn loaded_ty(&self, db: &Db, t: TyView) -> Option<TyView> {
        match self.storage_ctor {
            None => Some(t),
            Some(sc) => match self.normal(db, t) {
                TyView::Named { ctor, args } => if ctor != sc || args.len() != 1 {
                    None
                } else {
                    let inner = self.normal(db, args[0]);
                    if self.named_adt(db, inner, "mapping"@, Some(2usize)) || self.storage_array_adt(db, inner) {
                        Some(TyView::Named { ctor: sc, args: seq![inner] })
                    } else if self.has_trait_env {
                        None
                    } else if self.memory_backed(db, inner) {
                        match self.memory_ctor {
                            Some(mc) => Some(TyView::Named { ctor: mc, args: seq![inner] }),
                            None => None,
                        }
                    } else {
                        Some(inner)
                    }
                },
                _ => None,
            },
        }
    }
}

} // verus!

verus! {

fn single(t: Ty) -> (v: Vec<Ty>)
    ensures
        tys_view(v@) == seq![t@],
{
    let mut v: Vec<Ty> = Vec::new();
    proof {
        lemma_tys_view_push(v@, t);
    }
    v.push(t);
    proof {
        assert(tys_view(v@) =~= seq![t@]);
    }
    v
}

impl StorageCtx {
    /// Key type and value reference type of an indexed storage mapping.
    pub fn storage_mapping_args(&self, db: &Db, ty: &Ty) -> (r: Option<(Ty, Ty)>)
        ensures
            match r {
                Some((k, v)) => self.mapping_args(db, ty@) == Some((k@, v@)),
                None => self.mapping_args(db, ty@) is None,
            },
    {
        let mut resolved = self.normalize(db, ty);
        if let Some(sc) = self.storage_ctor {
            let inner = match &resolved {
                Ty::Named { ctor, args } => {
                    proof {
                        lemma_tys_view(args@);
                    }
                    if *ctor == sc && args.len() == 1 {
                        Some(self.normalize(db, &args[0]))
                    } else {
                        None
                    }
                },
                _ => None,
            };
            if let Some(i) = inner {
                resolved = i;
            }
        }
        match &resolved {
            Ty::Named { ctor: TyCtor::User(UserTyCtor { def, kind: UserTyCtorKind::Adt }), args } => {
                proof {
                    lemma_tys_view(args@);
                }
                let is_mapping = match db.name(*def) {
                    Some(n) => str_eq(n.as_str(), "mapping"),
                    None => false,
                };
                if !is_mapping || args.len() != 2 {
                    return None;
                }
                let value = match self.storage_ctor {
                    Some(sc) => Ty::Named { ctor: sc, args: single(args[1].copy_ty()) },
                    None => args[1].copy_ty(),
                };
                Some((args[0].copy_ty(), value))
            },
            _ => None,
        }
    }

    /// The `storage` constructor and element type of a `storage(array(t))`.
    pub fn storage_array_elem_ty(&self, db: &Db, ty: &Ty) -> (r: Option<(TyCtor, Ty)>)
        ensures
            match r {
                Some((c, e)) => self.array_elem(db, ty@) == Some((c, e@)),
                None => self.array_elem(db, ty@) is None,
            },
    {
        let storage = canonical_std_adt_def(db, "storage")?;
        let array = canonical_std_adt_def(db, "array")?;
        let resolved = self.normalize(db, ty);
        match &resolved {
            Ty::Named { ctor: TyCtor::User(su), args } => {
                proof {
                    lemma_tys_view(args@);
                }
                if su.def != storage || args.len() != 1 {
                    return None;
                }
                let inner = self.normalize(db, &args[0]);
                match &inner {
                    Ty::Named { ctor: TyCtor::User(au), args: elems } => {
                        proof {
                            lemma_tys_view(elems@);
                        }
                        if au.def == array && elems.len() == 1 {
                            Some((TyCtor::User(*su), elems[0].copy_ty()))
                        } else {
                            None
                        }
                    },
                    _ => None,
                }
            },
            _ => None,
        }
    }

    fn wrapped_elem_ty(&self, db: &Db, outer: &str, inner: &str, ty: &Ty) -> (r: Option<Ty>)
        ensures
            match r {
                Some(e) => self.wrapped_elem(db, outer@, inner@, ty@) == Some(e@),
                None => self.wrapped_elem(db, outer@, inner@, ty@) is None,
            },
    {
        let o = canonical_std_adt_def(db, outer)?;
        let i = canonical_std_adt_def(db, inner)?;
        let resolved = self.normalize(db, ty);
        match &resolved {
            Ty::Named { ctor: TyCtor::User(oc), args } => {
                proof {
                    lemma_tys_view(args@);
                }
                if oc.def != o || args.len() != 1 {
                    return None;
                }
                let inner_ty = self.normalize(db, &args[0]);
                match &inner_ty {
                    Ty::Named { ctor: TyCtor::User(ic), args: elems } => {
                        proof {
                            lemma_tys_view(elems@);
                        }
                        if ic.def == i && elems.len() == 1 {
                            Some(elems[0].copy_ty())
                        } else {
                            None
                        }
                    },
                    _ => None,
                }
            },
            _ => None,
        }
    }

    /// The element type of a canonical `memory(DynArray(t))`.
    pub fn memory_dyn_array_elem_ty(&self, db: &Db, ty: &Ty) -> (r: Option<Ty>)
        ensures
            match r {
                Some(e) => self.wrapped_elem(db, "memory"@, "DynArray"@, ty@) == Some(e@),
                None => self.wrapped_elem(db, "memory"@, "DynArray"@, ty@) is None,
            },
    {
        self.wrapped_elem_ty(db, "memory", "DynArray", ty)
    }

    /// The element type of a canonical `calldata(array(t))`.
    pub fn calldata_array_elem_ty(&self, db: &Db, ty: &Ty) -> (r: Option<Ty>)
        ensures
            match r {
                Some(e) => self.wrapped_elem(db, "calldata"@, "array"@, ty@) == Some(e@),
                None => self.wrapped_elem(db, "calldata"@, "array"@, ty@) is None,
            },
    {
        self.wrapped_elem_ty(db, "calldata", "array", ty)
    }

    /// `memory(DynArray(elem))` with the canonical std definitions.
    pub fn memory_dyn_array_ty(&self, db: &Db, elem: Ty) -> (r: Option<Ty>)
        ensures
            match r {
                Some(t) => std_adt(db, "memory"@) matches Some(m) && std_adt(db, "DynArray"@) matches Some(d)
                    && t@ == named_user(m, seq![named_user(d, seq![elem@])]),
                None => std_adt(db, "memory"@) is None || std_adt(db, "DynArray"@) is None,
            },
    {
        let memory = canonical_std_adt_def(db, "memory")?;
        let dyn_array = canonical_std_adt_def(db, "DynArray")?;
        let inner = Ty::Named { ctor: TyCtor::User(UserTyCtor { def: dyn_array, kind: UserTyCtorKind::Adt }), args: single(elem) };
        Some(Ty::Named { ctor: TyCtor::User(UserTyCtor { def: memory, kind: UserTyCtorKind::Adt }), args: single(inner) })
    }

    /// `storage(array(elem))` with the canonical std definitions.
    pub fn storage_array_ty(&self, db: &Db, elem: Ty) -> (r: Option<Ty>)
        ensures
            match r {
                Some(t) => std_adt(db, "storage"@) matches Some(s) && std_adt(db, "array"@) matches Some(a)
                    && t@ == named_user(s, seq![named_user(a, seq![elem@])]),
                None => std_adt(db, "storage"@) is None || std_adt(db, "array"@) is None,
            },
    {
        let storage = canonical_std_adt_def(db, "storage")?;
        let array = canonical_std_adt_def(db, "array")?;
        let inner = Ty::Named { ctor: TyCtor::User(UserTyCtor { def: array, kind: UserTyCtorKind::Adt }), args: single(elem) };
        Some(Ty::Named { ctor: TyCtor::User(UserTyCtor { def: storage, kind: UserTyCtorKind::Adt }), args: single(inner) })
    }

    /// A storage mapping or storage array reference.
    pub fn is_storage_collection_ref_ty(&self, db: &Db, ty: &Ty) -> (b: bool)
        ensures
            b == (self.mapping_args(db, ty@) is Some || self.array_elem(db, ty@) is Some),
    {
        self.storage_mapping_args(db, ty).is_some() || self.storage_array_elem_ty(db, ty).is_some()
    }

    /// An ADT called `name`, with `arity` arguments when given.
    pub fn is_named_adt_ty(&self, db: &Db, ty: &Ty, name: &str, arity: Option<usize>) -> (b: bool)
        ensures
            b == self.named_adt(db, ty@, name@, arity),
    {
        let resolved = self.normalize(db, ty);
        match &resolved {
            Ty::Named { ctor: TyCtor::User(UserTyCtor { def, kind: UserTyCtorKind::Adt }), args } => {
                proof {
                    lemma_tys_view(args@);
                }
                let named = match db.name(*def) {
                    Some(n) => str_eq(n.as_str(), name),
                    None => false,
                };
                named && match arity {
                    Some(a) => args.len() == a,
                    None => true,
                }
            },
            _ => false,
        }
    }

    pub fn is_mapping_adt_ty(&self, db: &Db, ty: &Ty) -> (b: bool)
        ensures
            b == self.named_adt(db, ty@, "mapping"@, Some(2usize)),
    {
        self.is_named_adt_ty(db, ty, "mapping", Some(2))
    }

    /// The canonical std `array` with one argument.
    pub fn is_storage_array_adt_ty(&self, db: &Db, ty: &Ty) -> (b: bool)
        ensures
            b == self.storage_array_adt(db, ty@),
    {
        let array = match canonical_std_adt_def(db, "array") {
            Some(a) => a,
            None => return false,
        };
        let resolved = self.normalize(db, ty);
        match &resolved {
            Ty::Named { ctor: TyCtor::User(u), args } => {
                proof {
                    lemma_tys_view(args@);
                }
                u.def == array && args.len() == 1
            },
            _ => false,
        }
    }

    /// `string` or `bytes`, which storage loads into memory.
    pub fn is_memory_backed_storage_adt(&self, db: &Db, ty: &Ty) -> (b: bool)
        ensures
            b == self.memory_backed(db, ty@),
    {
        self.is_named_adt_ty(db, ty, "string", Some(0)) || self.is_named_adt_ty(db, ty, "bytes", Some(0))
    }

    /// What reading a storage reference of type `ty` yields.
    pub fn loaded_ty_for_storage_ty(&self, db: &Db, ty: &Ty) -> (r: Option<Ty>)
        ensures
            match r {
                Some(t) => self.loaded_ty(db, ty@) == Some(t@),
                None => self.loaded_ty(db, ty@) is None,
            },
    {
        let sc = match self.storage_ctor {
            Some(sc) => sc,
            None => return Some(ty.copy_ty()),
        };
        let resolved = self.normalize(db, ty);
        match &resolved {
            Ty::Named { ctor, args } => {
                proof {
                    lemma_tys_view(args@);
                }
                if *ctor != sc || args.len() != 1 {
                    return None;
                }
                let inner = self.normalize(db, &args[0]);
                if self.is_mapping_adt_ty(db, &inner) || self.is_storage_array_adt_ty(db, &inner) {
                    return Some(Ty::Named { ctor: sc, args: single(inner) });
                }
                if self.has_trait_env {
                    return None;
                }
                if self.is_memory_backed_storage_adt(db, &inner) {
                    let mc = self.memory_ctor?;
                    return Some(Ty::Named { ctor: mc, args: single(inner) });
                }
                Some(inner)
            },
            _ => None,
        }
    }
}

} // verus!

verus! {

pub open spec fn word_view() -> TyView {
    TyView::Named { ctor: TyCtor::Builtin(BuiltinTyCtor::Word), args: Seq::empty() }
}

impl StorageCtx {
    /// A fresh, unbound inference variable.
    pub fn fresh_var(&mut self) -> (t: Ty)
        requires
            old(self).bindings@.len() < u32::MAX,
        ensures
            t@ == TyView::Infer(old(self).bindings@.len() as u32),
            final(self).bindings@ == old(self).bindings@.push(None),
            final(self).pending@ == old(self).pending@,
            final(self).storage_ctor == old(self).storage_ctor,
            final(self).memory_ctor == old(self).memory_ctor,
            final(self).can_store == old(self).can_store,
            final(self).typedef == old(self).typedef,
            final(self).has_trait_env == old(self).has_trait_env,
    {
        let v = self.bindings.len() as u32;
        self.bindings.push(None);
        Ty::Infer(v)
    }

    /// Records `storage_ty : CanStore(loaded_ty)` when `CanStore` is in scope.
    pub fn push_can_store_obligation(&mut self, storage_ty: Ty, loaded_ty: Ty, source: ObligationSource)
        ensures
            obligations_view(final(self).pending@) == obligations_view(old(self).pending@) + match old(self).can_store {
                Some(c) => seq![ObligationV { class: c, main: storage_ty@, args: seq![loaded_ty@], source }],
                None => Seq::<ObligationV>::empty(),
            },
            final(self).bindings@ == old(self).bindings@,
            final(self).storage_ctor == old(self).storage_ctor,
            final(self).memory_ctor == old(self).memory_ctor,
            final(self).can_store == old(self).can_store,
            final(self).typedef == old(self).typedef,
            final(self).has_trait_env == old(self).has_trait_env,
    {
        let class = match self.can_store {
            Some(c) => c,
            None => {
                proof {
                    assert(obligations_view(self.pending@) + Seq::<ObligationV>::empty() =~= obligations_view(self.pending@));
                }
                return;
            },
        };
        let o = PendingObligation { class, main: storage_ty, args: single(loaded_ty), source };
        proof {
            assert(obligations_view(self.pending@.push(o)) =~= obligations_view(self.pending@) + seq![o@]);
        }
        self.pending.push(o);
    }

    /// Records `value_ty : Typedef(word)` when `Typedef` is in scope.
    pub fn push_typedef_word_obligation(&mut self, value_ty: Ty, source: ObligationSource)
        ensures
            obligations_view(final(self).pending@) == obligations_view(old(self).pending@) + match old(self).typedef {
                Some(c) => seq![ObligationV { class: c, main: value_ty@, args: seq![word_view()], source }],
                None => Seq::<ObligationV>::empty(),
            },
            final(self).bindings@ == old(self).bindings@,
            final(self).storage_ctor == old(self).storage_ctor,
            final(self).memory_ctor == old(self).memory_ctor,
            final(self).can_store == old(self).can_store,
            final(self).typedef == old(self).typedef,
            final(self).has_trait_env == old(self).has_trait_env,
    {
        let class = match self.typedef {
            Some(c) => c,
            None => {
                proof {
                    assert(obligations_view(self.pending@) + Seq::<ObligationV>::empty() =~= obligations_view(self.pending@));
                }
                return;
            },
        };
        let word = Ty::Named { ctor: TyCtor::Builtin(BuiltinTyCtor::Word), args: Vec::new() };
        proof {
            assert(tys_view(Seq::<Ty>::empty()) =~= Seq::<TyView>::empty());
        }
        let o = PendingObligation { class, main: value_ty, args: single(word), source };
        proof {
            assert(obligations_view(self.pending@.push(o)) =~= obligations_view(self.pending@) + seq![o@]);
        }
        self.pending.push(o);
    }

    /// Types the read `base[index]` of a memory array whose index has type
    /// `index_ty`: the element type, after recording that both the index and
    /// the element are `Typedef`s of `word`. `None`, with nothing recorded,
    /// when `base_ty` is not a memory array.
    pub fn infer_memory_array_index_read(&mut self, db: &Db, index_ty: Ty, base_ty: &Ty) -> (r: Option<Ty>)
        ensures
            match old(self).wrapped_elem(db, "memory"@, "DynArray"@, base_ty@) {
                None => r is None && final(self).pending@ == old(self).pending@,
                Some(elem) => r matches Some(t) && t@ == elem && obligations_view(final(self).pending@)
                    == obligations_view(old(self).pending@) + match old(self).typedef {
                    Some(c) => seq![
                        ObligationV { class: c, main: index_ty@, args: seq![word_view()], source: ObligationSource::Scheme },
                        ObligationV { class: c, main: elem, args: seq![word_view()], source: ObligationSource::Scheme },
                    ],
                    None => Seq::<ObligationV>::empty(),
                },
            },
            final(self).bindings@ == old(self).bindings@,
            final(self).storage_ctor == old(self).storage_ctor,
            final(self).memory_ctor == old(self).memory_ctor,
            final(self).can_store == old(self).can_store,
            final(self).typedef == old(self).typedef,
            final(self).has_trait_env == old(self).has_trait_env,
    {
        let elem = match self.memory_dyn_array_elem_ty(db, base_ty) {
            Some(e) => e,
            None => {
                return None;
            },
        };
        let ghost before = obligations_view(self.pending@);
        let result = elem.copy_ty();
        self.push_typedef_word_obligation(index_ty, ObligationSource::Scheme);
        self.push_typedef_word_obligation(elem, ObligationSource::Scheme);
        proof {
            match self.typedef {
                Some(c) => {
                    assert(obligations_view(self.pending@) =~= before + seq![
                        ObligationV { class: c, main: index_ty@, args: seq![word_view()], source: ObligationSource::Scheme },
                        ObligationV { class: c, main: result@, args: seq![word_view()], source: ObligationSource::Scheme },
                    ]);
                },
                None => {
                    assert(obligations_view(self.pending@) =~= before + Seq::<ObligationV>::empty());
                },
            }
        }
        Some(result)
    }

    /// Types the assignment of an array literal, of inferred type `rhs_ty`,
    /// to a place of type `lhs_ty`. When the place is a `storage(array(t))`
    /// and the value a `memory(DynArray(v))`, it records that `storage(t)`
    /// can store `v` and that `v` is a `Typedef` of `word`, and returns
    /// `None`. Otherwise it returns `storage(array(e))` for a fresh variable
    /// `e`, the type that the place is unified with, or `None` where the std
    /// definitions are missing.
    pub fn infer_storage_array_literal_assign(&mut self, db: &Db, lhs_ty: &Ty, rhs_ty: &Ty) -> (r: Option<Ty>)
        requires
            old(self).bindings@.len() < u32::MAX,
        ensures
            match (old(self).array_elem(db, lhs_ty@), old(self).wrapped_elem(db, "memory"@, "DynArray"@, rhs_ty@)) {
                (Some((c, selem)), Some(velem)) => {
                    &&& r is None
                    &&& final(self).bindings@ == old(self).bindings@
                    &&& obligations_view(final(self).pending@) == obligations_view(old(self).pending@) + match old(
                        self,
                    ).can_store {
                        Some(k) => seq![
                            ObligationV {
                                class: k,
                                main: TyView::Named { ctor: c, args: seq![selem] },
                                args: seq![velem],
                                source: ObligationSource::Scheme,
                            },
                        ],
                        None => Seq::<ObligationV>::empty(),
                    } + match old(self).typedef {
                        Some(k) => seq![
                            ObligationV { class: k, main: velem, args: seq![word_view()], source: ObligationSource::Scheme },
                        ],
                        None => Seq::<ObligationV>::empty(),
                    }
                },
                _ => {
                    &&& final(self).bindings@ == old(self).bindings@.push(None)
                    &&& final(self).pending@ == old(self).pending@
                    &&& match r {
                        Some(t) => std_adt(db, "storage"@) matches Some(s) && std_adt(db, "array"@) matches Some(a)
                            && t@ == named_user(s, seq![named_user(a, seq![TyView::Infer(old(self).bindings@.len() as u32)])]),
                        None => std_adt(db, "storage"@) is None || std_adt(db, "array"@) is None,
                    }
                },
            },
            final(self).storage_ctor == old(self).storage_ctor,
            final(self).memory_ctor == old(self).memory_ctor,
            final(self).can_store == old(self).can_store,
            final(self).typedef == old(self).typedef,
            final(self).has_trait_env == old(self).has_trait_env,
    {
        let place = self.storage_array_elem_ty(db, lhs_ty);
        let value = self.memory_dyn_array_elem_ty(db, rhs_ty);
        match (place, value) {
            (Some((ctor, storage_elem)), Some(value_elem)) => {
                let storage_elem_ref = Ty::Named { ctor, args: single(storage_elem) };
                let value_copy = value_elem.copy_ty();
                self.push_can_store_obligation(storage_elem_ref, value_elem, ObligationSource::Scheme);
                self.push_typedef_word_obligation(value_copy, ObligationSource::Scheme);
                None
            },
            _ => {
                let elem = self.fresh_var();
                self.storage_array_ty(db, elem)
            },
        }
    }

    /// The reference to a contract field whose instantiated type is
    /// `field_ty`: `storage(field_ty)`, or the type itself when no `storage`
    /// constructor is in scope.
    pub fn instantiate_field_ref(&self, field_ty: Ty) -> (r: Ty)
        ensures
            r@ == match self.storage_ctor {
                Some(c) => TyView::Named { ctor: c, args: seq![field_ty@] },
                None => field_ty@,
            },
    {
        match self.storage_ctor {
            Some(c) => {
                let ghost v = field_ty@;
                let args = vec![field_ty];
                proof {
                    crate::ty::lemma_tys_view(args@);
                    assert(crate::ty::tys_view(args@) =~= seq![v]);
                }
                Ty::Named { ctor: c, args }
            },
            None => field_ty,
        }
    }

    /// The type a read through the storage reference `storage_ty` yields;
    /// records the `CanStore` obligation relating the two. Without a
    /// `storage` constructor in scope the reference itself is returned.
    pub fn storage_load_ty(&mut self, db: &Db, storage_ty: Ty) -> (r: Ty)
        requires
            old(self).bindings@.len() < u32::MAX,
        ensures
            old(self).storage_ctor is None ==> r@ == storage_ty@ && final(self).pending@ == old(self).pending@
                && final(self).bindings@ == old(self).bindings@,
            old(self).storage_ctor is Some ==> {
                &&& r@ == match old(self).loaded_ty(db, storage_ty@) {
                    Some(t) => t,
                    None => TyView::Infer(old(self).bindings@.len() as u32),
                }
                &&& final(self).bindings@ == if old(self).loaded_ty(db, storage_ty@) is Some {
                    old(self).bindings@
                } else {
                    old(self).bindings@.push(None)
                }
                &&& obligations_view(final(self).pending@) == obligations_view(old(self).pending@) + match old(self).can_store {
                    Some(c) => seq![ObligationV { class: c, main: storage_ty@, args: seq![r@], source: ObligationSource::Scheme }],
                    None => Seq::<ObligationV>::empty(),
                }
            },
    {
        if self.storage_ctor.is_none() {
            return storage_ty;
        }
        let loaded = match self.loaded_ty_for_storage_ty(db, &storage_ty) {
            Some(t) => t,
            None => self.fresh_var(),
        };
        let result = loaded.copy_ty();
        self.push_can_store_obligation(storage_ty, loaded, ObligationSource::Scheme);
        result
    }
}

} // verus!

verus! {

/// The constructor of the canonical std ADT called `name`, if defined.
pub open spec fn std_ctor(db: &Db, name: Seq<char>) -> Option<TyCtor> {
    match std_adt(db, name) {
        Some(def) => Some(TyCtor::User(UserTyCtor { def, kind: UserTyCtorKind::Adt })),
        None => None,
    }
}

/// The `storage` type constructor of the standard library, if defined.
pub fn storage_type_ctor(db: &Db) -> (r: Option<TyCtor>)
    ensures
        r == std_ctor(db, "storage"@),
{
    match canonical_std_adt_def(db, "storage") {
        Some(def) => Some(TyCtor::User(UserTyCtor { def, kind: UserTyCtorKind::Adt })),
        None => None,
    }
}

/// The `memory` type constructor of the standard library, if defined.
pub fn memory_type_ctor(db: &Db) -> (r: Option<TyCtor>)
    ensures
        r == std_ctor(db, "memory"@),
{
    match canonical_std_adt_def(db, "memory") {
        Some(def) => Some(TyCtor::User(UserTyCtor { def, kind: UserTyCtorKind::Adt })),
        None => None,
    }
}

/// The type of a source string: the standard library's `string` ADT, or
/// the builtin string type when the standard library defines none.
pub fn source_string_ty(db: &Db) -> (r: Ty)
    ensures
        r@ == match std_ctor(db, "string"@) {
            Some(c) => TyView::Named { ctor: c, args: Seq::empty() },
            None => TyView::Named { ctor: TyCtor::Builtin(BuiltinTyCtor::String), args: Seq::empty() },
        },
{
    let ctor = match canonical_std_adt_def(db, "string") {
        Some(def) => TyCtor::User(UserTyCtor { def, kind: UserTyCtorKind::Adt }),
        None => TyCtor::Builtin(BuiltinTyCtor::String),
    };
    let args: Vec<Ty> = Vec::new();
    proof {
        lemma_tys_view(args@);
        assert(tys_view(args@) =~= Seq::<TyView>::empty());
    }
    Ty::Named { ctor, args }
}

/// What a type name resolves to in a module: its own item scope first, then
/// its imports.
pub open spec fn type_resolution(env: &ImportSurface, name: Seq<char>) -> Option<Resolution> {
    let local = match env.item_scope {
        Some(scope) => table_get(scope@, name),
        None => None,
    };
    match local {
        Some(r) => Some(r),
        None => table_get(env.types@, name),
    }
}

pub fn lookup_type_resolution(env: &ImportSurface, name: &str) -> (r: Option<Resolution>)
    ensures
        r == type_resolution(env, name@),
{
    let local = match &env.item_scope {
        Some(scope) => table_lookup(scope, name),
        None => None,
    };
    match local {
        Some(r) => Some(r),
        None => table_lookup(&env.types, name),
    }
}

/// The class a name resolves to in a module, if it names a class.
pub fn lookup_class_id(env: &ImportSurface, name: &str) -> (r: Option<ClassId>)
    ensures
        r == match type_resolution(env, name@) {
            Some(Resolution::Def { def, kind: DefResolutionKind::Class }) => Some(ClassId::User(def)),
            _ => None,
        },
{
    match lookup_type_resolution(env, name) {
        Some(Resolution::Def { def, kind: DefResolutionKind::Class }) => Some(ClassId::User(def)),
        _ => None,
    }
}

} // verus!

verus! {

/// A body expression, as far as assignment-target checks inspect it: its
/// shape, and the resolution recorded for it when it is a name.
#[derive(Debug)]
pub struct HirExpr {
    pub kind: HirExprKind,
    pub resolution: Option<Resolution>,
}

#[derive(Debug)]
pub enum HirExprKind {
    Index { base: Box<HirExpr>, index: Box<HirExpr> },
    TypeAnnot { expr: Box<HirExpr>, ty: Ty },
    Array(Vec<HirExpr>),
    Other,
}

/// A contract field, or an index expression, seen through type annotations.
pub open spec fn storage_assign_target(e: HirExpr) -> bool
    decreases e,
{
    if e.resolution matches Some(Resolution::Field(_)) {
        true
    } else {
        match e.kind {
            HirExprKind::Index { .. } => true,
            HirExprKind::TypeAnnot { expr, .. } => storage_assign_target(*expr),
            _ => false,
        }
    }
}

/// Whether an assignment to `expr` may write through storage.
pub fn is_storage_assign_target_expr(expr: &HirExpr) -> (b: bool)
    ensures
        b == storage_assign_target(*expr),
    decreases expr,
{
    if let Some(Resolution::Field(_)) = expr.resolution {
        return true;
    }
    match &expr.kind {
        HirExprKind::Index { .. } => true,
        HirExprKind::TypeAnnot { expr: inner, .. } => is_storage_assign_target_expr(inner),
        _ => false,
    }
}

/// The index expression under the type annotations of `e`, if any.
pub open spec fn index_under_annotations(e: HirExpr) -> Option<HirExpr>
    decreases e,
{
    match e.kind {
        HirExprKind::Index { .. } => Some(e),
        HirExprKind::TypeAnnot { expr, .. } => index_under_annotations(*expr),
        _ => None,
    }
}

/// The index expression under the type annotations of an assignment target,
/// with its base and index.
pub fn read_only_array_index_parts(expr: &HirExpr) -> (r: Option<(&HirExpr, &HirExpr, &HirExpr)>)
    ensures
        match index_under_annotations(*expr) {
            Some(e) => r matches Some((i, b, x)) && *i == e && e.kind == (HirExprKind::Index {
                base: Box::new(*b),
                index: Box::new(*x),
            }),
            None => r is None,
        },
    decreases expr,
{
    match &expr.kind {
        HirExprKind::Index { base, index } => Some((expr, &**base, &**index)),
        HirExprKind::TypeAnnot { expr: inner, .. } => read_only_array_index_parts(inner),
        _ => None,
    }
}

} // verus!
