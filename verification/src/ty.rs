//! The semantic type model shared by the ABI, derivation and storage modules.
//!
//! Types refer to definitions by `DefId`; what the analyses need to know about
//! a definition (its name, kind, where it is defined, and the facts of its
//! defining module) is recorded in a `Db`.
use vstd::prelude::*;
use crate::text::{dec_text, decimal, join_seqs, join_strings, push_str, strings_view};

verus! {

#[derive(Clone, Copy, Debug, PartialEq, Eq, Hash, Structural)]
pub struct DefId(pub u32);

#[derive(Clone, Copy, Debug, PartialEq, Eq, Hash, Structural)]
pub enum BuiltinTyCtor {
    Word,
    Bool,
    String,
    Unit,
    Pair,
    Sum,
    Integer,
}

#[derive(Clone, Copy, Debug, PartialEq, Eq, Hash, Structural)]
pub enum UserTyCtorKind {
    Adt,
    Alias,
}

#[derive(Clone, Copy, Debug, PartialEq, Eq, Hash, Structural)]
pub struct UserTyCtor {
    pub def: DefId,
    pub kind: UserTyCtorKind,
}

#[derive(Clone, Copy, Debug, PartialEq, Eq, Hash, Structural)]
pub enum TyCtor {
    Builtin(BuiltinTyCtor),
    User(UserTyCtor),
}

/// A semantic type.
#[derive(Debug)]
pub enum Ty {
    Named { ctor: TyCtor, args: Vec<Ty> },
    Tuple(Vec<Ty>),
    Function { params: Vec<Ty>, ret: Box<Ty> },
    Comptime(Box<Ty>),
    BoundVar(u32),
    /// An inference variable.
    Infer(u32),
    Error,
    Unknown,
}

/// The mathematical value of a `Ty`.
pub enum TyView {
    Named { ctor: TyCtor, args: Seq<TyView> },
    Tuple(Seq<TyView>),
    Function { params: Seq<TyView>, ret: Box<TyView> },
    Comptime(Box<TyView>),
    BoundVar(u32),
    Infer(u32),
    Error,
    Unknown,
}

pub open spec fn ty_view(t: Ty) -> TyView
    decreases t,
{
    match t {
        Ty::Named { ctor, args } => TyView::Named { ctor, args: tys_view(args@) },
        Ty::Tuple(elems) => TyView::Tuple(tys_view(elems@)),
        Ty::Function { params, ret } => TyView::Function {
            params: tys_view(params@),
            ret: Box::new(ty_view(*ret)),
        },
        Ty::Comptime(inner) => TyView::Comptime(Box::new(ty_view(*inner))),
        Ty::BoundVar(i) => TyView::BoundVar(i),
        Ty::Infer(i) => TyView::Infer(i),
        Ty::Error => TyView::Error,
        Ty::Unknown => TyView::Unknown,
    }
}

pub open spec fn tys_view(s: Seq<Ty>) -> Seq<TyView>
    decreases s,
{
    if s.len() == 0 {
        Seq::empty()
    } else {
        tys_view(s.drop_last()).push(ty_view(s.last()))
    }
}

impl View for Ty {
    type V = TyView;

    open spec fn view(&self) -> TyView {
        ty_view(*self)
    }
}

pub proof fn lemma_tys_view(s: Seq<Ty>)
    ensures
        tys_view(s).len() == s.len(),
        forall|i: int| 0 <= i < s.len() ==> #[trigger] tys_view(s)[i] == ty_view(s[i]),
    decreases s.len(),
{
    if s.len() > 0 {
        lemma_tys_view(s.drop_last());
    }
}

pub proof fn lemma_tys_view_push(s: Seq<Ty>, t: Ty)
    ensures
        tys_view(s.push(t)) == tys_view(s).push(ty_view(t)),
{
    assert(s.push(t).drop_last() =~= s);
}

/// Size of a type value; every node counts one.
pub open spec fn tv_size(t: TyView) -> nat
    decreases t,
{
    match t {
        TyView::Named { args, .. } => 1 + tvs_size(args),
        TyView::Tuple(elems) => 1 + tvs_size(elems),
        TyView::Function { params, ret } => 1 + tvs_size(params) + tv_size(*ret),
        TyView::Comptime(inner) => 1 + tv_size(*inner),
        _ => 1,
    }
}

pub open spec fn tvs_size(s: Seq<TyView>) -> nat
    decreases s,
{
    if s.len() == 0 {
        0
    } else {
        tvs_size(s.drop_last()) + tv_size(s.last())
    }
}

pub proof fn lemma_tvs_size_elem(s: Seq<TyView>, i: int)
    requires
        0 <= i < s.len(),
    ensures
        tv_size(s[i]) <= tvs_size(s),
        tv_size(s[i]) >= 1,
    decreases s.len(),
{
    if i < s.len() - 1 {
        lemma_tvs_size_elem(s.drop_last(), i);
    }
    match s[i] {
        TyView::Named { .. } => {},
        _ => {},
    }
}

pub proof fn lemma_tvs_size_concat(a: Seq<TyView>, b: Seq<TyView>)
    ensures
        tvs_size(a + b) == tvs_size(a) + tvs_size(b),
    decreases b.len(),
{
    if b.len() == 0 {
        assert(a + b =~= a);
    } else {
        lemma_tvs_size_concat(a, b.drop_last());
        assert((a + b).drop_last() =~= a + b.drop_last());
    }
}

/// Whether a type mentions the ADT `needle` anywhere.
pub open spec fn mentions_adt(t: TyView, needle: DefId) -> bool
    decreases t,
{
    match t {
        TyView::Named { ctor, args } => {
            (ctor matches TyCtor::User(u) && u.kind == UserTyCtorKind::Adt && u.def == needle)
                || any_mentions_adt(args, needle)
        },
        TyView::Function { params, ret } => any_mentions_adt(params, needle) || mentions_adt(*ret, needle),
        TyView::Tuple(elems) => any_mentions_adt(elems, needle),
        TyView::Comptime(inner) => mentions_adt(*inner, needle),
        _ => false,
    }
}

pub open spec fn any_mentions_adt(s: Seq<TyView>, needle: DefId) -> bool
    decreases s,
{
    if s.len() == 0 {
        false
    } else {
        any_mentions_adt(s.drop_last(), needle) || mentions_adt(s.last(), needle)
    }
}

/// Replaces each bound variable `i` by `args[i]` when it exists.
pub open spec fn subst(t: TyView, args: Seq<TyView>) -> TyView
    decreases t,
{
    match t {
        TyView::BoundVar(i) => if (i as int) < args.len() { args[i as int] } else { t },
        TyView::Named { ctor, args: inner } => TyView::Named { ctor, args: subst_all(inner, args) },
        TyView::Function { params, ret } => TyView::Function {
            params: subst_all(params, args),
            ret: Box::new(subst(*ret, args)),
        },
        TyView::Tuple(elems) => TyView::Tuple(subst_all(elems, args)),
        TyView::Comptime(inner) => TyView::Comptime(Box::new(subst(*inner, args))),
        _ => t,
    }
}

pub open spec fn subst_all(s: Seq<TyView>, args: Seq<TyView>) -> Seq<TyView>
    decreases s,
{
    if s.len() == 0 {
        Seq::empty()
    } else {
        subst_all(s.drop_last(), args).push(subst(s.last(), args))
    }
}

/// Whether `t` is the two-argument builtin pair.
pub open spec fn is_pair(t: TyView) -> bool {
    t matches TyView::Named { ctor: TyCtor::Builtin(BuiltinTyCtor::Pair), args } && args.len() == 2
}

/// Flattens nested tuples and pairs of a tuple's element list, left to right.
pub open spec fn flatten(s: Seq<TyView>) -> Seq<TyView>
    decreases s,
{
    if s.len() == 0 {
        Seq::empty()
    } else {
        flatten(s.drop_last()) + match s.last() {
            TyView::Tuple(nested) => flatten(nested),
            TyView::Named { ctor: TyCtor::Builtin(BuiltinTyCtor::Pair), args } if args.len() == 2 => flatten(args),
            other => seq![other],
        }
    }
}

/// Components of a function's ABI output type.
pub open spec fn flatten_output(t: TyView) -> Seq<TyView> {
    match t {
        TyView::Tuple(elems) => flatten(elems),
        TyView::Named { ctor: TyCtor::Builtin(BuiltinTyCtor::Pair), args } if args.len() == 2 => flatten(args),
        _ => seq![t],
    }
}

pub open spec fn is_unit(t: TyView) -> bool {
    (t matches TyView::Tuple(elems) && elems.len() == 0)
        || (t matches TyView::Named { ctor: TyCtor::Builtin(BuiltinTyCtor::Unit), args } && args.len() == 0)
}

pub open spec fn is_tuple_shape(t: TyView) -> bool {
    t is Tuple || is_pair(t)
}

/// Splits a right-nested pair product into `arity` fields.
pub open spec fn split_product(product: TyView, arity: nat) -> Option<Seq<TyView>>
    decreases arity,
{
    if arity == 0 {
        None
    } else if arity == 1 {
        Some(seq![product])
    } else {
        match product {
            TyView::Named { ctor: TyCtor::Builtin(BuiltinTyCtor::Pair), args } if args.len() == 2 =>
                match split_product(args[1], (arity - 1) as nat) {
                    Some(rest) => Some(seq![args[0]] + rest),
                    None => None,
                },
            _ => None,
        }
    }
}

pub proof fn lemma_flatten_size(s: Seq<TyView>)
    ensures
        tvs_size(flatten(s)) <= tvs_size(s),
    decreases s,
{
    if s.len() > 0 {
        lemma_flatten_size(s.drop_last());
        let last = s.last();
        let piece = match last {
            TyView::Tuple(nested) => flatten(nested),
            TyView::Named { ctor: TyCtor::Builtin(BuiltinTyCtor::Pair), args } if args.len() == 2 => flatten(args),
            other => seq![other],
        };
        match last {
            TyView::Tuple(nested) => {
                lemma_flatten_size(nested);
            },
            TyView::Named { ctor: TyCtor::Builtin(BuiltinTyCtor::Pair), args } if args.len() == 2 => {
                lemma_flatten_size(args);
            },
            other => {
                let one = seq![other];
                assert(one.drop_last() =~= Seq::<TyView>::empty());
                assert(one.last() == other);
                assert(tvs_size(Seq::<TyView>::empty()) == 0);
                assert(tvs_size(one) == tvs_size(one.drop_last()) + tv_size(one.last()));
            },
        }
        assert(tvs_size(piece) <= tv_size(last));
        lemma_tvs_size_concat(flatten(s.drop_last()), piece);
        assert(flatten(s) == flatten(s.drop_last()) + piece);
    }
}

// ---------------------------------------------------------------------------
// Definitions

#[derive(Clone, Copy, Debug, PartialEq, Eq, Hash, Structural)]
pub enum DefKind {
    Adt,
    Class,
    Other,
}

/// Where a definition lives.
#[derive(Clone, Copy, Debug, PartialEq, Eq, Hash, Structural)]
pub enum DefLocation {
    /// The root `std` module of the standard library.
    StdRoot,
    /// Another module of the standard library.
    StdLibrary,
    /// The main program or an external library.
    Elsewhere,
}

/// Shape of an algebraic data type and its compiler-owned representations.
#[derive(Debug)]
pub struct AdtShape {
    /// Number of declared type parameters.
    pub param_count: usize,
    /// Field count of each constructor, in declaration order.
    pub ctor_field_counts: Vec<usize>,
    /// The derived `Generic` representation over bound variables
    /// `0..param_count`, when the derivation succeeds.
    pub generic_rep: Option<Ty>,
    /// Product representation of the first constructor arm of the derived
    /// `Generic` plan, when the derivation succeeds.
    pub product_rep: Option<Ty>,
}

/// What the analyses know about one definition.
#[derive(Debug)]
pub struct DefInfo {
    pub name: Option<String>,
    pub kind: DefKind,
    pub location: DefLocation,
    /// The defining module has a `no-generic-instance-for` pragma naming it
    /// (`GenericFacts::excluded` of `resolve::module_generic_facts`).
    pub generic_excluded: bool,
    /// The defining module declares a hand-written `Generic` instance for it
    /// (`GenericFacts::local_instance`).
    pub local_generic_instance: bool,
    /// A class named `Generic` is visible in the defining module
    /// (`GenericFacts::class_visible`).
    pub generic_class_visible: bool,
    /// The defining module enables compiler-owned ABI derivation.
    pub abi_derivation_enabled: bool,
    /// For an ADT: its shape as found in the defining module.
    pub adt: Option<AdtShape>,
    /// For a class: the number of arguments besides the main type.
    pub class_extra_args: Option<usize>,
    /// For a type alias: the type it stands for, its parameters written as
    /// the bound variables `0..`.
    pub alias: Option<Ty>,
}

/// The definition table.
#[derive(Debug)]
pub struct Db {
    pub defs: Vec<DefInfo>,
}

impl Db {
    pub open spec fn has(&self, def: DefId) -> bool {
        (def.0 as int) < self.defs@.len()
    }

    pub open spec fn info(&self, def: DefId) -> DefInfo
        recommends
            self.has(def),
    {
        self.defs@[def.0 as int]
    }

    pub open spec fn name_of(&self, def: DefId) -> Option<Seq<char>> {
        if self.has(def) {
            match self.info(def).name {
                Some(n) => Some(n@),
                None => None,
            }
        } else {
            None
        }
    }

    pub open spec fn location_of(&self, def: DefId) -> DefLocation {
        if self.has(def) {
            self.info(def).location
        } else {
            DefLocation::Elsewhere
        }
    }

    pub open spec fn kind_of(&self, def: DefId) -> DefKind {
        if self.has(def) {
            self.info(def).kind
        } else {
            DefKind::Other
        }
    }

    pub fn def_info(&self, def: DefId) -> (r: Option<&DefInfo>)
        ensures
            self.has(def) <==> r is Some,
            r matches Some(i) ==> *i == self.info(def),
    {
        if (def.0 as usize) < self.defs.len() {
            Some(&self.defs[def.0 as usize])
        } else {
            None
        }
    }

    pub fn name(&self, def: DefId) -> (r: Option<&String>)
        ensures
            self.name_of(def) == (match r {
                Some(s) => Some(s@),
                None => None::<Seq<char>>,
            }),
    {
        match self.def_info(def) {
            Some(info) => match &info.name {
                Some(n) => Some(n),
                None => None,
            },
            None => None,
        }
    }
}

/// The type that the alias `def` stands for, if `def` is an alias.
pub open spec fn alias_body(db: &Db, def: DefId) -> Option<TyView> {
    if db.has(def) {
        match db.info(def).alias {
            Some(b) => Some(b@),
            None => None,
        }
    } else {
        None
    }
}

/// `t` with its head alias expanded, and the head of the expansion in turn,
/// at most `fuel` times.
pub open spec fn expand_alias_fuel(db: &Db, t: TyView, fuel: nat) -> TyView
    decreases fuel,
{
    if fuel == 0 {
        t
    } else {
        match t {
            TyView::Named { ctor: TyCtor::User(u), args } => if u.kind == UserTyCtorKind::Alias && alias_body(
                db,
                u.def,
            ) is Some {
                expand_alias_fuel(db, subst(alias_body(db, u.def).unwrap(), args), (fuel - 1) as nat)
            } else {
                t
            },
            _ => t,
        }
    }
}

/// `t` with the aliases at its head expanded: a chain of aliases is
/// followed at most once per definition, so a cyclic chain stops.
pub open spec fn expand_aliases(db: &Db, t: TyView) -> TyView {
    expand_alias_fuel(db, t, db.defs@.len() as nat)
}

/// Expands the aliases at the head of `ty`.
pub fn expand_alias_head(db: &Db, ty: &Ty) -> (r: Ty)
    ensures
        r@ == expand_aliases(db, ty@),
{
    let mut cur = ty.copy_ty();
    let mut fuel: usize = db.defs.len();
    while fuel > 0
        invariant
            fuel <= db.defs@.len(),
            expand_aliases(db, ty@) == expand_alias_fuel(db, cur@, fuel as nat),
        decreases fuel,
    {
        let next = match &cur {
            Ty::Named { ctor: TyCtor::User(u), args } => if u.kind == UserTyCtorKind::Alias {
                match db.def_info(u.def) {
                    Some(info) => match &info.alias {
                        Some(body) => Some(substitute_bound_tys(body, args)),
                        None => None,
                    },
                    None => None,
                }
            } else {
                None
            },
            _ => None,
        };
        match next {
            Some(n) => {
                cur = n;
            },
            None => {
                return cur;
            },
        }
        fuel = fuel - 1;
    }
    cur
}

/// `def` is the definition named `name` in the root module of the standard library.
pub open spec fn canonical_std_named(db: &Db, def: DefId, name: Seq<char>) -> bool {
    db.name_of(def) == Some(name) && db.location_of(def) == DefLocation::StdRoot
}

pub fn is_canonical_std_def_named(db: &Db, def: DefId, name: &str) -> (r: bool)
    ensures
        r == canonical_std_named(db, def, name@),
{
    match db.def_info(def) {
        Some(info) => match &info.name {
            Some(n) => crate::text::str_eq(n.as_str(), name) && info.location == DefLocation::StdRoot,
            None => false,
        },
        None => false,
    }
}

} // verus!

verus! {

pub proof fn lemma_tys_view_concat(a: Seq<Ty>, b: Seq<Ty>)
    ensures
        tys_view(a + b) == tys_view(a) + tys_view(b),
    decreases b.len(),
{
    if b.len() == 0 {
        assert(a + b =~= a);
        assert(tys_view(a) + tys_view(b) =~= tys_view(a));
    } else {
        lemma_tys_view_concat(a, b.drop_last());
        assert((a + b).drop_last() =~= a + b.drop_last());
        assert(tys_view(a) + tys_view(b) =~= (tys_view(a) + tys_view(b.drop_last())).push(ty_view(b.last())));
    }
}

pub proof fn lemma_tys_view_take(s: Seq<Ty>, k: int)
    requires
        0 <= k <= s.len(),
    ensures
        tys_view(s.take(k)) == tys_view(s).take(k),
{
    lemma_tys_view(s);
    lemma_tys_view(s.take(k));
    assert(tys_view(s.take(k)) =~= tys_view(s).take(k));
}

pub proof fn lemma_tys_view_take_push(s: Seq<Ty>, i: int)
    requires
        0 <= i < s.len(),
    ensures
        tys_view(s.take(i + 1)) == tys_view(s.take(i)).push(ty_view(s[i])),
{
    assert(s.take(i + 1).drop_last() =~= s.take(i));
}

impl Ty {
    /// A deep copy of the type.
    pub fn copy_ty(&self) -> (r: Ty)
        ensures
            r@ == self@,
        decreases self,
    {
        match self {
            Ty::Named { ctor, args } => Ty::Named { ctor: *ctor, args: copy_tys(args) },
            Ty::Tuple(elems) => Ty::Tuple(copy_tys(elems)),
            Ty::Function { params, ret } => {
                let r = ret.copy_ty();
                Ty::Function { params: copy_tys(params), ret: Box::new(r) }
            },
            Ty::Comptime(inner) => {
                let r = inner.copy_ty();
                Ty::Comptime(Box::new(r))
            },
            Ty::BoundVar(i) => Ty::BoundVar(*i),
            Ty::Infer(i) => Ty::Infer(*i),
            Ty::Error => Ty::Error,
            Ty::Unknown => Ty::Unknown,
        }
    }
}

/// A deep copy of a list of types.
pub fn copy_tys(v: &Vec<Ty>) -> (r: Vec<Ty>)
    ensures
        tys_view(r@) == tys_view(v@),
    decreases v,
{
    let mut out: Vec<Ty> = Vec::new();
    let mut i: usize = 0;
    while i < v.len()
        invariant
            i <= v@.len(),
            tys_view(out@) == tys_view(v@.take(i as int)),
        decreases v@.len() - i,
    {
        proof {
            assert(decreases_to!(v => v@));
            assert(decreases_to!(v@ => v@[i as int]));
        }
        let c = v[i].copy_ty();
        proof {
            lemma_tys_view_push(out@, c);
            lemma_tys_view_take_push(v@, i as int);
        }
        out.push(c);
        i = i + 1;
    }
    assert(v@.take(v@.len() as int) =~= v@);
    out
}

/// Replaces each bound variable `i` of `ty` by `args[i]` when it exists.
pub fn substitute_bound_tys(ty: &Ty, args: &Vec<Ty>) -> (r: Ty)
    ensures
        r@ == subst(ty@, tys_view(args@)),
    decreases ty,
{
    proof {
        lemma_tys_view(args@);
    }
    match ty {
        Ty::BoundVar(i) => {
            if (*i as usize) < args.len() {
                args[*i as usize].copy_ty()
            } else {
                Ty::BoundVar(*i)
            }
        },
        Ty::Named { ctor, args: inner } => Ty::Named { ctor: *ctor, args: substitute_all(inner, args) },
        Ty::Function { params, ret } => {
            let r = substitute_bound_tys(ret, args);
            Ty::Function { params: substitute_all(params, args), ret: Box::new(r) }
        },
        Ty::Tuple(elems) => Ty::Tuple(substitute_all(elems, args)),
        Ty::Comptime(inner) => {
            let r = substitute_bound_tys(inner, args);
            Ty::Comptime(Box::new(r))
        },
        Ty::Infer(i) => Ty::Infer(*i),
        Ty::Error => Ty::Error,
        Ty::Unknown => Ty::Unknown,
    }
}

fn substitute_all(v: &Vec<Ty>, args: &Vec<Ty>) -> (r: Vec<Ty>)
    ensures
        tys_view(r@) == subst_all(tys_view(v@), tys_view(args@)),
    decreases v,
{
    let mut out: Vec<Ty> = Vec::new();
    let mut i: usize = 0;
    while i < v.len()
        invariant
            i <= v@.len(),
            tys_view(out@) == subst_all(tys_view(v@.take(i as int)), tys_view(args@)),
        decreases v@.len() - i,
    {
        proof {
            assert(decreases_to!(v => v@));
            assert(decreases_to!(v@ => v@[i as int]));
        }
        let c = substitute_bound_tys(&v[i], args);
        proof {
            lemma_tys_view_push(out@, c);
            lemma_tys_view_take_push(v@, i as int);
            let s = tys_view(v@.take(i as int)).push(ty_view(v@[i as int]));
            assert(s.drop_last() =~= tys_view(v@.take(i as int)));
        }
        out.push(c);
        i = i + 1;
    }
    assert(v@.take(v@.len() as int) =~= v@);
    out
}

/// Whether `ty` mentions the ADT `needle` anywhere.
pub fn ty_mentions_adt(ty: &Ty, needle: DefId) -> (r: bool)
    ensures
        r == mentions_adt(ty@, needle),
    decreases ty,
{
    match ty {
        Ty::Named { ctor, args } => {
            let head = match ctor {
                TyCtor::User(u) => u.kind == UserTyCtorKind::Adt && u.def == needle,
                _ => false,
            };
            head || tys_mention_adt(args, needle)
        },
        Ty::Function { params, ret } => tys_mention_adt(params, needle) || ty_mentions_adt(ret, needle),
        Ty::Tuple(elems) => tys_mention_adt(elems, needle),
        Ty::Comptime(inner) => ty_mentions_adt(inner, needle),
        _ => false,
    }
}

fn tys_mention_adt(v: &Vec<Ty>, needle: DefId) -> (r: bool)
    ensures
        r == any_mentions_adt(tys_view(v@), needle),
    decreases v,
{
    let mut i: usize = 0;
    while i < v.len()
        invariant
            i <= v@.len(),
            !any_mentions_adt(tys_view(v@.take(i as int)), needle),
        decreases v@.len() - i,
    {
        proof {
            assert(decreases_to!(v => v@));
            assert(decreases_to!(v@ => v@[i as int]));
            lemma_tys_view_take_push(v@, i as int);
            let s = tys_view(v@.take(i as int)).push(ty_view(v@[i as int]));
            assert(s.drop_last() =~= tys_view(v@.take(i as int)));
        }
        if ty_mentions_adt(&v[i], needle) {
            proof {
                lemma_tys_view_take(v@, i as int + 1);
                lemma_tys_view(v@);
                lemma_any_mentions_prefix(tys_view(v@), tys_view(v@.take(i as int + 1)), needle);
            }
            return true;
        }
        i = i + 1;
    }
    assert(v@.take(v@.len() as int) =~= v@);
    false
}

proof fn lemma_any_mentions_prefix(s: Seq<TyView>, prefix: Seq<TyView>, needle: DefId)
    requires
        prefix.len() <= s.len(),
        prefix =~= s.take(prefix.len() as int),
        any_mentions_adt(prefix, needle),
    ensures
        any_mentions_adt(s, needle),
    decreases s.len(),
{
    if prefix.len() < s.len() {
        assert(s.drop_last().take(prefix.len() as int) =~= prefix);
        lemma_any_mentions_prefix(s.drop_last(), prefix, needle);
    } else {
        assert(prefix =~= s);
    }
}

} // verus!

verus! {

/// Flattens nested tuples and pairs among `elems`, left to right.
pub fn flatten_tuple(elems: &Vec<Ty>) -> (r: Vec<Ty>)
    ensures
        tys_view(r@) == flatten(tys_view(elems@)),
    decreases elems,
{
    let mut out: Vec<Ty> = Vec::new();
    let mut i: usize = 0;
    while i < elems.len()
        invariant
            i <= elems@.len(),
            tys_view(out@) == flatten(tys_view(elems@.take(i as int))),
        decreases elems@.len() - i,
    {
        proof {
            assert(decreases_to!(elems => elems@));
            assert(decreases_to!(elems@ => elems@[i as int]));
            lemma_tys_view_take_push(elems@, i as int);
            let s = tys_view(elems@.take(i as int)).push(ty_view(elems@[i as int]));
            assert(s.drop_last() =~= tys_view(elems@.take(i as int)));
        }
        let elem = &elems[i];
        let mut piece: Vec<Ty> = match elem {
            Ty::Tuple(nested) => flatten_tuple(nested),
            Ty::Named { ctor: TyCtor::Builtin(BuiltinTyCtor::Pair), args } if args.len() == 2 => {
                proof {
                    lemma_tys_view(args@);
                }
                flatten_tuple(args)
            },
            _ => {
                let c = elem.copy_ty();
                let mut one: Vec<Ty> = Vec::new();
                one.push(c);
                proof {
                    lemma_tys_view_push(Seq::<Ty>::empty(), c);
                    assert(Seq::<Ty>::empty().push(c) =~= one@);
                }
                one
            },
        };
        proof {
            lemma_tys_view(elems@);
            match elem {
                Ty::Named { ctor: TyCtor::Builtin(BuiltinTyCtor::Pair), args } => {
                    lemma_tys_view(args@);
                },
                _ => {},
            }
            lemma_tys_view_concat(out@, piece@);
        }
        out.append(&mut piece);
        i = i + 1;
    }
    assert(elems@.take(elems@.len() as int) =~= elems@);
    out
}

/// The components of an output type: a tuple or pair flattens, anything else
/// is its own single component.
pub fn flatten_output_ty(ty: &Ty) -> (r: Vec<Ty>)
    ensures
        tys_view(r@) == flatten_output(ty@),
{
    match ty {
        Ty::Tuple(elems) => flatten_tuple(elems),
        Ty::Named { ctor: TyCtor::Builtin(BuiltinTyCtor::Pair), args } if args.len() == 2 => {
            proof {
                lemma_tys_view(args@);
            }
            flatten_tuple(args)
        },
        _ => {
            proof {
                match ty {
                    Ty::Named { ctor: TyCtor::Builtin(BuiltinTyCtor::Pair), args } => {
                        lemma_tys_view(args@);
                    },
                    _ => {},
                }
            }
            let c = ty.copy_ty();
            let mut one: Vec<Ty> = Vec::new();
            one.push(c);
            proof {
                lemma_tys_view_push(Seq::<Ty>::empty(), c);
                assert(Seq::<Ty>::empty().push(c) =~= one@);
            }
            one
        },
    }
}

/// The empty tuple or the builtin unit type.
pub fn is_unit_ty(ty: &Ty) -> (r: bool)
    ensures
        r == is_unit(ty@),
{
    proof {
        match ty {
            Ty::Tuple(elems) => lemma_tys_view(elems@),
            Ty::Named { args, .. } => lemma_tys_view(args@),
            _ => {},
        }
    }
    match ty {
        Ty::Tuple(elems) => elems.len() == 0,
        Ty::Named { ctor: TyCtor::Builtin(BuiltinTyCtor::Unit), args } => args.len() == 0,
        _ => false,
    }
}

/// A tuple, or a two-argument builtin pair.
pub fn is_abi_tuple_shape(ty: &Ty) -> (r: bool)
    ensures
        r == is_tuple_shape(ty@),
{
    proof {
        match ty {
            Ty::Named { args, .. } => lemma_tys_view(args@),
            _ => {},
        }
    }
    match ty {
        Ty::Tuple(_) => true,
        Ty::Named { ctor: TyCtor::Builtin(BuiltinTyCtor::Pair), args } => args.len() == 2,
        _ => false,
    }
}

/// Splits a right-nested pair product into its `arity` constructor fields.
pub fn split_constructor_product(product: &Ty, arity: usize) -> (r: Option<Vec<Ty>>)
    ensures
        match r {
            Some(fields) => split_product(product@, arity as nat) == Some(tys_view(fields@)),
            None => split_product(product@, arity as nat) is None,
        },
{
    if arity == 0 {
        return None;
    }
    let mut fields: Vec<Ty> = Vec::new();
    let mut cur: &Ty = product;
    let mut i: usize = 1;
    while i < arity
        invariant
            1 <= i <= arity,
            split_product(product@, arity as nat) == (match split_product(cur@, (arity - i + 1) as nat) {
                Some(rest) => Some(tys_view(fields@) + rest),
                None => None::<Seq<TyView>>,
            }),
        decreases arity - i,
    {
        match cur {
            Ty::Named { ctor: TyCtor::Builtin(BuiltinTyCtor::Pair), args } => {
                proof {
                    lemma_tys_view(args@);
                }
                if args.len() != 2 {
                    return None;
                }
                let c = args[0].copy_ty();
                proof {
                    lemma_tys_view_push(fields@, c);
                    let k = (arity - i + 1) as nat;
                    match split_product(args@[1]@, (k - 1) as nat) {
                        Some(rest) => {
                            assert(tys_view(fields@) + (seq![c@] + rest) =~= tys_view(fields@).push(c@) + rest);
                        },
                        None => {},
                    }
                }
                fields.push(c);
                cur = &args[1];
            },
            _ => {
                return None;
            },
        }
        i = i + 1;
    }
    let c = cur.copy_ty();
    proof {
        lemma_tys_view_push(fields@, c);
        assert(tys_view(fields@) + seq![c@] =~= tys_view(fields@).push(c@));
    }
    fields.push(c);
    Some(fields)
}

// ---------------------------------------------------------------------------
// Source rendering of types

pub open spec fn builtin_text(b: BuiltinTyCtor) -> Seq<char> {
    match b {
        BuiltinTyCtor::Word => "word"@,
        BuiltinTyCtor::Bool => "bool"@,
        BuiltinTyCtor::String => "string"@,
        BuiltinTyCtor::Unit => "unit"@,
        BuiltinTyCtor::Pair => "pair"@,
        BuiltinTyCtor::Sum => "sum"@,
        BuiltinTyCtor::Integer => "integer"@,
    }
}

pub open spec fn ctor_text(db: &Db, ctor: TyCtor) -> Seq<char> {
    match ctor {
        TyCtor::Builtin(b) => builtin_text(b),
        TyCtor::User(u) => match db.name_of(u.def) {
            Some(n) => n,
            None => "<anonymous>"@,
        },
    }
}

/// Source rendering of a type: `name<arg, ..>`, `(a, b)`, `(a) -> r`,
/// `comptime t`, `t<i>` for bound variables, `?<i>` for inference
/// variables, `<error>` and `_`.
pub open spec fn ty_text(db: &Db, t: TyView) -> Seq<char>
    decreases t,
{
    match t {
        TyView::Named { ctor, args } => if args.len() == 0 {
            ctor_text(db, ctor)
        } else {
            ctor_text(db, ctor) + "<"@ + join_seqs(tys_text(db, args), ", "@) + ">"@
        },
        TyView::Tuple(elems) => "("@ + join_seqs(tys_text(db, elems), ", "@) + ")"@,
        TyView::Function { params, ret } => "("@ + join_seqs(tys_text(db, params), ", "@) + ") -> "@
            + ty_text(db, *ret),
        TyView::Comptime(inner) => "comptime "@ + ty_text(db, *inner),
        TyView::BoundVar(i) => "t"@ + dec_text(i as nat),
        TyView::Infer(i) => "?"@ + dec_text(i as nat),
        TyView::Error => "<error>"@,
        TyView::Unknown => "_"@,
    }
}

pub open spec fn tys_text(db: &Db, s: Seq<TyView>) -> Seq<Seq<char>>
    decreases s,
{
    if s.len() == 0 {
        Seq::empty()
    } else {
        tys_text(db, s.drop_last()).push(ty_text(db, s.last()))
    }
}

fn builtin_name(b: BuiltinTyCtor) -> (s: &'static str)
    ensures
        s@ == builtin_text(b),
{
    match b {
        BuiltinTyCtor::Word => "word",
        BuiltinTyCtor::Bool => "bool",
        BuiltinTyCtor::String => "string",
        BuiltinTyCtor::Unit => "unit",
        BuiltinTyCtor::Pair => "pair",
        BuiltinTyCtor::Sum => "sum",
        BuiltinTyCtor::Integer => "integer",
    }
}

/// Appends the rendering of a type constructor.
pub fn push_ctor_text(out: &mut String, db: &Db, ctor: TyCtor)
    ensures
        final(out)@ == old(out)@ + ctor_text(db, ctor),
{
    match ctor {
        TyCtor::Builtin(b) => push_str(out, builtin_name(b)),
        TyCtor::User(u) => match db.name(u.def) {
            Some(n) => push_str(out, n.as_str()),
            None => push_str(out, "<anonymous>"),
        },
    }
}

/// Source rendering of a type.
pub fn display_ty(db: &Db, ty: &Ty) -> (s: String)
    ensures
        s@ == ty_text(db, ty@),
    decreases ty,
{
    let mut out = String::new();
    match ty {
        Ty::Named { ctor, args } => {
            proof {
                lemma_tys_view(args@);
            }
            push_ctor_text(&mut out, db, *ctor);
            if args.len() > 0 {
                push_str(&mut out, "<");
                let parts = display_tys(db, args);
                let joined = join_strings(&parts, ", ");
                push_str(&mut out, joined.as_str());
                push_str(&mut out, ">");
            }
        },
        Ty::Tuple(elems) => {
            push_str(&mut out, "(");
            let parts = display_tys(db, elems);
            let joined = join_strings(&parts, ", ");
            push_str(&mut out, joined.as_str());
            push_str(&mut out, ")");
        },
        Ty::Function { params, ret } => {
            push_str(&mut out, "(");
            let parts = display_tys(db, params);
            let joined = join_strings(&parts, ", ");
            push_str(&mut out, joined.as_str());
            push_str(&mut out, ") -> ");
            let r = display_ty(db, ret);
            push_str(&mut out, r.as_str());
        },
        Ty::Comptime(inner) => {
            push_str(&mut out, "comptime ");
            let r = display_ty(db, inner);
            push_str(&mut out, r.as_str());
        },
        Ty::BoundVar(i) => {
            push_str(&mut out, "t");
            let d = decimal(*i as usize);
            push_str(&mut out, d.as_str());
        },
        Ty::Infer(i) => {
            push_str(&mut out, "?");
            let d = decimal(*i as usize);
            push_str(&mut out, d.as_str());
        },
        Ty::Error => push_str(&mut out, "<error>"),
        Ty::Unknown => push_str(&mut out, "_"),
    }
    out
}

fn display_tys(db: &Db, v: &Vec<Ty>) -> (r: Vec<String>)
    ensures
        strings_view(r@) == tys_text(db, tys_view(v@)),
    decreases v,
{
    let mut out: Vec<String> = Vec::new();
    let mut i: usize = 0;
    while i < v.len()
        invariant
            i <= v@.len(),
            strings_view(out@) == tys_text(db, tys_view(v@.take(i as int))),
        decreases v@.len() - i,
    {
        proof {
            assert(decreases_to!(v => v@));
            assert(decreases_to!(v@ => v@[i as int]));
            lemma_tys_view_take_push(v@, i as int);
            let s = tys_view(v@.take(i as int)).push(ty_view(v@[i as int]));
            assert(s.drop_last() =~= tys_view(v@.take(i as int)));
        }
        let t = display_ty(db, &v[i]);
        proof {
            assert(strings_view(out@.push(t)) =~= strings_view(out@).push(t@));
        }
        out.push(t);
        i = i + 1;
    }
    assert(v@.take(v@.len() as int) =~= v@);
    out
}

} // verus!

verus! {

/// Whether two types are equal.
#[verifier::loop_isolation(false)]
pub fn ty_eq(a: &Ty, b: &Ty) -> (r: bool)
    ensures
        r == (a@ == b@),
    decreases a,
{
    match (a, b) {
        (Ty::Named { ctor: c1, args: a1 }, Ty::Named { ctor: c2, args: a2 }) => {
            if *c1 != *c2 {
                return false;
            }
            tys_eq(a1, a2)
        },
        (Ty::Tuple(x), Ty::Tuple(y)) => tys_eq(x, y),
        (Ty::Function { params: p1, ret: r1 }, Ty::Function { params: p2, ret: r2 }) => {
            let same_params = tys_eq(p1, p2);
            if !same_params {
                return false;
            }
            ty_eq(r1, r2)
        },
        (Ty::Comptime(x), Ty::Comptime(y)) => ty_eq(x, y),
        (Ty::BoundVar(i), Ty::BoundVar(j)) => *i == *j,
        (Ty::Infer(i), Ty::Infer(j)) => *i == *j,
        (Ty::Error, Ty::Error) => true,
        (Ty::Unknown, Ty::Unknown) => true,
        _ => false,
    }
}

/// Whether two type lists are equal.
#[verifier::loop_isolation(false)]
pub fn tys_eq(a: &Vec<Ty>, b: &Vec<Ty>) -> (r: bool)
    ensures
        r == (tys_view(a@) == tys_view(b@)),
    decreases a,
{
    proof {
        lemma_tys_view(a@);
        lemma_tys_view(b@);
    }
    if a.len() != b.len() {
        return false;
    }
    let mut i: usize = 0;
    while i < a.len()
        invariant
            i <= a@.len(),
            a@.len() == b@.len(),
            forall|k: int| 0 <= k < i ==> tys_view(a@)[k] == tys_view(b@)[k],
        decreases a@.len() - i,
    {
        proof {
            assert(decreases_to!(a => a@));
            assert(decreases_to!(a@ => a@[i as int]));
        }
        if !ty_eq(&a[i], &b[i]) {
            proof {
                assert(tys_view(a@)[i as int] != tys_view(b@)[i as int]);
            }
            return false;
        }
        i = i + 1;
    }
    proof {
        assert(tys_view(a@) =~= tys_view(b@));
    }
    true
}

} // verus!
