//! Canonical ABI types, signatures and selectors.
use vstd::prelude::*;
use rustc_hash::FxHashSet;
use tiny_keccak::Hasher;
use vstd::utf8::encode_utf8;
use crate::diag::{diags_view, Diagnostic, DiagnosticView, Span};
use crate::abi_spec::{
    adt_name, arity_text, calldata_element, canonical_user_name, count_text, depth_budget, expansion_budget,
    generic_parts, generic_sig, is_location_name, location_name, manual_generic_text,
    memory_only_text, method_sig, owned_rep, owned_sig, recursive_adt_text, sig_top, std_fallback,
    top_list, top_parts, unavailable_text, unsupported_user_adt_text, user_sig, user_ty, TextResult,
    abi_components, abi_of, abi_ty_text, contains_calldata_array, any_contains_calldata_array,
    owned_source_name, AbiOf, AbiParamV, AbiTy, adt_shape, contract_diag, lowered_param,
    param_diags, output_param, output_diags, output_only_text, is_std_location,
    is_std_abi_container, product_fields, abi_reaches_adt, any_abi_reaches_adt,
};
use crate::text::{byte_hex, decimal, hex_digit_char, join_strings, push_char, push_str, str_eq, strings_view};
use crate::ty::{
    display_ty, flatten, flatten_tuple, lemma_flatten_size, lemma_tvs_size_elem, lemma_tys_view,
    lemma_tys_view_take, substitute_bound_tys, tv_size, tvs_size, ty_mentions_adt, ty_text,
    tys_view, BuiltinTyCtor, Db, DefId, DefLocation, Ty, TyCtor, TyView, UserTyCtor,
};

verus! {

/// A 4-byte ABI function selector.
#[derive(Clone, Copy, Debug, PartialEq, Eq, Hash)]
pub struct AbiSelector(pub [u8; 4]);

/// `0x` followed by the lowercase hexadecimal digits of the four selector bytes.
pub open spec fn selector_hex(bytes: Seq<u8>) -> Seq<char> {
    seq!['0', 'x'] + byte_hex(bytes[0]) + byte_hex(bytes[1]) + byte_hex(bytes[2]) + byte_hex(bytes[3])
}

/// The value of a lowercase hexadecimal digit.
pub open spec fn hex_value(c: char) -> int {
    if (c as int) < ('a' as int) {
        c as int - '0' as int
    } else {
        c as int - 'a' as int + 10
    }
}

/// The byte that the digits at `2 + 2 * i` and `3 + 2 * i` of a selector's
/// hexadecimal text spell.
pub open spec fn decoded_selector_byte(text: Seq<char>, i: int) -> int {
    hex_value(text[2 + 2 * i]) * 16 + hex_value(text[3 + 2 * i])
}

pub proof fn lemma_hex_digit_value(n: nat)
    requires
        n < 16,
    ensures
        hex_value(crate::text::hex_digit(n)) == n,
{
}

impl AbiSelector {
    /// Renders the selector as `0x` and eight lowercase hexadecimal digits.
    pub fn to_hex(self) -> (s: String)
        ensures
            s@ == selector_hex(self.0@),
    {
        let mut out = String::new();
        push_char(&mut out, '0');
        push_char(&mut out, 'x');
        let mut i: usize = 0;
        while i < 4
            invariant
                i <= 4,
                out@ == seq!['0', 'x'] + Seq::new(2 * i as nat, |k: int| byte_hex(self.0@[k / 2])[k % 2]),
            decreases 4 - i,
        {
            let b = self.0[i];
            push_char(&mut out, hex_digit_char(b / 16));
            push_char(&mut out, hex_digit_char(b % 16));
            i = i + 1;
        }
        out
    }
}

pub open spec fn res_text(r: Result<String, String>) -> TextResult {
    match r {
        Ok(s) => Ok(s@),
        Err(e) => Err(e@),
    }
}

/// ADTs whose ABI lowering is decided by evidence visible to the consumer:
/// those with a hand-written `Generic` instance, and those whose derived
/// `ABIAttribs`/`ABIDecode` clauses are visible.
pub struct AbiAdtEvidence {
    pub manual_generic_adts: FxHashSet<DefId>,
    pub derived_abi_adts: FxHashSet<DefId>,
}

#[verifier::external_type_specification]
#[verifier::external_body]
pub struct ExFxBuildHasher(rustc_hash::FxBuildHasher);

/// `HashSet::contains` on an Fx-hashed set of definitions: true exactly when
/// the set holds `def`.
#[verifier::external_body]
fn fx_set_contains(set: &FxHashSet<DefId>, def: DefId) -> (b: bool)
    ensures
        b == set@.contains(def),
{
    set.contains(&def)
}

impl AbiAdtEvidence {
    pub open spec fn manual(&self) -> Set<DefId> {
        self.manual_generic_adts@
    }

    pub open spec fn derived(&self) -> Set<DefId> {
        self.derived_abi_adts@
    }

    pub fn new(manual_generic_adts: FxHashSet<DefId>, derived_abi_adts: FxHashSet<DefId>) -> (r: Self)
        ensures
            r.manual() == manual_generic_adts@,
            r.derived() == derived_abi_adts@,
    {
        AbiAdtEvidence { manual_generic_adts, derived_abi_adts }
    }

    pub fn has_manual_generic(&self, adt: DefId) -> (b: bool)
        ensures
            b == self.manual().contains(adt),
    {
        fx_set_contains(&self.manual_generic_adts, adt)
    }

    pub fn has_derived_abi(&self, adt: DefId) -> (b: bool)
        ensures
            b == self.derived().contains(adt),
    {
        fx_set_contains(&self.derived_abi_adts, adt)
    }
}

fn stack_contains(stack: &Vec<DefId>, def: DefId) -> (b: bool)
    ensures
        b == stack@.contains(def),
{
    let mut i: usize = 0;
    while i < stack.len()
        invariant
            i <= stack@.len(),
            forall|k: int| 0 <= k < i ==> stack@[k] != def,
        decreases stack@.len() - i,
    {
        if stack[i] == def {
            return true;
        }
        i = i + 1;
    }
    false
}

/// The concrete type `user<args>`.
fn concrete_user_ty(user: UserTyCtor, args: &Vec<Ty>) -> (t: Ty)
    ensures
        t@ == user_ty(user, tys_view(args@)),
{
    Ty::Named { ctor: TyCtor::User(user), args: crate::ty::copy_tys(args) }
}

fn ty_stack_contains(stack: &Vec<Ty>, t: &Ty) -> (b: bool)
    ensures
        b == tys_view(stack@).contains(t@),
{
    proof {
        lemma_tys_view(stack@);
    }
    let mut i: usize = 0;
    while i < stack.len()
        invariant
            i <= stack@.len(),
            tys_view(stack@).len() == stack@.len(),
            forall|k: int| 0 <= k < stack@.len() ==> #[trigger] tys_view(stack@)[k] == stack@[k]@,
            forall|k: int| 0 <= k < i ==> tys_view(stack@)[k] != t@,
        decreases stack@.len() - i,
    {
        if crate::ty::ty_eq(&stack[i], t) {
            proof {
                assert(tys_view(stack@)[i as int] == t@);
            }
            return true;
        }
        i = i + 1;
    }
    false
}

fn ty_stack_pushed(stack: &Vec<Ty>, t: Ty) -> (r: Vec<Ty>)
    ensures
        tys_view(r@) == tys_view(stack@).push(t@),
{
    let mut out = crate::ty::copy_tys(stack);
    proof {
        crate::ty::lemma_tys_view_push(out@, t);
    }
    out.push(t);
    out
}

fn stack_pushed(stack: &Vec<DefId>, def: DefId) -> (r: Vec<DefId>)
    ensures
        r@ == stack@.push(def),
{
    let mut out: Vec<DefId> = Vec::new();
    let mut i: usize = 0;
    while i < stack.len()
        invariant
            i <= stack@.len(),
            out@ == stack@.take(i as int),
        decreases stack@.len() - i,
    {
        out.push(stack[i]);
        i = i + 1;
        assert(out@ =~= stack@.take(i as int));
    }
    out.push(def);
    assert(out@ =~= stack@.push(def));
    out
}

fn adt_display_name(db: &Db, def: DefId) -> (s: String)
    ensures
        s@ == adt_name(db, def),
{
    let mut out = String::new();
    match db.name(def) {
        Some(n) => push_str(&mut out, n.as_str()),
        None => push_str(&mut out, "<anonymous ADT>"),
    }
    out
}

fn with_suffix(mut s: String, suffix: &str) -> (r: String)
    ensures
        r@ == s@ + suffix@,
{
    push_str(&mut s, suffix);
    s
}

fn count_message(what: &str, found: usize) -> (s: String)
    ensures
        s@ == count_text(what@, found as nat),
{
    let mut out = String::new();
    push_str(&mut out, what);
    push_str(&mut out, " (expected one type argument, found ");
    let d = decimal(found);
    push_str(&mut out, d.as_str());
    push_str(&mut out, ")");
    out
}

fn user_display(db: &Db, user: UserTyCtor, args: &Vec<Ty>) -> (s: String)
    ensures
        s@ == ty_text(db, user_ty(user, tys_view(args@))),
{
    let t = Ty::Named { ctor: TyCtor::User(user), args: crate::ty::copy_tys(args) };
    display_ty(db, &t)
}

/// `uint256`, `address`, `bytes4` or `bytes32` when `user` is that
/// definition of the root std module.
pub fn canonical_user_abi_name(db: &Db, user: UserTyCtor) -> (r: Option<String>)
    ensures
        match r {
            Some(s) => canonical_user_name(db, user) == Some(s@),
            None => canonical_user_name(db, user) is None,
        },
{
    let name = db.name(user.def)?;
    if !(db.def_info(user.def).unwrap().location == DefLocation::StdRoot) {
        return None;
    }
    let n = name.as_str();
    if str_eq(n, "uint256") || str_eq(n, "address") || str_eq(n, "bytes4") || str_eq(n, "bytes32") {
        Some(name.clone())
    } else {
        None
    }
}

/// The element `t` of the canonical `calldata(array(t))`; other applications
/// of the canonical `calldata` are errors, and other constructors give `None`.
pub fn canonical_calldata_array_element<'a>(db: &Db, user: UserTyCtor, args: &'a Vec<Ty>) -> (r: Result<Option<&'a Ty>, String>)
    ensures
        match r {
            Ok(Some(t)) => calldata_element(db, user, tys_view(args@)) == Ok::<Option<TyView>, Seq<char>>(Some(t@)),
            Ok(None) => calldata_element(db, user, tys_view(args@)) == Ok::<Option<TyView>, Seq<char>>(None),
            Err(e) => calldata_element(db, user, tys_view(args@)) == Err::<Option<TyView>, Seq<char>>(e@),
        },
{
    proof {
        lemma_tys_view(args@);
    }
    if !crate::ty::is_canonical_std_def_named(db, user.def, "calldata") {
        return Ok(None);
    }
    if args.len() != 1 {
        return Err(count_message("calldata", args.len()));
    }
    let inner = &args[0];
    match inner {
        Ty::Named { ctor: TyCtor::User(array), args: elements } => {
            proof {
                lemma_tys_view(elements@);
            }
            if !crate::ty::is_canonical_std_def_named(db, array.def, "array") {
                return Err(with_suffix(display_ty(db, inner), " (only the canonical std array supports calldata ABI decoding)"));
            }
            if elements.len() != 1 {
                return Err(count_message("array", elements.len()));
            }
            Ok(Some(&elements[0]))
        },
        _ => Err(with_suffix(display_ty(db, inner), " (only calldata(array(t)) has canonical external ABI evidence)")),
    }
}

fn is_location_name_str(n: &str) -> (b: bool)
    ensures
        b == is_location_name(n@),
{
    str_eq(n, "memory") || str_eq(n, "calldata") || str_eq(n, "storage") || str_eq(n, "mapping")
}

/// `string` and `bytes` for the canonical `memory(string)` and
/// `memory(bytes)`; other canonical std locations are errors.
pub fn canonical_location_abi_name(db: &Db, user: UserTyCtor, args: &Vec<Ty>) -> (r: Result<Option<String>, String>)
    ensures
        match r {
            Ok(Some(s)) => location_name(db, user, tys_view(args@)) == Ok::<Option<Seq<char>>, Seq<char>>(Some(s@)),
            Ok(None) => location_name(db, user, tys_view(args@)) == Ok::<Option<Seq<char>>, Seq<char>>(None),
            Err(e) => location_name(db, user, tys_view(args@)) == Err::<Option<Seq<char>>, Seq<char>>(e@),
        },
{
    proof {
        lemma_tys_view(args@);
    }
    let name = match db.name(user.def) {
        Some(n) => n,
        None => return Ok(None),
    };
    if !is_location_name_str(name.as_str()) || !(db.def_info(user.def).unwrap().location == DefLocation::StdRoot) {
        return Ok(None);
    }
    if !str_eq(name.as_str(), "memory") {
        let mut msg = user_display(db, user, args);
        push_str(&mut msg, " (");
        push_str(&mut msg, name.as_str());
        push_str(&mut msg, " values are not supported by the canonical external ABI)");
        return Err(msg);
    }
    if args.len() != 1 {
        return Err(count_message("memory", args.len()));
    }
    let inner = &args[0];
    match inner {
        Ty::Named { ctor: TyCtor::User(inner_user), args: inner_args } => {
            proof {
                lemma_tys_view(inner_args@);
            }
            if inner_args.len() != 0 {
                return Err(with_suffix(display_ty(db, inner), " (only memory(string) and memory(bytes) have canonical ABI evidence)"));
            }
            let inner_name = match db.name(inner_user.def) {
                Some(n) => n,
                None => return Ok(None),
            };
            if (str_eq(inner_name.as_str(), "string") || str_eq(inner_name.as_str(), "bytes"))
                && db.def_info(inner_user.def).unwrap().location == DefLocation::StdRoot {
                return Ok(Some(inner_name.clone()));
            }
            Err(with_suffix(display_ty(db, inner), " (only memory(string) and memory(bytes) have canonical ABI evidence)"))
        },
        _ => Err(with_suffix(display_ty(db, inner), " (only memory(string) and memory(bytes) have canonical ABI evidence)")),
    }
}

/// Rejects standard-library types that reach the structural fallback.
pub fn reject_structural_std_abi_fallback(db: &Db, user: UserTyCtor, args: &Vec<Ty>) -> (r: Result<(), String>)
    ensures
        match r {
            Ok(_) => std_fallback(db, user, tys_view(args@)) == Ok::<(), Seq<char>>(()),
            Err(e) => std_fallback(db, user, tys_view(args@)) == Err::<(), Seq<char>>(e@),
        },
{
    let is_std = match db.def_info(user.def) {
        Some(info) => info.location == DefLocation::StdRoot || info.location == DefLocation::StdLibrary,
        None => false,
    };
    if !is_std {
        return Ok(());
    }
    let mut msg = user_display(db, user, args);
    push_str(&mut msg, " (standard-library type `");
    match db.name(user.def) {
        Some(n) => push_str(&mut msg, n.as_str()),
        None => push_str(&mut msg, "<anonymous standard-library type>"),
    }
    push_str(&mut msg, "` has no canonical external ABI evidence)");
    Err(msg)
}

/// The error text for a user ADT that has no canonical external ABI.
pub fn unsupported_user_adt_abi_type(db: &Db, user: UserTyCtor, args: &Vec<Ty>) -> (s: String)
    ensures
        s@ == unsupported_user_adt_text(db, user, tys_view(args@)),
{
    with_suffix(user_display(db, user, args), " (user-defined ADTs are not supported by the canonical external ABI)")
}

} // verus!

verus! {

/// The checks before expanding a user ADT through its compiler-owned
/// `Generic` representation; returns that representation.
fn compiler_owned_generic_rep<'a>(
    db: &'a Db,
    ev: &AbiAdtEvidence,
    user: UserTyCtor,
    args: &Vec<Ty>,
    stack: &Vec<Ty>,
) -> (r: Result<&'a Ty, String>)
    ensures
        match r {
            Ok(rep) => owned_rep(db, ev.manual(), ev.derived(), user, tys_view(args@), tys_view(stack@)) == Ok::<TyView, Seq<char>>(rep@),
            Err(e) => owned_rep(db, ev.manual(), ev.derived(), user, tys_view(args@), tys_view(stack@)) == Err::<TyView, Seq<char>>(e@),
        },
{
    proof {
        lemma_tys_view(args@);
    }
    let def = user.def;
    let concrete = concrete_user_ty(user, args);
    proof {
        lemma_tys_view(stack@);
    }
    if ty_stack_contains(stack, &concrete) {
        return Err(with_suffix(adt_display_name(db, def), " (recursive ADTs have no finite external ABI signature)"));
    }
    let info = db.def_info(def);
    let excluded = match info {
        Some(i) => i.generic_excluded || i.local_generic_instance,
        None => false,
    };
    if ev.has_manual_generic(def) || excluded {
        return Err(with_suffix(adt_display_name(db, def), " (manual or excluded Generic representations are not canonical ABI layouts)"));
    }
    let info = match info {
        Some(i) => i,
        None => return Err(with_suffix(adt_display_name(db, def), " (definition is unavailable for ABI lowering)")),
    };
    let shape = match &info.adt {
        Some(s) => s,
        None => return Err(with_suffix(adt_display_name(db, def), " (definition is unavailable for ABI lowering)")),
    };
    if shape.param_count != args.len() {
        let mut msg = adt_display_name(db, def);
        push_str(&mut msg, " (expected ");
        let p = decimal(shape.param_count);
        push_str(&mut msg, p.as_str());
        push_str(&mut msg, " ABI type arguments, found ");
        let a = decimal(args.len());
        push_str(&mut msg, a.as_str());
        push_str(&mut msg, ")");
        return Err(msg);
    }
    if !info.generic_class_visible {
        return Err(unsupported_user_adt_abi_type(db, user, args));
    }
    let rep = match &shape.generic_rep {
        Some(rep) => rep,
        None => return Err(with_suffix(adt_display_name(db, def), " (cannot derive its compiler-owned Generic ABI representation)")),
    };
    if !info.abi_derivation_enabled {
        return Err(with_suffix(adt_display_name(db, def), " (its defining module does not enable compiler-owned ABI derivation; import std.ABIGeneric there)"));
    }
    if ty_mentions_adt(rep, def) {
        return Err(with_suffix(adt_display_name(db, def), " (recursive ADTs have no finite external ABI signature)"));
    }
    if !ev.has_derived_abi(def) {
        return Err(with_suffix(adt_display_name(db, def), " (compiler-owned ABIAttribs and ABIDecode evidence is not visible from the contract module; add an instance import of its defining module along the re-export path)"));
    }
    if stack.len() >= usize::MAX {
        return Err(with_suffix(adt_display_name(db, def), " (ABI expansion stack is full)"));
    }
    Ok(rep)
}

/// The `SigString` of a user ADT through its compiler-owned `Generic`
/// representation: its arguments must render, then the substituted
/// representation is rendered with the ADT on the expansion stack.
fn compiler_owned_generic_sig_string(
    db: &Db,
    ev: &AbiAdtEvidence,
    user: UserTyCtor,
    args: &Vec<Ty>,
    stack: &Vec<Ty>,
) -> (r: Result<String, String>)
    ensures
        res_text(r) == owned_sig(db, ev.manual(), ev.derived(), user, tys_view(args@), tys_view(stack@)),
    decreases expansion_budget(tys_view(stack@)), tvs_size(tys_view(args@)) + 1, 1nat,
{
    proof {
        lemma_tys_view(args@);
        lemma_tys_view_take(args@, args@.len() as int);
        assert(args@.take(args@.len() as int) =~= args@);
        assert(tys_view(args@).take(args@.len() as int) =~= tys_view(args@));
    }
    let rep = compiler_owned_generic_rep(db, ev, user, args, stack)?;
    let inner = ty_stack_pushed(stack, concrete_user_ty(user, args));
    generic_parts_prefix(db, ev, args, args.len(), &inner)?;
    let rep_sub = substitute_bound_tys(rep, args);
    generic_sig_string(db, ev, &rep_sub, &inner)
}

/// The shared rendering of a user type constructor application.
fn user_sig_string(db: &Db, ev: &AbiAdtEvidence, user: UserTyCtor, args: &Vec<Ty>, stack: &Vec<Ty>) -> (r: Result<String, String>)
    ensures
        res_text(r) == user_sig(db, ev.manual(), ev.derived(), user, tys_view(args@), tys_view(stack@)),
    decreases expansion_budget(tys_view(stack@)), tvs_size(tys_view(args@)) + 1, 2nat,
{
    proof {
        lemma_tys_view(args@);
    }
    if args.len() == 0 {
        if let Some(name) = canonical_user_abi_name(db, user) {
            return Ok(name);
        }
    }
    match canonical_calldata_array_element(db, user, args)? {
        Some(element) => {
            proof {
                lemma_tvs_size_elem(tys_view(args@), 0);
                if let TyView::Named { args: elements, .. } = tys_view(args@)[0] {
                    lemma_tvs_size_elem(elements, 0);
                }
            }
            let s = generic_sig_string(db, ev, element, stack)?;
            return Ok(with_suffix(s, "[]"));
        },
        None => {},
    }
    if let Some(name) = canonical_location_abi_name(db, user, args)? {
        return Ok(name);
    }
    reject_structural_std_abi_fallback(db, user, args)?;
    compiler_owned_generic_sig_string(db, ev, user, args, stack)
}

/// The final `SigString` that the target standard library produces:
/// products are comma-joined without a tuple wrapper, sums keep their
/// `sum(l,r)` wrapper, and derived ADTs recurse through their `Generic`
/// representation.
pub fn generic_sig_string(db: &Db, ev: &AbiAdtEvidence, ty: &Ty, stack: &Vec<Ty>) -> (r: Result<String, String>)
    ensures
        res_text(r) == generic_sig(db, ev.manual(), ev.derived(), ty@, tys_view(stack@)),
    decreases expansion_budget(tys_view(stack@)), tv_size(ty@), 3nat,
{
    match ty {
        Ty::Named { ctor: TyCtor::Builtin(b), args } if args.len() == 0 && (b == &BuiltinTyCtor::Word
            || b == &BuiltinTyCtor::Bool || b == &BuiltinTyCtor::String || b == &BuiltinTyCtor::Unit) => {
            proof {
                lemma_tys_view(args@);
            }
            let mut out = String::new();
            match b {
                BuiltinTyCtor::Word => push_str(&mut out, "uint256"),
                BuiltinTyCtor::Bool => push_str(&mut out, "bool"),
                BuiltinTyCtor::String => push_str(&mut out, "string"),
                _ => {},
            }
            Ok(out)
        },
        Ty::Tuple(elems) => generic_product_sig_string(db, ev, elems, stack),
        Ty::Named { ctor: TyCtor::Builtin(BuiltinTyCtor::Pair), args } if args.len() == 2 => {
            proof {
                lemma_tys_view(args@);
            }
            generic_product_sig_string(db, ev, args, stack)
        },
        Ty::Named { ctor: TyCtor::Builtin(BuiltinTyCtor::Sum), args } if args.len() == 2 => {
            proof {
                lemma_tys_view(args@);
                lemma_tvs_size_elem(tys_view(args@), 0);
                lemma_tvs_size_elem(tys_view(args@), 1);
            }
            let l = generic_sig_string(db, ev, &args[0], stack)?;
            let r = generic_sig_string(db, ev, &args[1], stack)?;
            let mut out = String::new();
            push_str(&mut out, "sum(");
            push_str(&mut out, l.as_str());
            push_str(&mut out, ",");
            push_str(&mut out, r.as_str());
            push_str(&mut out, ")");
            Ok(out)
        },
        Ty::Named { ctor: TyCtor::User(user), args } => user_sig_string(db, ev, *user, args, stack),
        _ => {
            proof {
                if let Ty::Named { args, .. } = ty {
                    lemma_tys_view(args@);
                }
            }
            Err(display_ty(db, ty))
        },
    }
}

fn generic_product_sig_string(db: &Db, ev: &AbiAdtEvidence, elems: &Vec<Ty>, stack: &Vec<Ty>) -> (r: Result<String, String>)
    ensures
        res_text(r) == (match generic_parts(db, ev.manual(), ev.derived(), tys_view(elems@), tys_view(stack@)) {
            Err(e) => Err(e),
            Ok(parts) => Ok(crate::text::join_seqs(parts, ","@)),
        }),
    decreases expansion_budget(tys_view(stack@)), tvs_size(tys_view(elems@)) + 1, 0nat,
{
    proof {
        lemma_tys_view(elems@);
        lemma_tys_view_take(elems@, elems@.len() as int);
        assert(elems@.take(elems@.len() as int) =~= elems@);
        assert(tys_view(elems@).take(elems@.len() as int) =~= tys_view(elems@));
    }
    let parts = generic_parts_prefix(db, ev, elems, elems.len(), stack)?;
    Ok(join_strings(&parts, ","))
}

/// `generic_sig_string` of the first `n` elements, left to right.
fn generic_parts_prefix(db: &Db, ev: &AbiAdtEvidence, elems: &Vec<Ty>, n: usize, stack: &Vec<Ty>) -> (r: Result<Vec<String>, String>)
    requires
        n <= elems@.len(),
    ensures
        match r {
            Ok(v) => generic_parts(db, ev.manual(), ev.derived(), tys_view(elems@).take(n as int), tys_view(stack@)) == Ok::<Seq<Seq<char>>, Seq<char>>(strings_view(v@)),
            Err(e) => generic_parts(db, ev.manual(), ev.derived(), tys_view(elems@).take(n as int), tys_view(stack@)) == Err::<Seq<Seq<char>>, Seq<char>>(e@),
        },
    decreases expansion_budget(tys_view(stack@)), tvs_size(tys_view(elems@).take(n as int)), 4nat,
{
    proof {
        lemma_tys_view(elems@);
    }
    let ghost s = tys_view(elems@).take(n as int);
    if n == 0 {
        let v: Vec<String> = Vec::new();
        proof {
            assert(s.len() == 0);
            assert(strings_view(v@) =~= Seq::<Seq<char>>::empty());
        }
        return Ok(v);
    }
    proof {
        assert(s.drop_last() =~= tys_view(elems@).take(n - 1));
        assert(s.last() == elems@[n - 1]@);
        lemma_tvs_size_elem(s, s.len() - 1);
    }
    let mut parts = generic_parts_prefix(db, ev, elems, n - 1, stack)?;
    let p = generic_sig_string(db, ev, &elems[n - 1], stack)?;
    proof {
        assert(strings_view(parts@.push(p)) =~= strings_view(parts@).push(p@));
    }
    parts.push(p);
    Ok(parts)
}

} // verus!

verus! {

/// Canonical rendering of one method parameter type.
pub fn signature_type_string(db: &Db, ev: &AbiAdtEvidence, ty: &Ty) -> (r: Result<String, String>)
    ensures
        res_text(r) == sig_top(db, ev.manual(), ev.derived(), ty@),
    decreases tv_size(ty@), 1nat,
{
    match ty {
        Ty::Named { ctor: TyCtor::Builtin(b), args } if args.len() == 0 && (b == &BuiltinTyCtor::Word
            || b == &BuiltinTyCtor::Bool || b == &BuiltinTyCtor::String || b == &BuiltinTyCtor::Unit) => {
            proof {
                lemma_tys_view(args@);
            }
            let mut out = String::new();
            match b {
                BuiltinTyCtor::Word => push_str(&mut out, "uint256"),
                BuiltinTyCtor::Bool => push_str(&mut out, "bool"),
                BuiltinTyCtor::String => push_str(&mut out, "string"),
                _ => {},
            }
            Ok(out)
        },
        Ty::Tuple(elems) => tuple_signature_string(db, ev, elems),
        Ty::Named { ctor: TyCtor::Builtin(BuiltinTyCtor::Pair), args } if args.len() == 2 => {
            proof {
                lemma_tys_view(args@);
            }
            tuple_signature_string(db, ev, args)
        },
        Ty::Named { ctor: TyCtor::User(user), args } => {
            let empty: Vec<Ty> = Vec::new();
            proof {
                assert(tys_view(empty@) =~= Seq::<TyView>::empty());
            }
            user_sig_string(db, ev, *user, args, &empty)
        },
        _ => {
            proof {
                if let Ty::Named { args, .. } = ty {
                    lemma_tys_view(args@);
                }
            }
            Err(display_ty(db, ty))
        },
    }
}

/// `(p1,p2,..)` over the flattened tuple elements.
fn tuple_signature_string(db: &Db, ev: &AbiAdtEvidence, elems: &Vec<Ty>) -> (r: Result<String, String>)
    ensures
        res_text(r) == (match top_parts(db, ev.manual(), ev.derived(), flatten(tys_view(elems@))) {
            Err(e) => Err(e),
            Ok(parts) => Ok("("@ + crate::text::join_seqs(parts, ","@) + ")"@),
        }),
    decreases tvs_size(tys_view(elems@)) + 1, 0nat,
{
    let flat = flatten_tuple(elems);
    proof {
        lemma_flatten_size(tys_view(elems@));
        lemma_tys_view(flat@);
        lemma_tys_view_take(flat@, flat@.len() as int);
        assert(flat@.take(flat@.len() as int) =~= flat@);
        assert(tys_view(flat@).take(flat@.len() as int) =~= tys_view(flat@));
    }
    let parts = top_parts_prefix(db, ev, &flat, flat.len())?;
    let mut out = String::new();
    push_str(&mut out, "(");
    let joined = join_strings(&parts, ",");
    push_str(&mut out, joined.as_str());
    push_str(&mut out, ")");
    Ok(out)
}

fn top_parts_prefix(db: &Db, ev: &AbiAdtEvidence, elems: &Vec<Ty>, n: usize) -> (r: Result<Vec<String>, String>)
    requires
        n <= elems@.len(),
    ensures
        match r {
            Ok(v) => top_parts(db, ev.manual(), ev.derived(), tys_view(elems@).take(n as int)) == Ok::<Seq<Seq<char>>, Seq<char>>(strings_view(v@)),
            Err(e) => top_parts(db, ev.manual(), ev.derived(), tys_view(elems@).take(n as int)) == Err::<Seq<Seq<char>>, Seq<char>>(e@),
        },
    decreases tvs_size(tys_view(elems@).take(n as int)), 2nat,
{
    proof {
        lemma_tys_view(elems@);
    }
    let ghost s = tys_view(elems@).take(n as int);
    if n == 0 {
        let v: Vec<String> = Vec::new();
        proof {
            assert(s.len() == 0);
            assert(strings_view(v@) =~= Seq::<Seq<char>>::empty());
        }
        return Ok(v);
    }
    proof {
        assert(s.drop_last() =~= tys_view(elems@).take(n - 1));
        assert(s.last() == elems@[n - 1]@);
        lemma_tvs_size_elem(s, s.len() - 1);
    }
    let mut parts = top_parts_prefix(db, ev, elems, n - 1)?;
    let p = signature_type_string(db, ev, &elems[n - 1])?;
    proof {
        assert(strings_view(parts@.push(p)) =~= strings_view(parts@).push(p@));
    }
    parts.push(p);
    Ok(parts)
}

/// The canonical ABI signature `name(t1,t2,..)` of a method.
pub fn method_signature_string(db: &Db, name: &str, params: &Vec<Ty>, ev: &AbiAdtEvidence) -> (r: Result<String, String>)
    ensures
        res_text(r) == method_sig(db, ev.manual(), ev.derived(), name@, tys_view(params@)),
{
    let mut parts: Vec<String> = Vec::new();
    let mut i: usize = 0;
    proof {
        lemma_tys_view(params@);
        assert(tys_view(params@).take(0).len() == 0);
        assert(strings_view(parts@) =~= Seq::<Seq<char>>::empty());
    }
    while i < params.len()
        invariant
            i <= params@.len(),
            tys_view(params@).len() == params@.len(),
            forall|k: int| 0 <= k < params@.len() ==> #[trigger] tys_view(params@)[k] == params@[k]@,
            top_list(db, ev.manual(), ev.derived(), tys_view(params@).take(i as int)) == Ok::<Seq<Seq<char>>, Seq<char>>(strings_view(parts@)),
        decreases params@.len() - i,
    {
        let ghost s = tys_view(params@).take(i as int + 1);
        proof {
            assert(s.drop_last() =~= tys_view(params@).take(i as int));
            assert(s.last() == params@[i as int]@);
        }
        let p = signature_type_string(db, ev, &params[i]);
        match p {
            Ok(p) => {
                proof {
                    assert(strings_view(parts@.push(p)) =~= strings_view(parts@).push(p@));
                }
                parts.push(p);
            },
            Err(e) => {
                proof {
                    lemma_top_list_prefix_err(db, ev.manual(), ev.derived(), tys_view(params@), i as int + 1);
                }
                return Err(e);
            },
        }
        i = i + 1;
    }
    proof {
        assert(tys_view(params@).take(params@.len() as int) =~= tys_view(params@));
    }
    let mut out = String::new();
    push_str(&mut out, name);
    push_str(&mut out, "(");
    let joined = join_strings(&parts, ",");
    push_str(&mut out, joined.as_str());
    push_str(&mut out, ")");
    Ok(out)
}

proof fn lemma_top_list_prefix_err(db: &Db, manual: Set<DefId>, derived: Set<DefId>, s: Seq<TyView>, k: int)
    requires
        0 <= k <= s.len(),
        top_list(db, manual, derived, s.take(k)) is Err,
    ensures
        top_list(db, manual, derived, s) == top_list(db, manual, derived, s.take(k)),
    decreases s.len(),
{
    if k < s.len() {
        assert(s.drop_last().take(k) =~= s.take(k));
        lemma_top_list_prefix_err(db, manual, derived, s.drop_last(), k);
    } else {
        assert(s.take(k) =~= s);
    }
}

} // verus!

verus! {

/// Canonical ABI type.
#[derive(Debug, PartialEq, Eq, Hash)]
pub enum AbiType {
    Uint256,
    Bool,
    String,
    Unit,
    Tuple,
    Named(String),
    Unsupported,
}

impl View for AbiType {
    type V = AbiTy;

    open spec fn view(&self) -> AbiTy {
        match self {
            AbiType::Uint256 => AbiTy::Uint256,
            AbiType::Bool => AbiTy::Bool,
            AbiType::String => AbiTy::String,
            AbiType::Unit => AbiTy::Unit,
            AbiType::Tuple => AbiTy::Tuple,
            AbiType::Named(n) => AbiTy::Named(n@),
            AbiType::Unsupported => AbiTy::Unsupported,
        }
    }
}

impl AbiType {
    /// The ABI type as written in signatures and JSON ABI `type` fields
    /// (the unit type renders as the empty string).
    pub fn to_text(&self) -> (s: String)
        ensures
            s@ == abi_ty_text(self@),
    {
        let mut out = String::new();
        match self {
            AbiType::Uint256 => push_str(&mut out, "uint256"),
            AbiType::Bool => push_str(&mut out, "bool"),
            AbiType::String => push_str(&mut out, "string"),
            AbiType::Unit => {},
            AbiType::Tuple => push_str(&mut out, "tuple"),
            AbiType::Named(name) => push_str(&mut out, name.as_str()),
            AbiType::Unsupported => push_str(&mut out, "<unsupported>"),
        }
        out
    }
}

/// ABI parameter or tuple component.
#[derive(Debug, PartialEq, Eq, Hash)]
pub struct AbiParam {
    /// Parameter name. Outputs and tuple components use the empty name.
    pub name: String,
    /// Canonical ABI type.
    pub ty: AbiType,
    /// Tuple components, if `ty` is `AbiType::Tuple`.
    pub components: Vec<AbiParam>,
}

pub open spec fn param_view(p: AbiParam) -> AbiParamV
    decreases p,
{
    AbiParamV { name: p.name@, ty: p.ty@, components: params_view(p.components@) }
}

pub open spec fn params_view(s: Seq<AbiParam>) -> Seq<AbiParamV>
    decreases s,
{
    if s.len() == 0 {
        Seq::empty()
    } else {
        params_view(s.drop_last()).push(param_view(s.last()))
    }
}

impl View for AbiParam {
    type V = AbiParamV;

    open spec fn view(&self) -> AbiParamV {
        param_view(*self)
    }
}

proof fn lemma_params_view_push(s: Seq<AbiParam>, p: AbiParam)
    ensures
        params_view(s.push(p)) == params_view(s).push(param_view(p)),
{
    assert(s.push(p).drop_last() =~= s);
}

pub open spec fn abi_of_view(r: Result<(AbiType, Vec<AbiParam>), String>) -> AbiOf {
    match r {
        Ok((t, c)) => Ok((t@, params_view(c@))),
        Err(e) => Err(e@),
    }
}

/// The ABI name of a user ADT lowered through its `Generic` representation.
fn compiler_owned_generic_source_name(db: &Db, ev: &AbiAdtEvidence, user: UserTyCtor, args: &Vec<Ty>) -> (r: Result<String, String>)
    ensures
        res_text(r) == owned_source_name(db, ev.manual(), ev.derived(), user, tys_view(args@)),
{
    let empty: Vec<Ty> = Vec::new();
    proof {
        assert(tys_view(empty@) =~= Seq::<TyView>::empty());
        lemma_tys_view(args@);
    }
    compiler_owned_generic_sig_string(db, ev, user, args, &empty)?;
    if args.len() == 0 {
        Ok(adt_display_name(db, user.def))
    } else {
        Ok(user_display(db, user, args))
    }
}

fn unnamed_param(ty: AbiType, components: Vec<AbiParam>) -> (p: AbiParam)
    ensures
        p@ == (AbiParamV { name: Seq::empty(), ty: ty@, components: params_view(components@) }),
{
    let name = String::new();
    AbiParam { name, ty, components }
}

/// The canonical ABI type of `ty`, with its tuple components.
pub fn abi_type_of(db: &Db, ev: &AbiAdtEvidence, ty: &Ty) -> (r: Result<(AbiType, Vec<AbiParam>), String>)
    ensures
        abi_of_view(r) == abi_of(db, ev.manual(), ev.derived(), ty@),
    decreases tv_size(ty@), 1nat,
{
    match ty {
        Ty::Named { ctor: TyCtor::Builtin(b), args } if args.len() == 0 && (b == &BuiltinTyCtor::Word
            || b == &BuiltinTyCtor::Bool || b == &BuiltinTyCtor::String || b == &BuiltinTyCtor::Unit) => {
            proof {
                lemma_tys_view(args@);
            }
            let t = match b {
                BuiltinTyCtor::Word => AbiType::Uint256,
                BuiltinTyCtor::Bool => AbiType::Bool,
                BuiltinTyCtor::String => AbiType::String,
                _ => AbiType::Unit,
            };
            let c: Vec<AbiParam> = Vec::new();
            proof {
                assert(params_view(c@) =~= Seq::<AbiParamV>::empty());
            }
            Ok((t, c))
        },
        Ty::Tuple(elems) => {
            proof {
                lemma_tys_view(elems@);
            }
            if elems.len() == 0 {
                let c: Vec<AbiParam> = Vec::new();
                proof {
                    assert(params_view(c@) =~= Seq::<AbiParamV>::empty());
                }
                return Ok((AbiType::Unit, c));
            }
            let c = abi_tuple_components(db, ev, elems)?;
            Ok((AbiType::Tuple, c))
        },
        Ty::Named { ctor: TyCtor::Builtin(BuiltinTyCtor::Pair), args } if args.len() == 2 => {
            proof {
                lemma_tys_view(args@);
            }
            let c = abi_tuple_components(db, ev, args)?;
            Ok((AbiType::Tuple, c))
        },
        Ty::Named { ctor: TyCtor::User(user), args } => {
            proof {
                lemma_tys_view(args@);
            }
            let empty: Vec<AbiParam> = Vec::new();
            proof {
                assert(params_view(empty@) =~= Seq::<AbiParamV>::empty());
            }
            if args.len() == 0 {
                if let Some(name) = canonical_user_abi_name(db, *user) {
                    return Ok((AbiType::Named(name), empty));
                }
            }
            match canonical_calldata_array_element(db, *user, args)? {
                Some(element) => {
                    proof {
                        lemma_tvs_size_elem(tys_view(args@), 0);
                        if let TyView::Named { args: elements, .. } = tys_view(args@)[0] {
                            lemma_tvs_size_elem(elements, 0);
                        }
                    }
                    let (element_ty, components) = abi_type_of(db, ev, element)?;
                    let name = with_suffix(element_ty.to_text(), "[]");
                    return Ok((AbiType::Named(name), components));
                },
                None => {},
            }
            if let Some(name) = canonical_location_abi_name(db, *user, args)? {
                return Ok((AbiType::Named(name), empty));
            }
            reject_structural_std_abi_fallback(db, *user, args)?;
            let name = compiler_owned_generic_source_name(db, ev, *user, args)?;
            Ok((AbiType::Named(name), empty))
        },
        _ => {
            proof {
                if let Ty::Named { args, .. } = ty {
                    lemma_tys_view(args@);
                }
            }
            Err(display_ty(db, ty))
        },
    }
}

fn abi_tuple_components(db: &Db, ev: &AbiAdtEvidence, elems: &Vec<Ty>) -> (r: Result<Vec<AbiParam>, String>)
    ensures
        match r {
            Ok(v) => abi_components(db, ev.manual(), ev.derived(), flatten(tys_view(elems@))) == Ok::<Seq<AbiParamV>, Seq<char>>(params_view(v@)),
            Err(e) => abi_components(db, ev.manual(), ev.derived(), flatten(tys_view(elems@))) == Err::<Seq<AbiParamV>, Seq<char>>(e@),
        },
    decreases tvs_size(tys_view(elems@)) + 1, 0nat,
{
    let flat = flatten_tuple(elems);
    proof {
        lemma_flatten_size(tys_view(elems@));
        lemma_tys_view(flat@);
        lemma_tys_view_take(flat@, flat@.len() as int);
        assert(flat@.take(flat@.len() as int) =~= flat@);
        assert(tys_view(flat@).take(flat@.len() as int) =~= tys_view(flat@));
    }
    abi_components_prefix(db, ev, &flat, flat.len())
}

fn abi_components_prefix(db: &Db, ev: &AbiAdtEvidence, elems: &Vec<Ty>, n: usize) -> (r: Result<Vec<AbiParam>, String>)
    requires
        n <= elems@.len(),
    ensures
        match r {
            Ok(v) => abi_components(db, ev.manual(), ev.derived(), tys_view(elems@).take(n as int)) == Ok::<Seq<AbiParamV>, Seq<char>>(params_view(v@)),
            Err(e) => abi_components(db, ev.manual(), ev.derived(), tys_view(elems@).take(n as int)) == Err::<Seq<AbiParamV>, Seq<char>>(e@),
        },
    decreases tvs_size(tys_view(elems@).take(n as int)), 2nat,
{
    proof {
        lemma_tys_view(elems@);
    }
    let ghost s = tys_view(elems@).take(n as int);
    if n == 0 {
        let v: Vec<AbiParam> = Vec::new();
        proof {
            assert(s.len() == 0);
            assert(params_view(v@) =~= Seq::<AbiParamV>::empty());
        }
        return Ok(v);
    }
    proof {
        assert(s.drop_last() =~= tys_view(elems@).take(n - 1));
        assert(s.last() == elems@[n - 1]@);
        lemma_tvs_size_elem(s, s.len() - 1);
    }
    let mut params = abi_components_prefix(db, ev, elems, n - 1)?;
    let (t, c) = abi_type_of(db, ev, &elems[n - 1])?;
    let p = unnamed_param(t, c);
    proof {
        lemma_params_view_push(params@, p);
    }
    params.push(p);
    Ok(params)
}

} // verus!

verus! {

/// Whether `ty` contains the canonical `calldata(array(t))`, which is
/// input-only.
pub fn contains_canonical_calldata_array(db: &Db, ty: &Ty) -> (b: bool)
    ensures
        b == contains_calldata_array(db, ty@, Seq::empty()),
{
    let empty: Vec<Ty> = Vec::new();
    proof {
        assert(tys_view(empty@) =~= Seq::<TyView>::empty());
    }
    contains_canonical_calldata_array_inner(db, ty, &empty)
}

fn contains_canonical_calldata_array_inner(db: &Db, ty: &Ty, stack: &Vec<Ty>) -> (b: bool)
    ensures
        b == contains_calldata_array(db, ty@, tys_view(stack@)),
    decreases expansion_budget(tys_view(stack@)), tv_size(ty@), 1nat,
{
    match ty {
        Ty::Named { ctor: TyCtor::User(user), args } => {
            proof {
                lemma_tys_view(args@);
                lemma_tys_view_take(args@, args@.len() as int);
                assert(args@.take(args@.len() as int) =~= args@);
                assert(tys_view(args@).take(args@.len() as int) =~= tys_view(args@));
            }
            let direct = match canonical_calldata_array_element(db, *user, args) {
                Ok(Some(_)) => true,
                _ => false,
            };
            if direct || any_contains_calldata_prefix(db, args, args.len(), stack) {
                return true;
            }
            let concrete = concrete_user_ty(*user, args);
            proof {
                lemma_tys_view(stack@);
            }
            if ty_stack_contains(stack, &concrete) {
                return false;
            }
            let info = match db.def_info(user.def) {
                Some(i) => i,
                None => return false,
            };
            let shape = match &info.adt {
                Some(s) => s,
                None => return false,
            };
            if !info.generic_class_visible {
                return false;
            }
            let rep = match &shape.generic_rep {
                Some(r) => r,
                None => return false,
            };
            if ty_mentions_adt(rep, user.def) || stack.len() >= usize::MAX {
                return false;
            }
            let rep_sub = substitute_bound_tys(rep, args);
            let inner = ty_stack_pushed(stack, concrete);
            contains_canonical_calldata_array_inner(db, &rep_sub, &inner)
        },
        Ty::Named { args, .. } => {
            proof {
                lemma_tys_view_take(args@, args@.len() as int);
                assert(args@.take(args@.len() as int) =~= args@);
            }
            any_contains_calldata_prefix(db, args, args.len(), stack)
        },
        Ty::Tuple(args) => {
            proof {
                lemma_tys_view_take(args@, args@.len() as int);
                assert(args@.take(args@.len() as int) =~= args@);
            }
            any_contains_calldata_prefix(db, args, args.len(), stack)
        },
        Ty::Function { params, ret } => {
            proof {
                lemma_tys_view_take(params@, params@.len() as int);
                assert(params@.take(params@.len() as int) =~= params@);
            }
            any_contains_calldata_prefix(db, params, params.len(), stack)
                || contains_canonical_calldata_array_inner(db, ret, stack)
        },
        Ty::Comptime(inner) => contains_canonical_calldata_array_inner(db, inner, stack),
        _ => false,
    }
}

fn any_contains_calldata_prefix(db: &Db, elems: &Vec<Ty>, n: usize, stack: &Vec<Ty>) -> (b: bool)
    requires
        n <= elems@.len(),
    ensures
        b == any_contains_calldata_array(db, tys_view(elems@).take(n as int), tys_view(stack@)),
    decreases expansion_budget(tys_view(stack@)), tvs_size(tys_view(elems@).take(n as int)), 2nat,
{
    proof {
        lemma_tys_view(elems@);
    }
    let ghost s = tys_view(elems@).take(n as int);
    if n == 0 {
        return false;
    }
    proof {
        assert(s.drop_last() =~= tys_view(elems@).take(n - 1));
        assert(s.last() == elems@[n - 1]@);
        lemma_tvs_size_elem(s, s.len() - 1);
    }
    any_contains_calldata_prefix(db, elems, n - 1, stack)
        || contains_canonical_calldata_array_inner(db, &elems[n - 1], stack)
}

} // verus!

verus! {

/// The diagnostic reported when a type cannot be represented in the ABI.
pub fn contract_diag_unsupported_abi_type(span: Span, context: &str, ty: &str) -> (d: Diagnostic)
    ensures
        d@ == contract_diag(span, context@, ty@),
{
    let mut message = String::new();
    push_str(&mut message, context);
    push_str(&mut message, " cannot be represented in the ABI: ");
    push_str(&mut message, ty);
    let mut code = String::new();
    push_str(&mut code, "SC0231");
    let mut label = String::new();
    push_str(&mut label, "unsupported ABI type");
    Diagnostic { message, code, span, label }
}

/// A named ABI parameter of type `ty`.
pub fn abi_param(db: &Db, ev: &AbiAdtEvidence, name: String, ty: &Ty) -> (r: Result<AbiParam, String>)
    ensures
        match r {
            Ok(p) => abi_of(db, ev.manual(), ev.derived(), ty@) matches Ok((t, c)) && p@ == (AbiParamV { name: name@, ty: t, components: c }),
            Err(e) => abi_of(db, ev.manual(), ev.derived(), ty@) == Err::<(AbiTy, Seq<AbiParamV>), Seq<char>>(e@),
        },
{
    let (t, components) = abi_type_of(db, ev, ty)?;
    Ok(AbiParam { name, ty: t, components })
}

fn lower_param(db: &Db, ev: &AbiAdtEvidence, name: String, ty: &Ty, diagnostics: &mut Vec<Diagnostic>, span: Span, context: &str) -> (p: AbiParam)
    ensures
        p@ == lowered_param(db, ev.manual(), ev.derived(), name@, ty@),
        diags_view(final(diagnostics)@) == diags_view(old(diagnostics)@) + match abi_of(db, ev.manual(), ev.derived(), ty@) {
            Err(e) => seq![contract_diag(span, context@, e)],
            Ok(_) => Seq::<DiagnosticView>::empty(),
        },
{
    let ghost name_v = name@;
    match abi_type_of(db, ev, ty) {
        Ok((t, components)) => {
            proof {
                assert(diags_view(diagnostics@) + Seq::<DiagnosticView>::empty() =~= diags_view(diagnostics@));
            }
            AbiParam { name, ty: t, components }
        },
        Err(err) => {
            let d = contract_diag_unsupported_abi_type(span, context, err.as_str());
            proof {
                assert(diags_view(diagnostics@.push(d)) =~= diags_view(diagnostics@) + seq![d@]);
            }
            diagnostics.push(d);
            let components: Vec<AbiParam> = Vec::new();
            proof {
                assert(params_view(components@) =~= Seq::<AbiParamV>::empty());
            }
            AbiParam { name, ty: AbiType::Unsupported, components }
        },
    }
}

pub open spec fn name_at(names: Seq<String>, i: int) -> Seq<char> {
    if 0 <= i < names.len() {
        names[i]@
    } else {
        Seq::empty()
    }
}

/// Lowers method parameters, reporting each one that cannot be represented.
pub fn abi_params(
    db: &Db,
    names: &Vec<String>,
    tys: &Vec<Ty>,
    diagnostics: &mut Vec<Diagnostic>,
    span: Span,
    ev: &AbiAdtEvidence,
) -> (r: Vec<AbiParam>)
    ensures
        r@.len() == tys@.len(),
        forall|i: int| 0 <= i < tys@.len() ==> #[trigger] r@[i]@ == lowered_param(db, ev.manual(), ev.derived(), name_at(names@, i), tys@[i]@),
        diags_view(final(diagnostics)@) == diags_view(old(diagnostics)@) + param_diags(db, ev.manual(), ev.derived(), tys_view(tys@), span, "ABI parameter"@),
{
    let mut out: Vec<AbiParam> = Vec::new();
    let mut i: usize = 0;
    proof {
        lemma_tys_view(tys@);
        assert(diags_view(old(diagnostics)@) + param_diags(db, ev.manual(), ev.derived(), tys_view(tys@).take(0), span, "ABI parameter"@)
            =~= diags_view(old(diagnostics)@));
    }
    while i < tys.len()
        invariant
            i <= tys@.len(),
            out@.len() == i,
            tys_view(tys@).len() == tys@.len(),
            forall|k: int| 0 <= k < tys@.len() ==> #[trigger] tys_view(tys@)[k] == tys@[k]@,
            forall|k: int| 0 <= k < i ==> #[trigger] out@[k]@ == lowered_param(db, ev.manual(), ev.derived(), name_at(names@, k), tys@[k]@),
            diags_view(diagnostics@) == diags_view(old(diagnostics)@) + param_diags(db, ev.manual(), ev.derived(), tys_view(tys@).take(i as int), span, "ABI parameter"@),
        decreases tys@.len() - i,
    {
        let name = if i < names.len() {
            names[i].clone()
        } else {
            String::new()
        };
        let ghost before = diags_view(diagnostics@);
        let p = lower_param(db, ev, name, &tys[i], diagnostics, span, "ABI parameter");
        proof {
            let s = tys_view(tys@).take(i as int + 1);
            assert(s.drop_last() =~= tys_view(tys@).take(i as int));
            assert(s.last() == tys@[i as int]@);
        }
        out.push(p);
        i = i + 1;
    }
    proof {
        assert(tys_view(tys@).take(tys@.len() as int) =~= tys_view(tys@));
    }
    out
}

/// Lowers a method's return type to ABI outputs: the unit type has none, a
/// tuple flattens into its components, input-only calldata arrays and
/// unrepresentable types are reported.
pub fn abi_outputs(db: &Db, ty: &Ty, diagnostics: &mut Vec<Diagnostic>, span: Span, ev: &AbiAdtEvidence) -> (r: Vec<AbiParam>)
    ensures
        crate::ty::is_unit(ty@) ==> r@.len() == 0 && final(diagnostics)@ == old(diagnostics)@,
        !crate::ty::is_unit(ty@) ==> {
            &&& r@.len() == crate::ty::flatten_output(ty@).len()
            &&& forall|i: int| 0 <= i < r@.len() ==> #[trigger] r@[i]@ == output_param(db, ev.manual(), ev.derived(), crate::ty::flatten_output(ty@)[i])
            &&& diags_view(final(diagnostics)@) == diags_view(old(diagnostics)@) + output_diags(db, ev.manual(), ev.derived(), crate::ty::flatten_output(ty@), span)
        },
{
    if crate::ty::is_unit_ty(ty) {
        return Vec::new();
    }
    let comps = crate::ty::flatten_output_ty(ty);
    let mut out: Vec<AbiParam> = Vec::new();
    let mut i: usize = 0;
    proof {
        lemma_tys_view(comps@);
        assert(diags_view(old(diagnostics)@) + output_diags(db, ev.manual(), ev.derived(), tys_view(comps@).take(0), span)
            =~= diags_view(old(diagnostics)@));
    }
    while i < comps.len()
        invariant
            i <= comps@.len(),
            out@.len() == i,
            tys_view(comps@) == crate::ty::flatten_output(ty@),
            tys_view(comps@).len() == comps@.len(),
            forall|k: int| 0 <= k < comps@.len() ==> #[trigger] tys_view(comps@)[k] == comps@[k]@,
            forall|k: int| 0 <= k < i ==> #[trigger] out@[k]@ == output_param(db, ev.manual(), ev.derived(), comps@[k]@),
            diags_view(diagnostics@) == diags_view(old(diagnostics)@) + output_diags(db, ev.manual(), ev.derived(), tys_view(comps@).take(i as int), span),
        decreases comps@.len() - i,
    {
        let c = &comps[i];
        proof {
            let s = tys_view(comps@).take(i as int + 1);
            assert(s.drop_last() =~= tys_view(comps@).take(i as int));
            assert(s.last() == comps@[i as int]@);
        }
        if contains_canonical_calldata_array(db, c) {
            let msg = with_suffix(display_ty(db, c), " (calldata(array(t)) is input-only; the target std has no ABIEncode evidence for it)");
            let d = contract_diag_unsupported_abi_type(span, "ABI output", msg.as_str());
            proof {
                assert(diags_view(diagnostics@.push(d)) =~= diags_view(diagnostics@) + seq![d@]);
            }
            diagnostics.push(d);
            let components: Vec<AbiParam> = Vec::new();
            proof {
                assert(params_view(components@) =~= Seq::<AbiParamV>::empty());
            }
            out.push(AbiParam { name: String::new(), ty: AbiType::Unsupported, components });
        } else {
            let p = lower_param(db, ev, String::new(), c, diagnostics, span, "ABI output");
            out.push(p);
        }
        i = i + 1;
    }
    proof {
        assert(tys_view(comps@).take(comps@.len() as int) =~= tys_view(comps@));
    }
    out
}

} // verus!

verus! {

/// `memory`, `calldata`, `storage` or `mapping` of the root std module.
pub fn is_canonical_std_location(db: &Db, user: UserTyCtor) -> (b: bool)
    ensures
        b == is_std_location(db, user),
{
    match db.name(user.def) {
        Some(n) => is_location_name_str(n.as_str()) && db.def_info(user.def).unwrap().location == DefLocation::StdRoot,
        None => false,
    }
}

/// A canonical std location or the canonical std `array`.
pub fn is_canonical_std_abi_container(db: &Db, user: UserTyCtor) -> (b: bool)
    ensures
        b == is_std_abi_container(db, user),
{
    is_canonical_std_location(db, user) || crate::ty::is_canonical_std_def_named(db, user.def, "array")
}

/// The constructor fields of a single-constructor user ADT, substituted
/// with `args`; the caller records the ADT on `stack` while visiting them.
#[verifier::loop_isolation(false)]
pub fn user_adt_product_fields(db: &Db, user: UserTyCtor, args: &Vec<Ty>, stack: &Vec<DefId>) -> (r: Result<Vec<Ty>, String>)
    ensures
        match r {
            Ok(v) => product_fields(db, user, tys_view(args@), stack@) == Ok::<Seq<TyView>, Seq<char>>(tys_view(v@)),
            Err(e) => product_fields(db, user, tys_view(args@), stack@) == Err::<Seq<TyView>, Seq<char>>(e@),
        },
{
    proof {
        lemma_tys_view(args@);
    }
    let def = user.def;
    if stack_contains(stack, def) || stack.len() >= db.defs.len() {
        return Err(with_suffix(adt_display_name(db, def), " (recursive ADTs have no finite canonical ABI tuple)"));
    }
    let info = db.def_info(def);
    if let Some(i) = info {
        if i.generic_excluded {
            return Err(with_suffix(adt_display_name(db, def), " (manual or excluded Generic representations are not canonical ABI layouts)"));
        }
    }
    let shape = match info {
        Some(i) => match &i.adt {
            Some(s) => s,
            None => return Err(with_suffix(adt_display_name(db, def), " (definition is unavailable for ABI lowering)")),
        },
        None => return Err(with_suffix(adt_display_name(db, def), " (definition is unavailable for ABI lowering)")),
    };
    if shape.ctor_field_counts.len() == 0 {
        return Err(with_suffix(adt_display_name(db, def), " (constructorless ADTs have no canonical ABI representation)"));
    }
    if shape.ctor_field_counts.len() > 1 {
        return Err(with_suffix(adt_display_name(db, def), " (multi-constructor ADTs have no canonical ABI representation)"));
    }
    let field_count = shape.ctor_field_counts[0];
    if field_count == 0 {
        return Err(with_suffix(adt_display_name(db, def), " (zero-field ADTs have no canonical ABI tuple representation)"));
    }
    if shape.param_count != args.len() {
        let mut msg = adt_display_name(db, def);
        push_str(&mut msg, " (expected ");
        let p = decimal(shape.param_count);
        push_str(&mut msg, p.as_str());
        push_str(&mut msg, " ABI type arguments, found ");
        let a = decimal(args.len());
        push_str(&mut msg, a.as_str());
        push_str(&mut msg, ")");
        return Err(msg);
    }
    if shape.generic_rep.is_none() {
        return Err(with_suffix(adt_display_name(db, def), " (cannot derive its Generic ABI representation)"));
    }
    let product = match &shape.product_rep {
        Some(p) => substitute_bound_tys(p, args),
        None => return Err(with_suffix(adt_display_name(db, def), " (cannot derive its constructor product representation)")),
    };
    let fields = match crate::ty::split_constructor_product(&product, field_count) {
        Some(f) => f,
        None => {
            let mut msg = adt_display_name(db, def);
            push_str(&mut msg, " (its Generic product does not match the source constructor arity ");
            let c = decimal(field_count);
            push_str(&mut msg, c.as_str());
            push_str(&mut msg, ")");
            return Err(msg);
        },
    };
    proof {
        lemma_tys_view(fields@);
    }
    let mut i: usize = 0;
    while i < fields.len()
        invariant
            i <= fields@.len(),
            tys_view(fields@).len() == fields@.len(),
            forall|k: int| 0 <= k < fields@.len() ==> #[trigger] tys_view(fields@)[k] == fields@[k]@,
            forall|k: int| 0 <= k < i ==> !crate::ty::is_tuple_shape(#[trigger] tys_view(fields@)[k]),
        decreases fields@.len() - i,
    {
        if crate::ty::is_abi_tuple_shape(&fields[i]) {
            proof {
                assert(crate::ty::is_tuple_shape(tys_view(fields@)[i as int]));
            }
            return Err(with_suffix(adt_display_name(db, def), " (tuple-typed constructor fields are unsupported because Generic erases their ABI tuple boundary)"));
        }
        i = i + 1;
    }
    Ok(fields)
}

/// Whether the ABI layout of `ty` reaches the ADT `target`.
pub fn abi_type_contains_user_adt(db: &Db, ty: &Ty, target: DefId) -> (b: bool)
    ensures
        b == abi_reaches_adt(db, ty@, target, Seq::empty()),
{
    let empty: Vec<DefId> = Vec::new();
    proof {
        assert(empty@ =~= Seq::<DefId>::empty());
    }
    visit_abi_type(db, ty, target, &empty)
}

fn visit_abi_type(db: &Db, ty: &Ty, target: DefId, stack: &Vec<DefId>) -> (b: bool)
    ensures
        b == abi_reaches_adt(db, ty@, target, stack@),
    decreases depth_budget(db, stack@), tv_size(ty@), 1nat,
{
    match ty {
        Ty::Tuple(elems) => {
            proof {
                lemma_tys_view_take(elems@, elems@.len() as int);
                assert(elems@.take(elems@.len() as int) =~= elems@);
            }
            visit_abi_prefix(db, elems, elems.len(), target, stack)
        },
        Ty::Named { ctor: TyCtor::Builtin(BuiltinTyCtor::Pair), args } if args.len() == 2 => {
            proof {
                lemma_tys_view(args@);
                lemma_tys_view_take(args@, args@.len() as int);
                assert(args@.take(args@.len() as int) =~= args@);
            }
            visit_abi_prefix(db, args, args.len(), target, stack)
        },
        Ty::Named { ctor: TyCtor::User(user), args } => {
            proof {
                lemma_tys_view(args@);
            }
            if is_canonical_std_abi_container(db, *user) && args.len() == 1 {
                proof {
                    lemma_tvs_size_elem(tys_view(args@), 0);
                }
                return visit_abi_type(db, &args[0], target, stack);
            }
            if args.len() == 0 && canonical_user_abi_name(db, *user).is_some() {
                return false;
            }
            if user.def == target {
                return true;
            }
            match user_adt_product_fields(db, *user, args, stack) {
                Err(_) => false,
                Ok(fields) => {
                    let inner = stack_pushed(stack, user.def);
                    proof {
                        lemma_tys_view_take(fields@, fields@.len() as int);
                        assert(fields@.take(fields@.len() as int) =~= fields@);
                    }
                    visit_abi_prefix(db, &fields, fields.len(), target, &inner)
                },
            }
        },
        Ty::Comptime(inner) => visit_abi_type(db, inner, target, stack),
        _ => {
            proof {
                if let Ty::Named { args, .. } = ty {
                    lemma_tys_view(args@);
                }
            }
            false
        },
    }
}

fn visit_abi_prefix(db: &Db, elems: &Vec<Ty>, n: usize, target: DefId, stack: &Vec<DefId>) -> (b: bool)
    requires
        n <= elems@.len(),
    ensures
        b == any_abi_reaches_adt(db, tys_view(elems@).take(n as int), target, stack@),
    decreases depth_budget(db, stack@), tvs_size(tys_view(elems@).take(n as int)), 2nat,
{
    proof {
        lemma_tys_view(elems@);
    }
    let ghost s = tys_view(elems@).take(n as int);
    if n == 0 {
        return false;
    }
    proof {
        assert(s.drop_last() =~= tys_view(elems@).take(n - 1));
        assert(s.last() == elems@[n - 1]@);
        lemma_tvs_size_elem(s, s.len() - 1);
    }
    visit_abi_prefix(db, elems, n - 1, target, stack) || visit_abi_type(db, &elems[n - 1], target, stack)
}

} // verus!

verus! {

/// The Keccak-256 digest of a byte string.
pub uninterp spec fn keccak256_digest(data: Seq<u8>) -> Seq<u8>;

/// Keccak-256 through `tiny_keccak::Keccak::v256`: the 32-byte result is the
/// digest of exactly the bytes given.
#[verifier::external_body]
fn keccak256(data: &[u8]) -> (h: [u8; 32])
    ensures
        h@ == keccak256_digest(data@),
{
    let mut hasher = tiny_keccak::Keccak::v256();
    hasher.update(data);
    let mut out = [0u8; 32];
    hasher.finalize(&mut out);
    out
}

/// The selector of a signature digest: its first four bytes.
pub fn selector_from_digest(hash: [u8; 32]) -> (s: AbiSelector)
    ensures
        s.0@ == hash@.subrange(0, 4),
        s.0[0] == hash[0] && s.0[1] == hash[1] && s.0[2] == hash[2] && s.0[3] == hash[3],
{
    let s = AbiSelector([hash[0], hash[1], hash[2], hash[3]]);
    assert(s.0@ =~= hash@.subrange(0, 4));
    s
}

/// A canonical ABI signature preimage, e.g. `transfer(address,uint256)`.
#[derive(Debug)]
pub struct AbiSignature {
    pub text: String,
}

impl AbiSignature {
    pub fn new(text: String) -> (s: Self)
        ensures
            s.text@ == text@,
    {
        AbiSignature { text }
    }

    pub fn text(&self) -> (t: &String)
        ensures
            t@ == self.text@,
    {
        &self.text
    }
}

/// The ABI selector of a canonical signature: the first four bytes of the
/// Keccak-256 digest of its UTF-8 encoding.
pub fn abi_selector(signature: &AbiSignature) -> (s: AbiSelector)
    ensures
        keccak256_digest(encode_utf8(signature.text@)).len() == 32,
        s.0@ == keccak256_digest(encode_utf8(signature.text@)).subrange(0, 4),
        forall|i: int|
            0 <= i < 4 ==> s.0[i] == #[trigger] keccak256_digest(encode_utf8(signature.text@))[i],
{
    let bytes = signature.text.as_str().as_bytes();
    let hash = keccak256(bytes);
    assert(hash@.len() == 32);
    selector_from_digest(hash)
}

} // verus!
