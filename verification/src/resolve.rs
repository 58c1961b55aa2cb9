//! Name-resolution facts consumed by the derivation and storage analyses,
//! and the module facts that decide `Generic` derivation: the visible
//! `Generic` class, exclusion pragmas and hand-written `Generic` instances.
use vstd::prelude::*;
use crate::text::str_eq;
use crate::ty::{Db, DefId, DefKind, DefLocation};

verus! {

#[derive(Clone, Copy, Debug, PartialEq, Eq, Hash, Structural)]
pub enum DefResolutionKind {
    Class,
    Adt,
    Function,
    Other,
}

/// What a name resolves to.
#[derive(Clone, Copy, Debug, PartialEq, Eq, Hash, Structural)]
pub enum Resolution {
    Def { def: DefId, kind: DefResolutionKind },
    Field(u32),
    Local(u32),
    Param(u32),
    Unresolved,
}

/// One entry of a name table.
#[derive(Debug)]
pub struct NamedResolution {
    pub name: String,
    pub resolution: Resolution,
}

/// The names a module sees: its imports, and the scope of its own items.
#[derive(Debug)]
pub struct ImportSurface {
    pub types: Vec<NamedResolution>,
    pub item_scope: Option<Vec<NamedResolution>>,
}

/// A top-level item of a module, as far as name lookup needs it.
#[derive(Clone, Copy, Debug, PartialEq, Eq, Hash, Structural)]
pub struct LocalItem {
    pub kind: DefKind,
    pub def: DefId,
}

/// The resolutions of the type and predicate references of a module's items.
#[derive(Debug)]
pub struct ItemResolutionFacts {
    pub preds: Vec<Resolution>,
    pub types: Vec<Resolution>,
    pub derives: Vec<DeriveResolution>,
}

/// A `derive` target of an ADT: the `index`-th target resolved to `resolution`.
#[derive(Clone, Copy, Debug, PartialEq, Eq, Hash, Structural)]
pub struct DeriveResolution {
    pub adt: DefId,
    pub index: u32,
    pub resolution: Resolution,
}

/// The first resolution recorded for `name` in a name table.
pub open spec fn table_get(entries: Seq<NamedResolution>, name: Seq<char>) -> Option<Resolution>
    decreases entries.len(),
{
    if entries.len() == 0 {
        None
    } else if entries[0].name@ == name {
        Some(entries[0].resolution)
    } else {
        table_get(entries.skip(1), name)
    }
}

pub fn table_lookup(entries: &Vec<NamedResolution>, name: &str) -> (r: Option<Resolution>)
    ensures
        r == table_get(entries@, name@),
{
    let mut i: usize = 0;
    proof {
        assert(entries@.skip(0) =~= entries@);
    }
    while i < entries.len()
        invariant
            i <= entries@.len(),
            table_get(entries@, name@) == table_get(entries@.skip(i as int), name@),
        decreases entries@.len() - i,
    {
        proof {
            assert(entries@.skip(i as int).skip(1) =~= entries@.skip(i + 1));
            assert(entries@.skip(i as int)[0] == entries@[i as int]);
        }
        if str_eq(entries[i].name.as_str(), name) {
            return Some(entries[i].resolution);
        }
        i = i + 1;
    }
    None
}

/// The definition a resolution names, when that definition is called `name`.
pub open spec fn def_named(db: &Db, r: Option<Resolution>, name: Seq<char>) -> Option<DefId> {
    match r {
        Some(Resolution::Def { def, .. }) => if db.name_of(def) == Some(name) {
            Some(def)
        } else {
            None
        },
        _ => None,
    }
}

pub fn def_from_resolution_named(db: &Db, resolution: &Resolution, name: &str) -> (r: Option<DefId>)
    ensures
        r == def_named(db, Some(*resolution), name@),
{
    match resolution {
        Resolution::Def { def, .. } => match db.name(*def) {
            Some(n) => if str_eq(n.as_str(), name) {
                Some(*def)
            } else {
                None
            },
            None => None,
        },
        _ => None,
    }
}

/// The definition named `name` visible through a module's import surface:
/// imported names first, then the module's own item scope.
pub open spec fn visible_def(db: &Db, env: &ImportSurface, name: Seq<char>) -> Option<DefId> {
    match def_named(db, table_get(env.types@, name), name) {
        Some(d) => Some(d),
        None => match env.item_scope {
            Some(scope) => def_named(db, table_get(scope@, name), name),
            None => None,
        },
    }
}

pub fn visible_named_def(db: &Db, env: &ImportSurface, name: &str) -> (r: Option<DefId>)
    ensures
        r == visible_def(db, env, name@),
{
    if let Some(res) = table_lookup(&env.types, name) {
        if let Some(d) = def_from_resolution_named(db, &res, name) {
            return Some(d);
        }
    }
    match &env.item_scope {
        Some(scope) => match table_lookup(scope, name) {
            Some(res) => def_from_resolution_named(db, &res, name),
            None => None,
        },
        None => None,
    }
}

/// The first class or ADT declared in the module itself under `name`.
pub open spec fn local_def(db: &Db, items: Seq<LocalItem>, name: Seq<char>) -> Option<DefId>
    decreases items.len(),
{
    if items.len() == 0 {
        None
    } else if (items[0].kind == DefKind::Class || items[0].kind == DefKind::Adt) && db.name_of(items[0].def) == Some(name) {
        Some(items[0].def)
    } else {
        local_def(db, items.skip(1), name)
    }
}

pub fn local_named_def(db: &Db, items: &Vec<LocalItem>, name: &str) -> (r: Option<DefId>)
    ensures
        r == local_def(db, items@, name@),
{
    let mut i: usize = 0;
    proof {
        assert(items@.skip(0) =~= items@);
    }
    while i < items.len()
        invariant
            i <= items@.len(),
            local_def(db, items@, name@) == local_def(db, items@.skip(i as int), name@),
        decreases items@.len() - i,
    {
        proof {
            assert(items@.skip(i as int).skip(1) =~= items@.skip(i + 1));
            assert(items@.skip(i as int)[0] == items@[i as int]);
        }
        let item = items[i];
        if item.kind == DefKind::Class || item.kind == DefKind::Adt {
            if let Some(n) = db.name(item.def) {
                if str_eq(n.as_str(), name) {
                    return Some(item.def);
                }
            }
        }
        i = i + 1;
    }
    None
}

/// The first resolution among `rs` that names a definition called `name`.
pub open spec fn first_named(db: &Db, rs: Seq<Resolution>, name: Seq<char>) -> Option<DefId>
    decreases rs.len(),
{
    if rs.len() == 0 {
        None
    } else if def_named(db, Some(rs[0]), name) is Some {
        def_named(db, Some(rs[0]), name)
    } else {
        first_named(db, rs.skip(1), name)
    }
}

pub fn first_resolution_named(db: &Db, rs: &Vec<Resolution>, name: &str) -> (r: Option<DefId>)
    ensures
        r == first_named(db, rs@, name@),
{
    let mut i: usize = 0;
    proof {
        assert(rs@.skip(0) =~= rs@);
    }
    while i < rs.len()
        invariant
            i <= rs@.len(),
            first_named(db, rs@, name@) == first_named(db, rs@.skip(i as int), name@),
        decreases rs@.len() - i,
    {
        proof {
            assert(rs@.skip(i as int).skip(1) =~= rs@.skip(i + 1));
            assert(rs@.skip(i as int)[0] == rs@[i as int]);
        }
        if let Some(d) = def_from_resolution_named(db, &rs[i], name) {
            return Some(d);
        }
        i = i + 1;
    }
    None
}

/// How a clause-source lookup finds a definition by name.
pub enum DefLookup<'a> {
    /// Through a consumer module's import surface.
    Visible(&'a ImportSurface),
    /// Through a defining module's own items, then its predicate and type
    /// resolutions.
    Resolved(&'a Vec<LocalItem>, &'a ItemResolutionFacts),
}

pub open spec fn lookup_def(db: &Db, lookup: DefLookup, name: Seq<char>) -> Option<DefId> {
    match lookup {
        DefLookup::Visible(env) => visible_def(db, env, name),
        DefLookup::Resolved(items, facts) => match local_def(db, items@, name) {
            Some(d) => Some(d),
            None => match first_named(db, facts.preds@, name) {
                Some(d) => Some(d),
                None => first_named(db, facts.types@, name),
            },
        },
    }
}

pub fn lookup_named_def(db: &Db, lookup: &DefLookup, name: &str) -> (r: Option<DefId>)
    ensures
        r == lookup_def(db, *lookup, name@),
{
    match lookup {
        DefLookup::Visible(env) => visible_named_def(db, env, name),
        DefLookup::Resolved(items, facts) => {
            if let Some(d) = local_named_def(db, items, name) {
                return Some(d);
            }
            if let Some(d) = first_resolution_named(db, &facts.preds, name) {
                return Some(d);
            }
            first_resolution_named(db, &facts.types, name)
        },
    }
}

/// `def` is a class called `name`.
pub open spec fn is_class_named(db: &Db, def: DefId, name: Seq<char>) -> bool {
    db.name_of(def) == Some(name) && db.kind_of(def) == DefKind::Class
}

/// `def` is an ADT called `name`.
pub open spec fn is_adt_named(db: &Db, def: DefId, name: Seq<char>) -> bool {
    db.name_of(def) == Some(name) && db.kind_of(def) == DefKind::Adt
}

pub fn class_named(db: &Db, def: DefId, name: &str) -> (r: Option<()>)
    ensures
        r is Some <==> is_class_named(db, def, name@),
{
    match db.def_info(def) {
        Some(info) => match &info.name {
            Some(n) => if str_eq(n.as_str(), name) && info.kind == DefKind::Class {
                Some(())
            } else {
                None
            },
            None => None,
        },
        None => None,
    }
}

pub fn adt_named(db: &Db, def: DefId, name: &str) -> (r: Option<()>)
    ensures
        r is Some <==> is_adt_named(db, def, name@),
{
    match db.def_info(def) {
        Some(info) => match &info.name {
            Some(n) => if str_eq(n.as_str(), name) && info.kind == DefKind::Adt {
                Some(())
            } else {
                None
            },
            None => None,
        },
        None => None,
    }
}

/// The first ADT of the root std module called `name`.
pub open spec fn std_adt(db: &Db, name: Seq<char>) -> Option<DefId> {
    std_adt_from(db, name, 0)
}

pub open spec fn std_adt_from(db: &Db, name: Seq<char>, i: nat) -> Option<DefId>
    decreases db.defs@.len() - i,
{
    if i >= db.defs@.len() || i > u32::MAX {
        None
    } else if db.defs@[i as int].kind == DefKind::Adt && db.defs@[i as int].location == DefLocation::StdRoot
        && db.name_of(DefId(i as u32)) == Some(name) {
        Some(DefId(i as u32))
    } else {
        std_adt_from(db, name, i + 1)
    }
}

/// The canonical ADT called `name` of the root std module.
pub fn canonical_std_adt_def(db: &Db, name: &str) -> (r: Option<DefId>)
    ensures
        r == std_adt(db, name@),
{
    let mut i: usize = 0;
    while i < db.defs.len()
        invariant
            i <= db.defs@.len(),
            std_adt(db, name@) == std_adt_from(db, name@, i as nat),
        decreases db.defs@.len() - i,
    {
        if i > u32::MAX as usize {
            return None;
        }
        let def = DefId(i as u32);
        let info = &db.defs[i];
        if info.kind == DefKind::Adt && info.location == DefLocation::StdRoot {
            if let Some(n) = db.name(def) {
                if str_eq(n.as_str(), name) {
                    return Some(def);
                }
            }
        }
        i = i + 1;
    }
    None
}

} // verus!

verus! {

/// The `Generic` class as a module sees it: the imported entry named
/// `Generic`, else that of the module's own item scope, when it resolves to
/// a class called `Generic`.
pub open spec fn generic_class_of(db: &Db, env: &ImportSurface) -> Option<DefId> {
    let entry = match table_get(env.types@, "Generic"@) {
        Some(r) => Some(r),
        None => match env.item_scope {
            Some(scope) => table_get(scope@, "Generic"@),
            None => None,
        },
    };
    match entry {
        Some(Resolution::Def { def, kind: DefResolutionKind::Class }) => if db.name_of(def) == Some("Generic"@) {
            Some(def)
        } else {
            None
        },
        _ => None,
    }
}

/// The `Generic` class visible in a module, if any.
pub fn visible_generic_class(db: &Db, env: &ImportSurface) -> (r: Option<DefId>)
    ensures
        r == generic_class_of(db, env),
{
    let entry = match table_lookup(&env.types, "Generic") {
        Some(r) => Some(r),
        None => match &env.item_scope {
            Some(scope) => table_lookup(scope, "Generic"),
            None => None,
        },
    };
    match entry {
        Some(Resolution::Def { def, kind: DefResolutionKind::Class }) => {
            let named = match db.name(def) {
                Some(n) => str_eq(n.as_str(), "Generic"),
                None => false,
            };
            if named {
                Some(def)
            } else {
                None
            }
        },
        _ => None,
    }
}

/// A `pragma name item, ..` declaration of a module.
#[derive(Debug)]
pub struct ParsedPragma {
    pub name: String,
    pub items: Vec<String>,
}

/// Some `no-generic-instance-for` pragma of the module lists `adt_name`.
pub open spec fn derivation_excluded(pragmas: Seq<ParsedPragma>, adt_name: Seq<char>) -> bool {
    exists|i: int, j: int|
        0 <= i < pragmas.len() && pragmas[i].name@ == "no-generic-instance-for"@ && 0 <= j < pragmas[i].items@.len()
            && #[trigger] pragmas[i].items@[j]@ == adt_name
}

/// Whether the module excludes `adt_name` from `Generic` derivation.
pub fn generic_derivation_is_excluded(pragmas: &Vec<ParsedPragma>, adt_name: &str) -> (b: bool)
    ensures
        b == derivation_excluded(pragmas@, adt_name@),
{
    let mut i: usize = 0;
    while i < pragmas.len()
        invariant
            i <= pragmas@.len(),
            forall|p: int, j: int|
                0 <= p < i && pragmas@[p].name@ == "no-generic-instance-for"@ && 0 <= j < pragmas@[p].items@.len()
                    ==> #[trigger] pragmas@[p].items@[j]@ != adt_name@,
        decreases pragmas@.len() - i,
    {
        let pragma = &pragmas[i];
        if str_eq(pragma.name.as_str(), "no-generic-instance-for") {
            let mut j: usize = 0;
            while j < pragma.items.len()
                invariant
                    i < pragmas@.len(),
                    *pragma == pragmas@[i as int],
                    pragma.name@ == "no-generic-instance-for"@,
                    j <= pragma.items@.len(),
                    forall|k: int| 0 <= k < j ==> #[trigger] pragma.items@[k]@ != adt_name@,
                    forall|p: int, k: int|
                        0 <= p < i && pragmas@[p].name@ == "no-generic-instance-for"@ && 0 <= k < pragmas@[p].items@.len()
                            ==> #[trigger] pragmas@[p].items@[k]@ != adt_name@,
                decreases pragma.items@.len() - j,
            {
                if str_eq(pragma.items[j].as_str(), adt_name) {
                    proof {
                        assert(pragmas@[i as int].items@[j as int]@ == adt_name@);
                    }
                    return true;
                }
                j = j + 1;
            }
        }
        i = i + 1;
    }
    false
}

/// An `instance` declaration of a module, with the resolutions recorded for
/// its class predicate and for its main type.
#[derive(Debug)]
pub struct InstanceHead {
    pub class_resolutions: Vec<Resolution>,
    pub main_resolutions: Vec<Resolution>,
}

pub open spec fn is_generic_class_res(db: &Db, r: Resolution) -> bool {
    r matches Resolution::Def { def, kind: DefResolutionKind::Class } && db.name_of(def) == Some("Generic"@)
}

pub open spec fn is_adt_res(r: Resolution, adt: DefId) -> bool {
    r == Resolution::Def { def: adt, kind: DefResolutionKind::Adt }
}

pub open spec fn names_generic_class(db: &Db, rs: Seq<Resolution>) -> bool {
    exists|c: int| 0 <= c < rs.len() && is_generic_class_res(db, #[trigger] rs[c])
}

pub open spec fn names_adt(rs: Seq<Resolution>, adt: DefId) -> bool {
    exists|m: int| 0 <= m < rs.len() && is_adt_res(#[trigger] rs[m], adt)
}

/// `inst` is a `Generic` instance for `adt`.
pub open spec fn generic_instance_for(db: &Db, inst: InstanceHead, adt: DefId) -> bool {
    names_generic_class(db, inst.class_resolutions@) && names_adt(inst.main_resolutions@, adt)
}

/// Some instance of the module is a hand-written `Generic` instance for `adt`.
pub open spec fn manual_generic_instance(db: &Db, instances: Seq<InstanceHead>, adt: DefId) -> bool {
    exists|i: int| 0 <= i < instances.len() && #[trigger] generic_instance_for(db, instances[i], adt)
}

fn any_generic_class(db: &Db, rs: &Vec<Resolution>) -> (b: bool)
    ensures
        b == names_generic_class(db, rs@),
{
    let mut i: usize = 0;
    while i < rs.len()
        invariant
            i <= rs@.len(),
            forall|c: int| 0 <= c < i ==> !is_generic_class_res(db, #[trigger] rs@[c]),
        decreases rs@.len() - i,
    {
        if let Resolution::Def { def, kind: DefResolutionKind::Class } = rs[i] {
            if let Some(n) = db.name(def) {
                if str_eq(n.as_str(), "Generic") {
                    proof {
                        assert(is_generic_class_res(db, rs@[i as int]));
                    }
                    return true;
                }
            }
        }
        i = i + 1;
    }
    false
}

fn any_adt(rs: &Vec<Resolution>, adt: DefId) -> (b: bool)
    ensures
        b == names_adt(rs@, adt),
{
    let mut i: usize = 0;
    while i < rs.len()
        invariant
            i <= rs@.len(),
            forall|m: int| 0 <= m < i ==> !is_adt_res(#[trigger] rs@[m], adt),
        decreases rs@.len() - i,
    {
        if rs[i] == (Resolution::Def { def: adt, kind: DefResolutionKind::Adt }) {
            return true;
        }
        i = i + 1;
    }
    false
}

/// Whether the module declares a hand-written `Generic` instance for `adt`.
pub fn has_local_manual_generic_instance(db: &Db, instances: &Vec<InstanceHead>, adt: DefId) -> (b: bool)
    ensures
        b == manual_generic_instance(db, instances@, adt),
{
    let mut i: usize = 0;
    while i < instances.len()
        invariant
            i <= instances@.len(),
            forall|k: int| 0 <= k < i ==> !#[trigger] generic_instance_for(db, instances@[k], adt),
        decreases instances@.len() - i,
    {
        if any_generic_class(db, &instances[i].class_resolutions) && any_adt(&instances[i].main_resolutions, adt) {
            proof {
                assert(generic_instance_for(db, instances@[i as int], adt));
            }
            return true;
        }
        i = i + 1;
    }
    false
}

/// What the defining module of an ADT says about its `Generic`
/// representation: the facts that ABI lowering keeps in the ADT's `DefInfo`.
#[derive(Clone, Copy, Debug, PartialEq, Eq, Structural)]
pub struct GenericFacts {
    /// A `no-generic-instance-for` pragma names the ADT.
    pub excluded: bool,
    /// The module declares a hand-written `Generic` instance for it.
    pub local_instance: bool,
    /// A class named `Generic` is visible in the module.
    pub class_visible: bool,
}

/// The `Generic` facts of the ADT `adt`, named `adt_name`, in a module with
/// the given pragmas, instances and import surface.
pub fn module_generic_facts(
    db: &Db,
    env: &ImportSurface,
    pragmas: &Vec<ParsedPragma>,
    instances: &Vec<InstanceHead>,
    adt: DefId,
    adt_name: &str,
) -> (r: GenericFacts)
    ensures
        r.excluded == derivation_excluded(pragmas@, adt_name@),
        r.local_instance == manual_generic_instance(db, instances@, adt),
        r.class_visible == generic_class_of(db, env) is Some,
{
    GenericFacts {
        excluded: generic_derivation_is_excluded(pragmas, adt_name),
        local_instance: has_local_manual_generic_instance(db, instances, adt),
        class_visible: visible_generic_class(db, env).is_some(),
    }
}

} // verus!
