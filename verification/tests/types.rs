use solcore::derived::ClassId;
use solcore::resolve::{DefResolutionKind, ImportSurface, NamedResolution, Resolution};
use solcore::storage::{
    is_storage_assign_target_expr, read_only_array_index_parts, HirExpr, HirExprKind, lookup_class_id, lookup_type_resolution, memory_type_ctor, source_string_ty, storage_type_ctor, ObligationSource,
    StorageCtx,
};
use solcore::ty::{
    display_ty, flatten_output_ty, flatten_tuple, is_abi_tuple_shape, is_unit_ty, split_constructor_product,
    substitute_bound_tys, ty_mentions_adt, BuiltinTyCtor, Db, DefId, DefInfo, DefKind, DefLocation, Ty, TyCtor,
    UserTyCtor, UserTyCtorKind,
};

fn builtin(b: BuiltinTyCtor, args: Vec<Ty>) -> Ty {
    Ty::Named { ctor: TyCtor::Builtin(b), args }
}

fn word() -> Ty {
    builtin(BuiltinTyCtor::Word, Vec::new())
}

fn boolean() -> Ty {
    builtin(BuiltinTyCtor::Bool, Vec::new())
}

fn pair(a: Ty, b: Ty) -> Ty {
    builtin(BuiltinTyCtor::Pair, vec![a, b])
}

fn ctor(def: u32) -> TyCtor {
    TyCtor::User(UserTyCtor { def: DefId(def), kind: UserTyCtorKind::Adt })
}

fn user(def: u32, args: Vec<Ty>) -> Ty {
    Ty::Named { ctor: ctor(def), args }
}

fn alias(def: u32, args: Vec<Ty>) -> Ty {
    Ty::Named { ctor: TyCtor::User(UserTyCtor { def: DefId(def), kind: UserTyCtorKind::Alias }), args }
}

fn def(name: &str, location: DefLocation) -> DefInfo {
    DefInfo {
        name: Some(name.to_owned()),
        kind: DefKind::Adt,
        location,
        generic_excluded: false,
        local_generic_instance: false,
        generic_class_visible: false,
        abi_derivation_enabled: false,
        adt: None,
        class_extra_args: None,
        alias: None,
    }
}

const STORAGE: u32 = 0;
const MAPPING: u32 = 1;
const ARRAY: u32 = 2;
const MEMORY: u32 = 3;
const STRING: u32 = 4;
const DYN_ARRAY: u32 = 5;
const CALLDATA: u32 = 6;
const POINT: u32 = 7;
const LEDGER: u32 = 8;
const FLAGS: u32 = 9;

fn db() -> Db {
    Db {
        defs: vec![
            def("storage", DefLocation::StdRoot),
            def("mapping", DefLocation::StdRoot),
            def("array", DefLocation::StdRoot),
            def("memory", DefLocation::StdRoot),
            def("string", DefLocation::StdRoot),
            def("DynArray", DefLocation::StdRoot),
            def("calldata", DefLocation::StdRoot),
            def("Point", DefLocation::Elsewhere),
            DefInfo {
                kind: DefKind::Other,
                alias: Some(user(MAPPING, vec![Ty::BoundVar(0), word()])),
                ..def("Ledger", DefLocation::Elsewhere)
            },
            DefInfo {
                kind: DefKind::Other,
                alias: Some(alias(LEDGER, vec![boolean()])),
                ..def("Flags", DefLocation::Elsewhere)
            },
        ],
    }
}

fn ctx(bindings: Vec<Option<Ty>>, has_trait_env: bool) -> StorageCtx {
    StorageCtx {
        storage_ctor: Some(ctor(STORAGE)),
        memory_ctor: Some(ctor(MEMORY)),
        can_store: Some(ClassId::User(DefId(20))),
        typedef: Some(ClassId::User(DefId(21))),
        has_trait_env,
        bindings,
        pending: Vec::new(),
    }
}

fn text(db: &Db, t: &Ty) -> String {
    display_ty(db, t)
}

#[test]
fn types_display_in_source_syntax() {
    let db = db();
    assert_eq!(text(&db, &user(POINT, vec![word(), boolean()])), "Point<word, bool>");
    assert_eq!(text(&db, &Ty::Tuple(vec![word(), Ty::BoundVar(2)])), "(word, t2)");
    assert_eq!(
        text(&db, &Ty::Function { params: vec![word()], ret: Box::new(Ty::Comptime(Box::new(boolean()))) }),
        "(word) -> comptime bool"
    );
    assert_eq!(text(&db, &Ty::Infer(4)), "?4");
    assert_eq!(text(&db, &Ty::Error), "<error>");
    assert_eq!(text(&db, &Ty::Unknown), "_");
    assert_eq!(text(&db, &user(99, Vec::new())), "<anonymous>");
}

#[test]
fn substitution_replaces_bound_variables_in_range() {
    let db = db();
    let t = user(POINT, vec![Ty::BoundVar(0), Ty::Tuple(vec![Ty::BoundVar(1), Ty::BoundVar(5)])]);
    let s = substitute_bound_tys(&t, &vec![word(), boolean()]);
    assert_eq!(text(&db, &s), "Point<word, (bool, t5)>");
    let same = substitute_bound_tys(&t, &Vec::new());
    assert_eq!(text(&db, &same), text(&db, &t));
}

#[test]
fn tuples_flatten_through_nested_tuples_and_pairs() {
    let db = db();
    let elems = vec![word(), Ty::Tuple(vec![boolean(), pair(word(), Ty::Tuple(Vec::new()))]), user(POINT, Vec::new())];
    let flat = flatten_tuple(&elems);
    let texts: Vec<String> = flat.iter().map(|t| text(&db, t)).collect();
    assert_eq!(texts, vec!["word", "bool", "word", "Point"]);
    assert!(flat.iter().all(|t| !is_abi_tuple_shape(t)));
}

#[test]
fn outputs_flatten_products_and_keep_single_types() {
    let db = db();
    let out = flatten_output_ty(&pair(word(), pair(boolean(), word())));
    assert_eq!(out.len(), 3);
    let single = flatten_output_ty(&user(POINT, Vec::new()));
    assert_eq!(single.len(), 1);
    assert_eq!(text(&db, &single[0]), "Point");
}

#[test]
fn unit_and_tuple_shapes() {
    assert!(is_unit_ty(&Ty::Tuple(Vec::new())));
    assert!(is_unit_ty(&builtin(BuiltinTyCtor::Unit, Vec::new())));
    assert!(!is_unit_ty(&word()));
    assert!(is_abi_tuple_shape(&Ty::Tuple(vec![word()])));
    assert!(is_abi_tuple_shape(&pair(word(), word())));
    assert!(!is_abi_tuple_shape(&builtin(BuiltinTyCtor::Pair, vec![word()])));
}

#[test]
fn constructor_products_split_into_their_fields() {
    let db = db();
    let product = pair(word(), pair(boolean(), user(POINT, Vec::new())));
    let fields = split_constructor_product(&product, 3).unwrap();
    let texts: Vec<String> = fields.iter().map(|t| text(&db, t)).collect();
    assert_eq!(texts, vec!["word", "bool", "Point"]);
    let two = split_constructor_product(&product, 2).unwrap();
    assert_eq!(text(&db, &two[1]), "pair<bool, Point>");
    assert!(split_constructor_product(&product, 4).is_none());
    assert!(split_constructor_product(&product, 0).is_none());
}

#[test]
fn adt_mentions_are_found_at_any_depth() {
    let t = Ty::Function { params: vec![word()], ret: Box::new(Ty::Tuple(vec![user(POINT, Vec::new())])) };
    assert!(ty_mentions_adt(&t, DefId(POINT)));
    assert!(!ty_mentions_adt(&t, DefId(STRING)));
}

#[test]
fn mapping_arguments_are_read_through_storage_handles_and_bindings() {
    let db = db();
    let c = ctx(vec![Some(user(MAPPING, vec![word(), boolean()]))], false);
    let handle = user(STORAGE, vec![Ty::Infer(0)]);
    let (key, value) = c.storage_mapping_args(&db, &handle).unwrap();
    assert_eq!(text(&db, &key), "word");
    assert_eq!(text(&db, &value), "storage<bool>");
    assert!(c.storage_mapping_args(&db, &word()).is_none());
}

#[test]
fn array_element_types_need_the_canonical_wrappers() {
    let db = db();
    let c = ctx(Vec::new(), false);
    let storage_array = user(STORAGE, vec![user(ARRAY, vec![word()])]);
    let (sc, elem) = c.storage_array_elem_ty(&db, &storage_array).unwrap();
    assert_eq!(sc, ctor(STORAGE));
    assert_eq!(text(&db, &elem), "word");
    let memory_array = user(MEMORY, vec![user(DYN_ARRAY, vec![boolean()])]);
    assert_eq!(text(&db, &c.memory_dyn_array_elem_ty(&db, &memory_array).unwrap()), "bool");
    let calldata_array = user(CALLDATA, vec![user(ARRAY, vec![word()])]);
    assert_eq!(text(&db, &c.calldata_array_elem_ty(&db, &calldata_array).unwrap()), "word");
    assert!(c.calldata_array_elem_ty(&db, &memory_array).is_none());
    assert_eq!(text(&db, &c.memory_dyn_array_ty(&db, word()).unwrap()), "memory<DynArray<word>>");
    assert_eq!(text(&db, &c.storage_array_ty(&db, word()).unwrap()), "storage<array<word>>");
}

#[test]
fn storage_reads_load_by_the_kind_of_the_stored_type() {
    let db = db();
    let c = ctx(Vec::new(), false);
    let mapping_ref = user(STORAGE, vec![user(MAPPING, vec![word(), word()])]);
    assert_eq!(text(&db, &c.loaded_ty_for_storage_ty(&db, &mapping_ref).unwrap()), "storage<mapping<word, word>>");
    let string_ref = user(STORAGE, vec![user(STRING, Vec::new())]);
    assert_eq!(text(&db, &c.loaded_ty_for_storage_ty(&db, &string_ref).unwrap()), "memory<string>");
    let word_ref = user(STORAGE, vec![word()]);
    assert_eq!(text(&db, &c.loaded_ty_for_storage_ty(&db, &word_ref).unwrap()), "word");
    assert!(c.loaded_ty_for_storage_ty(&db, &word()).is_none());
    let under_givens = ctx(Vec::new(), true);
    assert!(under_givens.loaded_ty_for_storage_ty(&db, &string_ref).is_none());
    assert!(c.is_storage_collection_ref_ty(&db, &mapping_ref));
    assert!(!c.is_storage_collection_ref_ty(&db, &word_ref));
    assert!(c.is_memory_backed_storage_adt(&db, &user(STRING, Vec::new())));
    assert!(c.is_named_adt_ty(&db, &user(POINT, vec![word()]), "Point", None));
    assert!(!c.is_named_adt_ty(&db, &user(POINT, vec![word()]), "Point", Some(0)));
}

#[test]
fn storage_loads_record_can_store_obligations() {
    let db = db();
    let mut c = ctx(Vec::new(), false);
    let string_ref = user(STORAGE, vec![user(STRING, Vec::new())]);
    let loaded = c.storage_load_ty(&db, string_ref);
    assert_eq!(text(&db, &loaded), "memory<string>");
    assert_eq!(c.pending.len(), 1);
    assert_eq!(c.pending[0].class, ClassId::User(DefId(20)));
    assert_eq!(c.pending[0].source, ObligationSource::Scheme);
    assert_eq!(text(&db, &c.pending[0].args[0]), "memory<string>");

    let loaded = c.storage_load_ty(&db, word());
    assert!(matches!(loaded, Ty::Infer(0)));
    assert_eq!(c.bindings.len(), 1);
    assert_eq!(c.pending.len(), 2);

    c.push_typedef_word_obligation(boolean(), ObligationSource::Scheme);
    assert_eq!(c.pending.len(), 3);
    assert_eq!(c.pending[2].class, ClassId::User(DefId(21)));
    assert_eq!(text(&db, &c.pending[2].args[0]), "word");
}

#[test]
fn field_references_wrap_in_storage() {
    let db = db();
    let c = ctx(Vec::new(), false);
    assert_eq!(text(&db, &c.instantiate_field_ref(word())), "storage<word>");
    let mut plain = ctx(Vec::new(), false);
    plain.storage_ctor = None;
    assert_eq!(text(&db, &plain.instantiate_field_ref(word())), "word");
    assert_eq!(text(&db, &plain.storage_load_ty(&db, word())), "word");
    assert!(plain.pending.is_empty());
}

#[test]
fn std_constructors_and_the_source_string_type() {
    let db = db();
    assert_eq!(storage_type_ctor(&db), Some(ctor(STORAGE)));
    assert_eq!(memory_type_ctor(&db), Some(ctor(MEMORY)));
    assert_eq!(text(&db, &source_string_ty(&db)), "string");
    assert!(matches!(source_string_ty(&db), Ty::Named { ctor: TyCtor::User(u), .. } if u.def == DefId(STRING)));
    let bare = Db { defs: Vec::new() };
    assert_eq!(storage_type_ctor(&bare), None);
    assert!(matches!(source_string_ty(&bare), Ty::Named { ctor: TyCtor::Builtin(BuiltinTyCtor::String), .. }));
}

#[test]
fn type_names_resolve_in_the_item_scope_before_imports() {
    let entry = |name: &str, def: u32, kind: DefResolutionKind| NamedResolution {
        name: name.to_owned(),
        resolution: Resolution::Def { def: DefId(def), kind },
    };
    let env = ImportSurface {
        types: vec![entry("CanStore", 30, DefResolutionKind::Class), entry("Typedef", 31, DefResolutionKind::Class)],
        item_scope: Some(vec![entry("CanStore", 32, DefResolutionKind::Class), entry("Thing", 33, DefResolutionKind::Adt)]),
    };
    assert_eq!(lookup_class_id(&env, "CanStore"), Some(ClassId::User(DefId(32))));
    assert_eq!(lookup_class_id(&env, "Typedef"), Some(ClassId::User(DefId(31))));
    assert_eq!(lookup_class_id(&env, "Thing"), None);
    assert_eq!(lookup_type_resolution(&env, "Missing"), None);
}

#[test]
fn memory_array_reads_require_word_typedefs_for_index_and_element() {
    let db = db();
    let mut c = ctx(Vec::new(), false);
    let array = user(MEMORY, vec![user(DYN_ARRAY, vec![boolean()])]);
    let elem = c.infer_memory_array_index_read(&db, word(), &array).unwrap();
    assert_eq!(text(&db, &elem), "bool");
    assert_eq!(c.pending.len(), 2);
    assert_eq!(text(&db, &c.pending[0].main), "word");
    assert_eq!(text(&db, &c.pending[1].main), "bool");
    assert_eq!(c.pending[1].class, ClassId::User(DefId(21)));
    assert!(c.infer_memory_array_index_read(&db, word(), &word()).is_none());
    assert_eq!(c.pending.len(), 2);
}

fn leaf(resolution: Option<Resolution>) -> HirExpr {
    HirExpr { kind: HirExprKind::Other, resolution }
}

fn annotated(inner: HirExpr) -> HirExpr {
    HirExpr { kind: HirExprKind::TypeAnnot { expr: Box::new(inner), ty: word() }, resolution: None }
}

fn indexed(base: HirExpr, index: HirExpr) -> HirExpr {
    HirExpr { kind: HirExprKind::Index { base: Box::new(base), index: Box::new(index) }, resolution: None }
}

#[test]
fn storage_assignment_targets_are_fields_or_indexes_through_annotations() {
    assert!(is_storage_assign_target_expr(&leaf(Some(Resolution::Field(3)))));
    assert!(!is_storage_assign_target_expr(&leaf(Some(Resolution::Local(0)))));
    assert!(is_storage_assign_target_expr(&annotated(indexed(leaf(None), leaf(None)))));
    assert!(is_storage_assign_target_expr(&annotated(annotated(leaf(Some(Resolution::Field(1)))))));
    assert!(!is_storage_assign_target_expr(&annotated(leaf(None))));
}

#[test]
fn read_only_index_parts_peel_annotations() {
    let target = annotated(annotated(indexed(leaf(Some(Resolution::Param(0))), leaf(Some(Resolution::Local(7))))));
    let (index_expr, base, index) = read_only_array_index_parts(&target).unwrap();
    assert!(matches!(index_expr.kind, HirExprKind::Index { .. }));
    assert_eq!(base.resolution, Some(Resolution::Param(0)));
    assert_eq!(index.resolution, Some(Resolution::Local(7)));
    assert!(read_only_array_index_parts(&annotated(leaf(None))).is_none());
}

#[test]
fn storage_array_literal_assignment_records_can_store_of_the_element() {
    let db = db();
    let mut c = ctx(Vec::new(), false);
    let place = user(STORAGE, vec![user(ARRAY, vec![word()])]);
    let value = user(MEMORY, vec![user(DYN_ARRAY, vec![boolean()])]);
    assert!(c.infer_storage_array_literal_assign(&db, &place, &value).is_none());
    assert_eq!(c.pending.len(), 2);
    assert_eq!(c.pending[0].class, ClassId::User(DefId(20)));
    assert_eq!(text(&db, &c.pending[0].main), "storage<word>");
    assert_eq!(text(&db, &c.pending[0].args[0]), "bool");
    assert_eq!(c.pending[1].class, ClassId::User(DefId(21)));
    assert_eq!(text(&db, &c.pending[1].main), "bool");
    assert!(c.bindings.is_empty());
}

#[test]
fn other_array_literal_assignment_expects_a_fresh_storage_array() {
    let db = db();
    let mut c = ctx(vec![None, None], false);
    let expected = c.infer_storage_array_literal_assign(&db, &Ty::Infer(0), &word()).unwrap();
    assert_eq!(text(&db, &expected), "storage<array<?2>>");
    assert_eq!(c.bindings.len(), 3);
    assert!(c.pending.is_empty());
}

#[test]
fn aliases_of_mappings_index_like_the_mapping() {
    let db = db();
    let c = ctx(Vec::new(), false);
    let (key, value) = c.storage_mapping_args(&db, &alias(LEDGER, vec![boolean()])).unwrap();
    assert_eq!((text(&db, &key), text(&db, &value)), ("bool".to_owned(), "storage<word>".to_owned()));
    let behind_handle = user(STORAGE, vec![alias(FLAGS, Vec::new())]);
    let (key, _) = c.storage_mapping_args(&db, &behind_handle).unwrap();
    assert_eq!(text(&db, &key), "bool");
    assert!(c.is_storage_collection_ref_ty(&db, &alias(FLAGS, Vec::new())));
    assert!(c.storage_mapping_args(&db, &alias(POINT, Vec::new())).is_none());
}

#[test]
fn storage_reads_of_aliased_mappings_stay_references() {
    let db = db();
    let c = ctx(Vec::new(), false);
    let loaded = c.loaded_ty_for_storage_ty(&db, &user(STORAGE, vec![alias(LEDGER, vec![word()])])).unwrap();
    assert_eq!(text(&db, &loaded), "storage<mapping<word, word>>");
}
