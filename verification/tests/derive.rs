use solcore::derived::{
    derived_can_store_implementation_goal, Evidence, Pred, class_derivation_diagnostics, contract_field_storage_predicate, derived_class_plans_with_resolutions,
    derived_class_target_span, push_derived_abi_clauses, push_derived_storage_clauses, resolved_storage_clause_source,
    user_class_extra_arg_count, user_class_supports_deriving, visible_abi_clause_source, visible_storage_clause_source,
    AdtDeriveInfo, ClassId, ClauseOrigin, DerivedAbiClauseSource, DerivedClauseKind, DerivedStorageClauseSource,
    ProgramClause,
};
use solcore::diag::Span;
use solcore::resolve::{
    canonical_std_adt_def, generic_derivation_is_excluded, has_local_manual_generic_instance, local_named_def,
    module_generic_facts, GenericFacts,
    table_lookup, visible_generic_class, visible_named_def, DefResolutionKind, DeriveResolution, ImportSurface,
    InstanceHead, ItemResolutionFacts, LocalItem, NamedResolution, ParsedPragma, Resolution,
};
use solcore::ty::{
    display_ty, AdtShape, BuiltinTyCtor, Db, DefId, DefInfo, DefKind, DefLocation, Ty, TyCtor, UserTyCtor, UserTyCtorKind,
};

fn def(name: &str, kind: DefKind, location: DefLocation, class_extra_args: Option<usize>) -> DefInfo {
    DefInfo {
        name: Some(name.to_owned()),
        kind,
        location,
        generic_excluded: false,
        local_generic_instance: false,
        generic_class_visible: false,
        abi_derivation_enabled: false,
        adt: None,
        class_extra_args,
        alias: None,
    }
}

const STORAGE_DERIVING: u32 = 0;
const STORAGE_SIZE: u32 = 1;
const CAN_STORE: u32 = 2;
const STORAGE: u32 = 3;
const POINT: u32 = 4;
const MARKER: u32 = 5;
const CONVERT: u32 = 6;
const MAPPING: u32 = 7;
const STRING: u32 = 8;
const MEMORY: u32 = 9;
const ABI_DERIVING: u32 = 10;
const ABI_ATTRIBS: u32 = 11;
const ABI_DECODE: u32 = 12;
const WORD_READER: u32 = 13;
const ABI_DECODER: u32 = 14;
const LOCAL: u32 = 15;
const GENERIC: u32 = 16;

fn db() -> Db {
    Db {
        defs: vec![
            def("StorageDeriving", DefKind::Class, DefLocation::StdLibrary, Some(0)),
            def("StorageSize", DefKind::Class, DefLocation::StdLibrary, Some(0)),
            def("CanStore", DefKind::Class, DefLocation::StdLibrary, Some(1)),
            def("storage", DefKind::Adt, DefLocation::StdRoot, None),
            DefInfo {
                adt: Some(AdtShape {
                    param_count: 1,
                    ctor_field_counts: vec![2],
                    generic_rep: Some(Ty::Tuple(vec![Ty::BoundVar(0), word()])),
                    product_rep: None,
                }),
                ..def("Point", DefKind::Adt, DefLocation::Elsewhere, None)
            },
            def("Marker", DefKind::Class, DefLocation::Elsewhere, Some(0)),
            def("Convert", DefKind::Class, DefLocation::Elsewhere, Some(1)),
            def("mapping", DefKind::Adt, DefLocation::StdRoot, None),
            def("string", DefKind::Adt, DefLocation::StdRoot, None),
            def("memory", DefKind::Adt, DefLocation::StdRoot, None),
            def("ABIDeriving", DefKind::Class, DefLocation::StdLibrary, Some(0)),
            def("ABIAttribs", DefKind::Class, DefLocation::StdLibrary, Some(0)),
            def("ABIDecode", DefKind::Class, DefLocation::StdLibrary, Some(1)),
            def("WordReader", DefKind::Class, DefLocation::StdLibrary, Some(0)),
            def("ABIDecoder", DefKind::Adt, DefLocation::StdLibrary, None),
            def("Local", DefKind::Adt, DefLocation::Elsewhere, None),
            def("Generic", DefKind::Class, DefLocation::StdLibrary, Some(0)),
        ],
    }
}

fn entry(name: &str, def: u32, kind: DefResolutionKind) -> NamedResolution {
    NamedResolution { name: name.to_owned(), resolution: Resolution::Def { def: DefId(def), kind } }
}

fn storage_surface() -> ImportSurface {
    ImportSurface {
        types: vec![
            entry("StorageDeriving", STORAGE_DERIVING, DefResolutionKind::Class),
            entry("StorageSize", STORAGE_SIZE, DefResolutionKind::Class),
            entry("CanStore", CAN_STORE, DefResolutionKind::Class),
            entry("storage", STORAGE, DefResolutionKind::Adt),
        ],
        item_scope: None,
    }
}

fn word() -> Ty {
    Ty::Named { ctor: TyCtor::Builtin(BuiltinTyCtor::Word), args: Vec::new() }
}

fn user(def: u32, args: Vec<Ty>) -> Ty {
    Ty::Named { ctor: TyCtor::User(UserTyCtor { def: DefId(def), kind: UserTyCtorKind::Adt }), args }
}

fn info(adt: u32, name: &str, param_count: usize, type_var_count: usize) -> AdtDeriveInfo {
    AdtDeriveInfo {
        adt: DefId(adt),
        name: name.to_owned(),
        name_span: Span { start: 40, end: 45 },
        derive_spans: vec![Span { start: 10, end: 16 }, Span { start: 18, end: 25 }],
        param_count,
        type_var_count,
        ctorless: false,
    }
}

fn storage_source() -> DerivedStorageClauseSource {
    DerivedStorageClauseSource {
        marker: DefId(STORAGE_DERIVING),
        storage_size: DefId(STORAGE_SIZE),
        can_store: DefId(CAN_STORE),
        storage: DefId(STORAGE),
    }
}

#[test]
fn storage_clause_source_is_found_through_the_import_surface() {
    let db = db();
    assert_eq!(visible_storage_clause_source(&db, &storage_surface()), Some(storage_source()));
    let missing = ImportSurface { types: vec![entry("StorageSize", STORAGE_SIZE, DefResolutionKind::Class)], item_scope: None };
    assert_eq!(visible_storage_clause_source(&db, &missing), None);
}

#[test]
fn storage_clause_source_resolves_in_the_defining_module() {
    let db = db();
    let items = vec![LocalItem { kind: DefKind::Class, def: DefId(STORAGE_DERIVING) }];
    let facts = ItemResolutionFacts {
        preds: vec![
            Resolution::Def { def: DefId(STORAGE_SIZE), kind: DefResolutionKind::Class },
            Resolution::Def { def: DefId(CAN_STORE), kind: DefResolutionKind::Class },
        ],
        types: vec![Resolution::Def { def: DefId(STORAGE), kind: DefResolutionKind::Adt }],
        derives: Vec::new(),
    };
    assert_eq!(resolved_storage_clause_source(&db, &items, &facts), Some(storage_source()));
}

#[test]
fn abi_clause_source_needs_every_definition_with_its_kind() {
    let db = db();
    let mut surface = ImportSurface {
        types: vec![
            entry("ABIDeriving", ABI_DERIVING, DefResolutionKind::Class),
            entry("ABIAttribs", ABI_ATTRIBS, DefResolutionKind::Class),
            entry("ABIDecode", ABI_DECODE, DefResolutionKind::Class),
            entry("WordReader", WORD_READER, DefResolutionKind::Class),
            entry("ABIDecoder", ABI_DECODER, DefResolutionKind::Adt),
        ],
        item_scope: None,
    };
    assert_eq!(
        visible_abi_clause_source(&db, &surface),
        Some(DerivedAbiClauseSource {
            marker: DefId(ABI_DERIVING),
            abi_attribs: DefId(ABI_ATTRIBS),
            abi_decode: DefId(ABI_DECODE),
            word_reader: DefId(WORD_READER),
            abi_decoder: DefId(ABI_DECODER),
        })
    );
    surface.types[4] = entry("ABIDecoder", WORD_READER, DefResolutionKind::Class);
    assert_eq!(visible_abi_clause_source(&db, &surface), None);
}

#[test]
fn recursive_representation_is_a_per_type_storage_skip() {
    let mut clauses: Vec<ProgramClause> = Vec::new();
    let point = info(POINT, "Point", 0, 0);
    push_derived_storage_clauses(&mut clauses, &point, &Ty::Tuple(vec![word(), word()]), storage_source());
    assert_eq!(clauses.len(), 2);
    let recursive = info(LOCAL, "Local", 0, 0);
    push_derived_storage_clauses(&mut clauses, &recursive, &Ty::Tuple(vec![user(LOCAL, Vec::new())]), storage_source());
    assert_eq!(clauses.len(), 2);
    assert_eq!(clauses[0].origin, ClauseOrigin::Derived(DerivedClauseKind::StorageSize { adt: DefId(POINT) }));
    assert_eq!(
        clauses[1].origin,
        ClauseOrigin::Derived(DerivedClauseKind::CanStore { adt: DefId(POINT), storage_size: DefId(STORAGE_SIZE) })
    );
}

#[test]
fn derived_storage_clauses_condition_every_parameter() {
    let mut clauses: Vec<ProgramClause> = Vec::new();
    let boxed = info(POINT, "Point", 2, 2);
    push_derived_storage_clauses(&mut clauses, &boxed, &Ty::Tuple(vec![Ty::BoundVar(0), Ty::BoundVar(1)]), storage_source());
    let size = &clauses[0];
    assert_eq!(size.binder_count, 2);
    assert_eq!(size.head.class, ClassId::User(DefId(STORAGE_SIZE)));
    assert_eq!(size.conditions.len(), 2);
    assert!(matches!(size.conditions[1].main, Ty::BoundVar(1)));
    let store = &clauses[1];
    assert_eq!(store.head.class, ClassId::User(DefId(CAN_STORE)));
    assert_eq!(store.head.args.len(), 1);
    assert_eq!(store.conditions.len(), 4);
    assert!(matches!(&store.head.main, Ty::Named { ctor: TyCtor::User(u), args } if u.def == DefId(STORAGE) && args.len() == 1));
}

#[test]
fn derived_abi_clauses_add_a_word_reader_binder() {
    let source = DerivedAbiClauseSource {
        marker: DefId(ABI_DERIVING),
        abi_attribs: DefId(ABI_ATTRIBS),
        abi_decode: DefId(ABI_DECODE),
        word_reader: DefId(WORD_READER),
        abi_decoder: DefId(ABI_DECODER),
    };
    let mut clauses: Vec<ProgramClause> = Vec::new();
    let boxed = info(POINT, "Point", 1, 1);
    push_derived_abi_clauses(&mut clauses, &boxed, &Ty::BoundVar(0), source);
    assert_eq!(clauses.len(), 2);
    assert_eq!(clauses[0].binder_count, 1);
    assert_eq!(clauses[0].conditions.len(), 1);
    assert_eq!(clauses[1].binder_count, 2);
    assert_eq!(clauses[1].conditions.len(), 2);
    assert_eq!(clauses[1].conditions[0].class, ClassId::User(DefId(WORD_READER)));
    assert!(matches!(clauses[1].conditions[0].main, Ty::BoundVar(1)));
    assert_eq!(
        clauses[1].origin,
        ClauseOrigin::Derived(DerivedClauseKind::AbiDecode { adt: DefId(POINT), word_reader: DefId(WORD_READER) })
    );
    let mut none: Vec<ProgramClause> = Vec::new();
    push_derived_abi_clauses(&mut none, &boxed, &user(POINT, vec![Ty::BoundVar(0)]), source);
    assert!(none.is_empty());
}

fn derive(adt: u32, index: u32, class: u32) -> DeriveResolution {
    DeriveResolution { adt: DefId(adt), index, resolution: Resolution::Def { def: DefId(class), kind: DefResolutionKind::Class } }
}

#[test]
fn class_derivations_plan_single_parameter_classes_only() {
    let db = db();
    let infos = vec![info(POINT, "Point", 1, 1), info(LOCAL, "Local", 0, 1)];
    let facts = ItemResolutionFacts {
        preds: Vec::new(),
        types: Vec::new(),
        derives: vec![derive(POINT, 0, MARKER), derive(POINT, 1, CONVERT), derive(LOCAL, 0, MARKER)],
    };
    let plans = derived_class_plans_with_resolutions(&db, &infos, &facts);
    assert_eq!(plans.len(), 1);
    assert_eq!(plans[0].adt, DefId(POINT));
    assert_eq!(plans[0].class, DefId(MARKER));
    assert_eq!(plans[0].target_index, 0);
    assert_eq!(plans[0].binder_count, 1);
    assert_eq!(plans[0].conditions.len(), 1);
    assert!(!plans[0].empty);

    let diagnostics = class_derivation_diagnostics(&db, &infos, &facts);
    assert_eq!(diagnostics.len(), 2);
    assert_eq!(diagnostics[0].span, Span { start: 18, end: 25 });
    assert_eq!(diagnostics[0].class, "Convert");
    assert_eq!(diagnostics[0].reason, "only single-parameter classes can be derived");
    assert_eq!(diagnostics[1].ty, "Local");
    assert_eq!(diagnostics[1].reason, "a contract-local data type cannot capture generic contract parameters");
}

#[test]
fn class_argument_counts_decide_derivability() {
    let db = db();
    assert_eq!(user_class_extra_arg_count(&db, DefId(CONVERT)), Some(1));
    assert!(user_class_supports_deriving(&db, DefId(MARKER)));
    assert!(!user_class_supports_deriving(&db, DefId(CONVERT)));
    assert!(!user_class_supports_deriving(&db, DefId(POINT)));
}

#[test]
fn derive_target_spans_fall_back_to_the_type_name() {
    let infos = vec![info(POINT, "Point", 0, 0)];
    assert_eq!(derived_class_target_span(&infos, DefId(POINT), 1), Some(Span { start: 18, end: 25 }));
    assert_eq!(derived_class_target_span(&infos, DefId(POINT), 7), Some(Span { start: 40, end: 45 }));
    assert_eq!(derived_class_target_span(&infos, DefId(LOCAL), 0), None);
}

#[test]
fn contract_fields_load_by_their_storage_kind() {
    let db = db();
    let env = storage_surface();
    let word_pred = contract_field_storage_predicate(&db, &env, &word()).unwrap();
    assert_eq!(word_pred.class, ClassId::User(DefId(CAN_STORE)));
    assert!(matches!(&word_pred.args[0], Ty::Named { ctor: TyCtor::Builtin(BuiltinTyCtor::Word), .. }));

    let mapping = user(MAPPING, vec![word(), word()]);
    let pred = contract_field_storage_predicate(&db, &env, &mapping).unwrap();
    assert!(matches!(&pred.args[0], Ty::Named { ctor: TyCtor::User(u), .. } if u.def == DefId(STORAGE)));

    let string = user(STRING, Vec::new());
    let pred = contract_field_storage_predicate(&db, &env, &string).unwrap();
    assert!(matches!(&pred.args[0], Ty::Named { ctor: TyCtor::User(u), .. } if u.def == DefId(MEMORY)));

    let empty = ImportSurface { types: Vec::new(), item_scope: None };
    assert!(contract_field_storage_predicate(&db, &empty, &word()).is_none());
}

#[test]
fn name_tables_return_the_first_entry() {
    let entries = vec![entry("a", 1, DefResolutionKind::Class), entry("a", 2, DefResolutionKind::Class)];
    assert_eq!(table_lookup(&entries, "a"), Some(Resolution::Def { def: DefId(1), kind: DefResolutionKind::Class }));
    assert_eq!(table_lookup(&entries, "b"), None);
}

#[test]
fn imports_precede_the_item_scope_and_names_must_match() {
    let db = db();
    let env = ImportSurface {
        types: vec![entry("Marker", CONVERT, DefResolutionKind::Class)],
        item_scope: Some(vec![entry("Marker", MARKER, DefResolutionKind::Class)]),
    };
    assert_eq!(visible_named_def(&db, &env, "Marker"), Some(DefId(MARKER)));
    let items = vec![LocalItem { kind: DefKind::Other, def: DefId(POINT) }, LocalItem { kind: DefKind::Adt, def: DefId(POINT) }];
    assert_eq!(local_named_def(&db, &items, "Point"), Some(DefId(POINT)));
    assert_eq!(canonical_std_adt_def(&db, "storage"), Some(DefId(STORAGE)));
    assert_eq!(canonical_std_adt_def(&db, "Point"), None);
}

#[test]
fn the_generic_class_comes_from_imports_before_the_item_scope() {
    let db = db();
    let imported = ImportSurface { types: vec![entry("Generic", GENERIC, DefResolutionKind::Class)], item_scope: None };
    assert_eq!(visible_generic_class(&db, &imported), Some(DefId(GENERIC)));
    let local = ImportSurface { types: Vec::new(), item_scope: Some(vec![entry("Generic", GENERIC, DefResolutionKind::Class)]) };
    assert_eq!(visible_generic_class(&db, &local), Some(DefId(GENERIC)));
    let shadowed = ImportSurface {
        types: vec![entry("Generic", MARKER, DefResolutionKind::Class)],
        item_scope: Some(vec![entry("Generic", GENERIC, DefResolutionKind::Class)]),
    };
    assert_eq!(visible_generic_class(&db, &shadowed), None);
    assert_eq!(visible_generic_class(&db, &ImportSurface { types: Vec::new(), item_scope: None }), None);
}

#[test]
fn pragmas_exclude_named_types_from_generic_derivation() {
    let pragmas = vec![
        ParsedPragma { name: "other".to_owned(), items: vec!["Point".to_owned()] },
        ParsedPragma { name: "no-generic-instance-for".to_owned(), items: vec!["Tree".to_owned(), "Local".to_owned()] },
    ];
    assert!(generic_derivation_is_excluded(&pragmas, "Local"));
    assert!(!generic_derivation_is_excluded(&pragmas, "Point"));
    assert!(!generic_derivation_is_excluded(&Vec::new(), "Local"));
}

#[test]
fn manual_generic_instances_are_recognized_by_class_and_main_type() {
    let db = db();
    let generic = Resolution::Def { def: DefId(GENERIC), kind: DefResolutionKind::Class };
    let point = Resolution::Def { def: DefId(POINT), kind: DefResolutionKind::Adt };
    let instances = vec![
        InstanceHead { class_resolutions: vec![Resolution::Def { def: DefId(MARKER), kind: DefResolutionKind::Class }], main_resolutions: vec![point] },
        InstanceHead { class_resolutions: vec![generic], main_resolutions: vec![Resolution::Unresolved, point] },
    ];
    assert!(has_local_manual_generic_instance(&db, &instances, DefId(POINT)));
    assert!(!has_local_manual_generic_instance(&db, &instances, DefId(LOCAL)));
    assert!(!has_local_manual_generic_instance(&db, &instances[..1].iter().map(|i| InstanceHead {
        class_resolutions: i.class_resolutions.clone(),
        main_resolutions: i.main_resolutions.clone(),
    }).collect(), DefId(POINT)));
}

#[test]
fn module_generic_facts_combine_pragmas_instances_and_visibility() {
    let db = db();
    let pragmas = vec![ParsedPragma { name: "no-generic-instance-for".to_owned(), items: vec!["Point".to_owned()] }];
    let instances = vec![InstanceHead {
        class_resolutions: vec![Resolution::Def { def: DefId(GENERIC), kind: DefResolutionKind::Class }],
        main_resolutions: vec![Resolution::Def { def: DefId(POINT), kind: DefResolutionKind::Adt }],
    }];
    let env = ImportSurface {
        types: vec![NamedResolution {
            name: "Generic".to_owned(),
            resolution: Resolution::Def { def: DefId(GENERIC), kind: DefResolutionKind::Class },
        }],
        item_scope: None,
    };
    assert_eq!(
        module_generic_facts(&db, &env, &pragmas, &instances, DefId(POINT), "Point"),
        GenericFacts { excluded: true, local_instance: true, class_visible: true }
    );
    let bare = ImportSurface { types: Vec::new(), item_scope: None };
    assert_eq!(
        module_generic_facts(&db, &bare, &Vec::new(), &instances, DefId(LOCAL), "Local"),
        GenericFacts { excluded: false, local_instance: false, class_visible: false }
    );
}

fn can_store_goal(main: Ty, sub: usize) -> Evidence {
    let storage = user(STORAGE, vec![main.copy_ty()]);
    Evidence::Derived {
        kind: DerivedClauseKind::CanStore { adt: DefId(POINT), storage_size: DefId(STORAGE_SIZE) },
        pred: Pred { class: ClassId::User(DefId(CAN_STORE)), main: storage, args: vec![main] },
        sub_evidence: (0..sub).map(|_| Evidence::Other).collect(),
    }
}

#[test]
fn derived_can_store_bodies_are_checked_against_the_representation() {
    let db = db();
    let (givens, goal) = derived_can_store_implementation_goal(&db, &can_store_goal(user(POINT, vec![word()]), 2)).unwrap();
    assert_eq!(goal.class, ClassId::User(DefId(CAN_STORE)));
    assert_eq!(display_ty(&db, &goal.main), "storage<(word, word)>");
    assert_eq!(display_ty(&db, &goal.args[0]), "(word, word)");
    assert_eq!(givens.len(), 2);
    assert_eq!(givens[0].class, ClassId::User(DefId(CAN_STORE)));
    assert_eq!(display_ty(&db, &givens[0].main), "storage<word>");
    assert_eq!(givens[1].class, ClassId::User(DefId(STORAGE_SIZE)));
    assert_eq!(display_ty(&db, &givens[1].main), "word");
    assert!(givens[1].args.is_empty());
}

#[test]
fn malformed_can_store_evidence_has_no_implementation_goal() {
    let db = db();
    assert!(derived_can_store_implementation_goal(&db, &can_store_goal(user(POINT, vec![word()]), 3)).is_none());
    assert!(derived_can_store_implementation_goal(&db, &can_store_goal(user(LOCAL, Vec::new()), 0)).is_none());
    assert!(derived_can_store_implementation_goal(&db, &Evidence::Other).is_none());
    let mismatched = Evidence::Derived {
        kind: DerivedClauseKind::CanStore { adt: DefId(POINT), storage_size: DefId(STORAGE_SIZE) },
        pred: Pred { class: ClassId::User(DefId(CAN_STORE)), main: user(STORAGE, vec![word()]), args: vec![user(POINT, vec![word()])] },
        sub_evidence: vec![Evidence::Other, Evidence::Other],
    };
    assert!(derived_can_store_implementation_goal(&db, &mismatched).is_none());
}
