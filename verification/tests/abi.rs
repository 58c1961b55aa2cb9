use rustc_hash::FxHashSet;
use solcore::abi::{
    abi_outputs, abi_param, abi_params, abi_selector, abi_type_contains_user_adt, abi_type_of,
    canonical_calldata_array_element, canonical_location_abi_name, canonical_user_abi_name,
    contains_canonical_calldata_array, contract_diag_unsupported_abi_type, generic_sig_string,
    is_canonical_std_abi_container, is_canonical_std_location, method_signature_string,
    reject_structural_std_abi_fallback, selector_from_digest, signature_type_string, unsupported_user_adt_abi_type,
    user_adt_product_fields, AbiAdtEvidence, AbiSelector, AbiSignature, AbiType,
};
use solcore::diag::{Diagnostic, Span};
use solcore::ty::{
    is_canonical_std_def_named, AdtShape, BuiltinTyCtor, Db, DefId, DefInfo, DefKind, DefLocation, Ty, TyCtor,
    UserTyCtor, UserTyCtorKind,
};

const UINT256: u32 = 0;
const ADDRESS: u32 = 1;
const BYTES32: u32 = 2;
const CALLDATA: u32 = 3;
const ARRAY: u32 = 4;
const MEMORY: u32 = 5;
const STRING: u32 = 6;
const BYTES: u32 = 7;
const FAKE_ARRAY: u32 = 8;
const FAKE_CALLDATA: u32 = 9;
const BYTES16: u32 = 10;
const POINT: u32 = 11;
const STORAGE: u32 = 12;
const TREE: u32 = 13;
const STD_BYTE: u32 = 14;
const FAKE_MEMORY: u32 = 15;
const WRAP: u32 = 16;
const MANUAL: u32 = 17;
const BOX: u32 = 18;

fn builtin(b: BuiltinTyCtor) -> Ty {
    Ty::Named { ctor: TyCtor::Builtin(b), args: Vec::new() }
}

fn word() -> Ty {
    builtin(BuiltinTyCtor::Word)
}

fn boolean() -> Ty {
    builtin(BuiltinTyCtor::Bool)
}

fn adt(def: u32) -> UserTyCtor {
    UserTyCtor { def: DefId(def), kind: UserTyCtorKind::Adt }
}

fn user(def: u32, args: Vec<Ty>) -> Ty {
    Ty::Named { ctor: TyCtor::User(adt(def)), args }
}

fn pair(a: Ty, b: Ty) -> Ty {
    Ty::Named { ctor: TyCtor::Builtin(BuiltinTyCtor::Pair), args: vec![a, b] }
}

fn info(name: &str, location: DefLocation) -> DefInfo {
    DefInfo {
        name: Some(name.to_owned()),
        kind: DefKind::Adt,
        location,
        generic_excluded: false,
        local_generic_instance: false,
        generic_class_visible: false,
        abi_derivation_enabled: false,
        adt: None,
        class_extra_args: None,
        alias: None,
    }
}

fn plain_adt(name: &str, param_count: usize) -> DefInfo {
    DefInfo {
        adt: Some(AdtShape { param_count, ctor_field_counts: vec![1], generic_rep: None, product_rep: None }),
        ..info(name, DefLocation::Elsewhere)
    }
}

fn derived_adt(name: &str, param_count: usize, rep: Ty) -> DefInfo {
    let product_rep = Some(rep.copy_ty());
    DefInfo {
        generic_class_visible: true,
        abi_derivation_enabled: true,
        adt: Some(AdtShape { param_count, ctor_field_counts: vec![2], generic_rep: Some(rep), product_rep }),
        ..info(name, DefLocation::Elsewhere)
    }
}

fn db() -> Db {
    Db {
        defs: vec![
            info("uint256", DefLocation::StdRoot),
            info("address", DefLocation::StdRoot),
            info("bytes32", DefLocation::StdRoot),
            info("calldata", DefLocation::StdRoot),
            info("array", DefLocation::StdRoot),
            info("memory", DefLocation::StdRoot),
            info("string", DefLocation::StdRoot),
            info("bytes", DefLocation::StdRoot),
            plain_adt("array", 1),
            plain_adt("calldata", 1),
            plain_adt("bytes16", 0),
            derived_adt("Point", 1, pair(Ty::BoundVar(0), boolean())),
            info("storage", DefLocation::StdRoot),
            derived_adt("Tree", 0, pair(word(), user(TREE, Vec::new()))),
            info("byte", DefLocation::StdLibrary),
            plain_adt("memory", 1),
            plain_adt("Wrap", 0),
            derived_adt("Manual", 0, word()),
            derived_adt("Box", 1, Ty::BoundVar(0)),
        ],
    }
}

fn evidence() -> AbiAdtEvidence {
    let mut derived = FxHashSet::default();
    derived.insert(DefId(POINT));
    derived.insert(DefId(TREE));
    derived.insert(DefId(MANUAL));
    derived.insert(DefId(BOX));
    let mut manual = FxHashSet::default();
    manual.insert(DefId(MANUAL));
    AbiAdtEvidence::new(manual, derived)
}

fn span() -> Span {
    Span { start: 10, end: 20 }
}

#[test]
fn selector_renders_as_lowercase_hex() {
    assert_eq!(AbiSelector([0xa9, 0x05, 0x9c, 0xbb]).to_hex(), "0xa9059cbb");
    assert_eq!(AbiSelector([0, 0x0f, 0xf0, 0xff]).to_hex(), "0x000ff0ff");
}

#[test]
fn selector_is_the_keccak_prefix_of_the_signature() {
    let transfer = AbiSignature::new("transfer(address,uint256)".to_owned());
    assert_eq!(abi_selector(&transfer), AbiSelector([0xa9, 0x05, 0x9c, 0xbb]));
    let balance = AbiSignature::new("balanceOf(address)".to_owned());
    assert_eq!(abi_selector(&balance).to_hex(), "0x70a08231");
    assert_eq!(transfer.text(), "transfer(address,uint256)");
}

#[test]
fn selector_takes_the_first_four_digest_bytes() {
    let mut digest = [0u8; 32];
    digest[0] = 1;
    digest[3] = 4;
    digest[4] = 9;
    assert_eq!(selector_from_digest(digest), AbiSelector([1, 0, 0, 4]));
}

#[test]
fn dispatch_signature_spelling_matches_reference_sigstring_shape() {
    let db = db();
    let params = vec![
        word(),
        Ty::Tuple(vec![word(), boolean()]),
        user(MEMORY, vec![user(STRING, Vec::new())]),
        user(MEMORY, vec![user(BYTES, Vec::new())]),
        user(BYTES32, Vec::new()),
        user(ADDRESS, Vec::new()),
        word(),
    ];
    assert_eq!(
        method_signature_string(&db, "spell", &params, &evidence()).unwrap(),
        "spell(uint256,(uint256,bool),string,bytes,bytes32,address,uint256)"
    );
}

#[test]
fn calldata_arrays_render_with_brackets() {
    let db = db();
    let nested = user(CALLDATA, vec![user(ARRAY, vec![user(CALLDATA, vec![user(ARRAY, vec![word()])])])]);
    let flat = user(CALLDATA, vec![user(ARRAY, vec![word()])]);
    assert_eq!(method_signature_string(&db, "keep", &vec![flat], &evidence()).unwrap(), "keep(uint256[])");
    let (t, _) = abi_type_of(&db, &evidence(), &nested).unwrap();
    assert_eq!(t.to_text(), "uint256[][]");
}

#[test]
fn same_named_user_calldata_and_array_types_do_not_gain_abi_meaning() {
    let db = db();
    let fake = vec![user(FAKE_ARRAY, vec![word()])];
    assert!(matches!(canonical_calldata_array_element(&db, adt(FAKE_CALLDATA), &fake), Ok(None)));
    let ty = user(FAKE_CALLDATA, vec![user(FAKE_ARRAY, vec![word()])]);
    let err = method_signature_string(&db, "inspect", &vec![ty], &evidence()).unwrap_err();
    assert!(err.contains("user-defined ADTs are not supported"), "{err}");
    assert!(!contains_canonical_calldata_array(&db, &user(FAKE_CALLDATA, vec![user(FAKE_ARRAY, vec![word()])])));
}

#[test]
fn canonical_calldata_wrapping_a_fake_array_is_rejected() {
    let db = db();
    let args = vec![user(FAKE_ARRAY, vec![word()])];
    let err = canonical_calldata_array_element(&db, adt(CALLDATA), &args).unwrap_err();
    assert_eq!(err, "array<word> (only the canonical std array supports calldata ABI decoding)");
    let args = vec![word()];
    let err = canonical_calldata_array_element(&db, adt(CALLDATA), &args).unwrap_err();
    assert_eq!(err, "word (only calldata(array(t)) has canonical external ABI evidence)");
    let args = vec![word(), word()];
    let err = canonical_calldata_array_element(&db, adt(CALLDATA), &args).unwrap_err();
    assert_eq!(err, "calldata (expected one type argument, found 2)");
}

#[test]
fn abi_like_user_type_names_are_not_treated_as_canonical_types() {
    let db = db();
    assert!(canonical_user_abi_name(&db, adt(BYTES16)).is_none());
    assert_eq!(canonical_user_abi_name(&db, adt(BYTES32)).as_deref(), Some("bytes32"));
    let mut diagnostics: Vec<Diagnostic> = Vec::new();
    let params = abi_params(&db, &vec!["value".to_owned()], &vec![user(BYTES16, Vec::new())], &mut diagnostics, span(), &evidence());
    assert_eq!(params[0].ty, AbiType::Unsupported);
    assert_eq!(params[0].name, "value");
    assert_eq!(diagnostics.len(), 1);
    assert_eq!(diagnostics[0].code, "SC0231");
    assert!(diagnostics[0].message.contains("user-defined ADTs are not supported"));
    assert_eq!(
        diagnostics[0].message,
        "ABI parameter cannot be represented in the ABI: bytes16 (user-defined ADTs are not supported by the canonical external ABI)"
    );
}

#[test]
fn user_defined_location_name_does_not_make_an_adt_abi_safe() {
    let db = db();
    let args = vec![Ty::Tuple(vec![word(), boolean()])];
    assert!(canonical_location_abi_name(&db, adt(FAKE_MEMORY), &args).unwrap().is_none());
    let err = signature_type_string(&db, &evidence(), &user(WRAP, Vec::new())).unwrap_err();
    assert!(err.contains("user-defined ADTs are not supported"), "{err}");
}

#[test]
fn canonical_locations_name_only_memory_strings_and_bytes() {
    let db = db();
    assert_eq!(
        canonical_location_abi_name(&db, adt(MEMORY), &vec![user(STRING, Vec::new())]).unwrap().as_deref(),
        Some("string")
    );
    let err = canonical_location_abi_name(&db, adt(MEMORY), &vec![word()]).unwrap_err();
    assert_eq!(err, "word (only memory(string) and memory(bytes) have canonical ABI evidence)");
    let err = canonical_location_abi_name(&db, adt(STORAGE), &vec![word()]).unwrap_err();
    assert_eq!(err, "storage<word> (storage values are not supported by the canonical external ABI)");
    assert!(is_canonical_std_location(&db, adt(STORAGE)));
    assert!(!is_canonical_std_location(&db, adt(FAKE_MEMORY)));
    assert!(is_canonical_std_abi_container(&db, adt(ARRAY)));
    assert!(!is_canonical_std_abi_container(&db, adt(FAKE_ARRAY)));
}

#[test]
fn standard_library_types_without_evidence_are_rejected() {
    let db = db();
    let err = reject_structural_std_abi_fallback(&db, adt(STD_BYTE), &Vec::new()).unwrap_err();
    assert_eq!(err, "byte (standard-library type `byte` has no canonical external ABI evidence)");
    assert!(reject_structural_std_abi_fallback(&db, adt(WRAP), &Vec::new()).is_ok());
    assert_eq!(
        unsupported_user_adt_abi_type(&db, adt(WRAP), &Vec::new()),
        "Wrap (user-defined ADTs are not supported by the canonical external ABI)"
    );
}

#[test]
fn parameterized_single_constructor_adt_uses_its_generic_rep_in_the_public_abi() {
    let db = db();
    let point = user(POINT, vec![user(UINT256, Vec::new())]);
    assert_eq!(
        method_signature_string(&db, "roundtrip", &vec![point.copy_ty()], &evidence()).unwrap(),
        "roundtrip(uint256,bool)"
    );
    let (t, components) = abi_type_of(&db, &evidence(), &point).unwrap();
    assert_eq!(t, AbiType::Named("Point<uint256>".to_owned()));
    assert!(components.is_empty());
    let mut diagnostics = Vec::new();
    let outputs = abi_outputs(&db, &point, &mut diagnostics, span(), &evidence());
    assert_eq!(outputs.len(), 1);
    assert_eq!(outputs[0].name, "");
    assert_eq!(outputs[0].ty.to_text(), "Point<uint256>");
    assert!(diagnostics.is_empty());
}

#[test]
fn recursive_adts_have_no_abi_signature() {
    let db = db();
    let err = generic_sig_string(&db, &evidence(), &user(TREE, Vec::new()), &Vec::new()).unwrap_err();
    assert_eq!(err, "Tree (recursive ADTs have no finite external ABI signature)");
}

#[test]
fn manual_generic_representations_are_not_abi_layouts() {
    let db = db();
    let err = generic_sig_string(&db, &evidence(), &user(MANUAL, Vec::new()), &Vec::new()).unwrap_err();
    assert_eq!(err, "Manual (manual or excluded Generic representations are not canonical ABI layouts)");
}

#[test]
fn generic_signature_keeps_sums_and_joins_products() {
    let db = db();
    let sum = Ty::Named { ctor: TyCtor::Builtin(BuiltinTyCtor::Sum), args: vec![word(), pair(boolean(), word())] };
    assert_eq!(generic_sig_string(&db, &evidence(), &sum, &Vec::new()).unwrap(), "sum(uint256,bool,uint256)");
    let unit = builtin(BuiltinTyCtor::Unit);
    assert_eq!(generic_sig_string(&db, &evidence(), &unit, &Vec::new()).unwrap(), "");
}

#[test]
fn tuple_parameters_become_tuple_components() {
    let db = db();
    let p = abi_param(&db, &evidence(), "pair".to_owned(), &Ty::Tuple(vec![word(), user(ADDRESS, Vec::new())])).unwrap();
    assert_eq!(p.name, "pair");
    assert_eq!(p.ty, AbiType::Tuple);
    assert_eq!(p.components.len(), 2);
    assert_eq!(p.components[0].ty, AbiType::Uint256);
    assert_eq!(p.components[1].ty, AbiType::Named("address".to_owned()));
    assert!(p.components.iter().all(|c| c.name.is_empty()));
}

#[test]
fn outputs_flatten_tuples_and_reject_calldata_arrays() {
    let db = db();
    let mut diagnostics = Vec::new();
    let out = abi_outputs(&db, &Ty::Tuple(vec![word(), boolean()]), &mut diagnostics, span(), &evidence());
    assert_eq!(out.len(), 2);
    assert_eq!(out[1].ty, AbiType::Bool);
    let unit = abi_outputs(&db, &builtin(BuiltinTyCtor::Unit), &mut diagnostics, span(), &evidence());
    assert!(unit.is_empty());
    let array = user(CALLDATA, vec![user(ARRAY, vec![word()])]);
    let out = abi_outputs(&db, &Ty::Tuple(vec![word(), array]), &mut diagnostics, span(), &evidence());
    assert_eq!(out[1].ty, AbiType::Unsupported);
    assert_eq!(diagnostics.len(), 1);
    assert_eq!(
        diagnostics[0].message,
        "ABI output cannot be represented in the ABI: calldata<array<word>> (calldata(array(t)) is input-only; the target std has no ABIEncode evidence for it)"
    );
}

#[test]
fn unsupported_abi_type_diagnostic_has_its_code_and_label() {
    let d = contract_diag_unsupported_abi_type(span(), "ABI parameter", "foo");
    assert_eq!(d.message, "ABI parameter cannot be represented in the ABI: foo");
    assert_eq!(d.code, "SC0231");
    assert_eq!(d.label, "unsupported ABI type");
    assert_eq!(d.span, span());
}

#[test]
fn canonical_std_names_need_the_std_root() {
    let db = db();
    assert!(is_canonical_std_def_named(&db, DefId(CALLDATA), "calldata"));
    assert!(!is_canonical_std_def_named(&db, DefId(FAKE_CALLDATA), "calldata"));
    assert!(!is_canonical_std_def_named(&db, DefId(CALLDATA), "array"));
    assert!(!is_canonical_std_def_named(&db, DefId(99), "calldata"));
}

#[test]
fn product_fields_and_adt_reachability() {
    let db = db();
    let point = user(POINT, vec![word()]);
    assert!(abi_type_contains_user_adt(&db, &point, DefId(POINT)));
    assert!(!abi_type_contains_user_adt(&db, &word(), DefId(POINT)));
    let fields = user_adt_product_fields(&db, adt(POINT), &vec![word()], &Vec::new()).unwrap();
    assert_eq!(fields.len(), 2);
    assert!(matches!(&fields[0], Ty::Named { ctor: TyCtor::Builtin(BuiltinTyCtor::Word), args } if args.is_empty()));
    assert!(matches!(&fields[1], Ty::Named { ctor: TyCtor::Builtin(BuiltinTyCtor::Bool), args } if args.is_empty()));
    let err = user_adt_product_fields(&db, adt(POINT), &vec![word()], &vec![DefId(POINT)]).unwrap_err();
    assert_eq!(err, "Point (recursive ADTs have no finite canonical ABI tuple)");
    let err = user_adt_product_fields(&db, adt(POINT), &Vec::new(), &Vec::new()).unwrap_err();
    assert_eq!(err, "Point (expected 1 ABI type arguments, found 0)");
}

#[test]
fn nested_parameterized_adt_instantiations_are_finite() {
    let db = db();
    let nested = user(BOX, vec![user(BOX, vec![user(UINT256, Vec::new())])]);
    assert_eq!(generic_sig_string(&db, &evidence(), &nested, &Vec::new()).unwrap(), "uint256");
    let (t, _) = abi_type_of(&db, &evidence(), &nested).unwrap();
    assert_eq!(t.to_text(), "Box<Box<uint256>>");
    assert_eq!(method_signature_string(&db, "wrap", &vec![nested], &evidence()).unwrap(), "wrap(uint256)");
}

#[test]
fn an_adt_already_being_expanded_is_recursive() {
    let db = db();
    let point = user(POINT, vec![word()]);
    let stack = vec![user(POINT, vec![word()])];
    let err = generic_sig_string(&db, &evidence(), &point, &stack).unwrap_err();
    assert_eq!(err, "Point (recursive ADTs have no finite external ABI signature)");
    let other = user(POINT, vec![boolean()]);
    assert_eq!(generic_sig_string(&db, &evidence(), &other, &stack).unwrap(), "bool,bool");
}
