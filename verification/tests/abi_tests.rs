use move_fuzzer::abi::{
    recover_abi, schema_of_list, schema_of_type, AbiError, FunctionSig, ModuleSig, VmType,
};
use move_fuzzer::schema::FuzzerType;

fn module(name: &str, functions: Vec<FunctionSig>) -> ModuleSig {
    ModuleSig { name: String::from(name), functions }
}

fn function(name: &str, params: Vec<VmType>, bytecode_len: usize) -> FunctionSig {
    FunctionSig { name: String::from(name), params, bytecode_len }
}

#[test]
fn primitives_translate_one_to_one() {
    assert_eq!(schema_of_type(&VmType::Bool), Ok(FuzzerType::Bool));
    assert_eq!(schema_of_type(&VmType::U8), Ok(FuzzerType::U8));
    assert_eq!(schema_of_type(&VmType::U256), Ok(FuzzerType::U256));
    assert_eq!(schema_of_type(&VmType::Address), Ok(FuzzerType::Address));
    assert_eq!(schema_of_type(&VmType::Signer), Ok(FuzzerType::Signer));
}

#[test]
fn vectors_translate_recursively() {
    let t = VmType::Vector(Box::new(VmType::Vector(Box::new(VmType::U64))));
    assert_eq!(
        schema_of_type(&t),
        Ok(FuzzerType::Vector(Box::new(FuzzerType::Vector(Box::new(
            FuzzerType::U64
        )))))
    );
}

#[test]
fn structs_expand_to_their_ordered_field_shapes() {
    let t = VmType::Struct(vec![VmType::U8, VmType::Vector(Box::new(VmType::Bool))]);
    assert_eq!(
        schema_of_type(&t),
        Ok(FuzzerType::Struct(vec![
            FuzzerType::U8,
            FuzzerType::Vector(Box::new(FuzzerType::Bool))
        ]))
    );
}

#[test]
fn unsupported_kinds_are_rejected_with_their_name() {
    for (t, kind) in [
        (VmType::Reference, "Reference"),
        (VmType::TypeParameter, "TypeParameter"),
        (VmType::Tuple, "Tuple"),
        (VmType::Function, "Function"),
    ] {
        assert_eq!(
            schema_of_type(&t),
            Err(AbiError::UnsupportedParameterType { kind: String::from(kind) })
        );
    }
}

#[test]
fn nested_unsupported_kind_is_reported() {
    let t = VmType::Vector(Box::new(VmType::Struct(vec![VmType::U8, VmType::Reference])));
    assert_eq!(
        schema_of_type(&t),
        Err(AbiError::UnsupportedParameterType { kind: String::from("Reference") })
    );
}

#[test]
fn list_reports_the_first_unsupported_parameter() {
    let ts = vec![VmType::U8, VmType::Tuple, VmType::Reference];
    assert_eq!(
        schema_of_list(&ts),
        Err(AbiError::UnsupportedParameterType { kind: String::from("Tuple") })
    );
}

#[test]
fn recover_abi_finds_module_function_and_parameters() {
    let modules = vec![
        module("other", vec![function("f", vec![VmType::Reference], 1)]),
        module(
            "target",
            vec![
                function("g", vec![], 5),
                function("f", vec![VmType::U64, VmType::Bool], 11),
            ],
        ),
    ];
    let abi = recover_abi(&modules, "target", "f").unwrap();
    assert_eq!(abi.params, vec![FuzzerType::U64, FuzzerType::Bool]);
    assert_eq!(abi.max_coverage, 11);
}

#[test]
fn missing_module_is_reported() {
    let modules = vec![module("only", vec![])];
    assert_eq!(
        recover_abi(&modules, "absent", "f"),
        Err(AbiError::ModuleNotFound)
    );
}

#[test]
fn missing_function_is_reported() {
    let modules = vec![module("m", vec![function("g", vec![], 0)])];
    assert_eq!(
        recover_abi(&modules, "m", "f"),
        Err(AbiError::FunctionNotFound)
    );
}

#[test]
fn first_function_in_declaration_order_wins() {
    let modules = vec![module(
        "m",
        vec![
            function("f", vec![VmType::U8], 3),
            function("f", vec![VmType::U64], 9),
        ],
    )];
    let abi = recover_abi(&modules, "m", "f").unwrap();
    assert_eq!(abi.params, vec![FuzzerType::U8]);
    assert_eq!(abi.max_coverage, 3);
}

#[test]
fn unsupported_parameter_fails_recovery_naming_the_kind() {
    let modules = vec![module(
        "m",
        vec![function("f", vec![VmType::U8, VmType::TypeParameter], 2)],
    )];
    assert_eq!(
        recover_abi(&modules, "m", "f"),
        Err(AbiError::UnsupportedParameterType { kind: String::from("TypeParameter") })
    );
}
