use move_core_types::vm_status::StatusCode;
use move_fuzzer::status::{
    classify_status, Error, STATUS_ABORTED, STATUS_ARITHMETIC_ERROR, STATUS_MISSING_DEPENDENCY,
    STATUS_OUT_OF_GAS,
};

#[test]
fn tabulated_codes_map_to_their_variants() {
    let m = || String::from("m");
    assert_eq!(
        classify_status(STATUS_ABORTED, m()),
        Error::Abort { message: String::from("m") }
    );
    assert_eq!(
        classify_status(STATUS_ARITHMETIC_ERROR, m()),
        Error::ArithmeticError { message: String::from("m") }
    );
    assert_eq!(
        classify_status(move_fuzzer::status::STATUS_MEMORY_LIMIT_EXCEEDED, m()),
        Error::MemoryLimitExceeded { message: String::from("m") }
    );
    assert_eq!(
        classify_status(STATUS_OUT_OF_GAS, m()),
        Error::OutOfGas { message: String::from("m") }
    );
    assert_eq!(
        classify_status(STATUS_MISSING_DEPENDENCY, m()),
        Error::MissingDependency { message: String::from("m") }
    );
}

#[test]
fn unknown_codes_keep_the_raw_status() {
    let e = classify_status(9999, String::from("boom"));
    assert_eq!(
        e,
        Error::Unknown { status: 9999, message: String::from("boom") }
    );
    let e = classify_status(0, String::new());
    assert_eq!(e, Error::Unknown { status: 0, message: String::new() });
}

#[test]
fn status_constants_match_the_vm_numbering() {
    assert_eq!(u64::from(StatusCode::ABORTED), STATUS_ABORTED);
    assert_eq!(u64::from(StatusCode::ARITHMETIC_ERROR), STATUS_ARITHMETIC_ERROR);
    assert_eq!(u64::from(StatusCode::OUT_OF_GAS), STATUS_OUT_OF_GAS);
    assert_eq!(
        u64::from(StatusCode::MISSING_DEPENDENCY),
        STATUS_MISSING_DEPENDENCY
    );
}

#[test]
fn renders_name_the_variant_and_keep_the_forensic_detail() {
    let e = classify_status(STATUS_ABORTED, String::from("code 7"));
    assert_eq!(e.render(), "Abort - code 7");
    let e = classify_status(STATUS_OUT_OF_GAS, String::from("x"));
    assert_eq!(e.render(), "OutOfGas");
    let e = classify_status(4242, String::from("odd"));
    assert_eq!(e.render(), "Unknown - status code 4242, odd");
    let e = Error::AccountAddressParseError { message: String::from("bad") };
    assert_eq!(e.render(), "AccountAddressParseError - bad");
    let e = classify_status(STATUS_MISSING_DEPENDENCY, String::from("x"));
    assert_eq!(e.render(), "MissingDependency");
}

#[test]
fn message_accessor_returns_the_carried_message() {
    let e = classify_status(STATUS_ARITHMETIC_ERROR, String::from("overflow"));
    assert_eq!(e.message(), "overflow");
    let e = classify_status(123, String::from("raw"));
    assert_eq!(e.message(), "raw");
}
