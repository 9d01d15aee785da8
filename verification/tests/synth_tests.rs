use move_fuzzer::schema::FuzzerType;
use move_fuzzer::synth::synthesise;
use move_fuzzer::value::FuzzerValue;

#[test]
fn empty_input_vector_param_decodes_to_empty_vector() {
    let schemas = vec![FuzzerType::Vector(Box::new(FuzzerType::U8))];
    let bytes: Vec<u8> = vec![];
    let values = synthesise(&schemas, &bytes);
    assert_eq!(values, vec![FuzzerValue::Vector(vec![])]);
}

#[test]
fn u64_from_eight_zero_bytes_is_zero() {
    let schemas = vec![FuzzerType::U64];
    let bytes = vec![0u8; 8];
    let values = synthesise(&schemas, &bytes);
    assert_eq!(values, vec![FuzzerValue::U64(0)]);
}

#[test]
fn two_u8_params_take_one_byte_each() {
    let schemas = vec![FuzzerType::U8, FuzzerType::U8];
    let bytes = vec![0xFF, 0xFF];
    let values = synthesise(&schemas, &bytes);
    assert_eq!(values, vec![FuzzerValue::U8(255), FuzzerValue::U8(255)]);
}

#[test]
fn primitives_decode_little_endian() {
    let schemas = vec![FuzzerType::U16, FuzzerType::U32];
    let bytes = vec![0x01, 0x02, 0x01, 0x02, 0x03, 0x04];
    let values = synthesise(&schemas, &bytes);
    assert_eq!(
        values,
        vec![FuzzerValue::U16(0x0201), FuzzerValue::U32(0x04030201)]
    );
}

#[test]
fn u128_decodes_little_endian() {
    let mut bytes = vec![0u8; 16];
    bytes[0] = 1;
    bytes[15] = 2;
    let values = synthesise(&vec![FuzzerType::U128], &bytes);
    assert_eq!(values, vec![FuzzerValue::U128(1 + (2u128 << 120))]);
}

#[test]
fn result_has_one_value_per_schema_even_on_short_input() {
    let schemas = vec![FuzzerType::U64, FuzzerType::U32, FuzzerType::Bool];
    let bytes = vec![0xAB, 0xCD];
    let values = synthesise(&schemas, &bytes);
    assert_eq!(values.len(), 3);
    assert_eq!(
        values,
        vec![
            FuzzerValue::U64(0xCDAB),
            FuzzerValue::U32(0),
            FuzzerValue::Bool(false)
        ]
    );
}

#[test]
fn exhausted_reads_zero_fill_mid_element() {
    let values = synthesise(&vec![FuzzerType::U32], &vec![1u8]);
    assert_eq!(values, vec![FuzzerValue::U32(1)]);
}

#[test]
fn bool_reads_the_low_bit_of_one_byte() {
    assert_eq!(
        synthesise(&vec![FuzzerType::Bool], &vec![2u8]),
        vec![FuzzerValue::Bool(false)]
    );
    assert_eq!(
        synthesise(&vec![FuzzerType::Bool], &vec![3u8]),
        vec![FuzzerValue::Bool(true)]
    );
    assert_eq!(
        synthesise(&vec![FuzzerType::Bool], &vec![]),
        vec![FuzzerValue::Bool(false)]
    );
}

#[test]
fn u256_takes_thirty_two_raw_bytes() {
    let mut bytes = vec![0u8; 32];
    bytes[0] = 9;
    bytes[31] = 7;
    let values = synthesise(&vec![FuzzerType::U256], &bytes);
    assert_eq!(values, vec![FuzzerValue::U256(bytes.clone())]);
}

#[test]
fn address_and_signer_take_thirty_two_bytes_each_zero_filled() {
    let schemas = vec![FuzzerType::Address, FuzzerType::Signer];
    let mut bytes = vec![0u8; 32];
    bytes[0] = 5;
    let values = synthesise(&schemas, &bytes);
    let mut first = vec![0u8; 32];
    first[0] = 5;
    assert_eq!(
        values,
        vec![FuzzerValue::Address(first), FuzzerValue::Signer(vec![0u8; 32])]
    );
}

#[test]
fn vector_elements_follow_continue_bits() {
    let schemas = vec![FuzzerType::Vector(Box::new(FuzzerType::U8))];
    // continue(1), 42, continue(1), 7, stop(0)
    let bytes = vec![1, 42, 1, 7, 0];
    let values = synthesise(&schemas, &bytes);
    assert_eq!(
        values,
        vec![FuzzerValue::Vector(vec![FuzzerValue::U8(42), FuzzerValue::U8(7)])]
    );
}

#[test]
fn continue_bit_is_the_low_bit() {
    let schemas = vec![FuzzerType::Vector(Box::new(FuzzerType::U8))];
    // 2 has a clear low bit: stop immediately.
    let values = synthesise(&schemas, &vec![2u8, 42]);
    assert_eq!(values, vec![FuzzerValue::Vector(vec![])]);
}

#[test]
fn struct_fields_decode_positionally_in_declared_order() {
    let schemas = vec![FuzzerType::Struct(vec![FuzzerType::U8, FuzzerType::U16])];
    let bytes = vec![7, 1, 2];
    let values = synthesise(&schemas, &bytes);
    assert_eq!(
        values,
        vec![FuzzerValue::Struct(vec![
            FuzzerValue::U8(7),
            FuzzerValue::U16(0x0201)
        ])]
    );
}

#[test]
fn vector_inside_struct_decodes() {
    let schemas = vec![FuzzerType::Struct(vec![
        FuzzerType::Vector(Box::new(FuzzerType::Bool)),
        FuzzerType::U8,
    ])];
    // continue(1), true(1), stop(0), then 9 for the u8 field
    let bytes = vec![1, 1, 0, 9];
    let values = synthesise(&schemas, &bytes);
    assert_eq!(
        values,
        vec![FuzzerValue::Struct(vec![
            FuzzerValue::Vector(vec![FuzzerValue::Bool(true)]),
            FuzzerValue::U8(9)
        ])]
    );
}

#[test]
fn prefix_determinism_on_vector_free_schemas() {
    // The schemas cover 11 bytes; the two inputs agree on those and differ
    // after them.
    let schemas = vec![
        FuzzerType::U64,
        FuzzerType::U16,
        FuzzerType::Struct(vec![FuzzerType::Bool]),
    ];
    let mut a: Vec<u8> = (0..11).collect();
    let mut b = a.clone();
    a.push(200);
    b.push(17);
    b.push(99);
    assert_eq!(synthesise(&schemas, &a), synthesise(&schemas, &b));
}
