use arbitrary::{Arbitrary, Unstructured};
use move_fuzzer::reader::ByteReader;

#[test]
fn fill_matches_unstructured_fill_buffer() {
    let data: Vec<u8> = vec![10, 20, 30, 40, 50];
    let mut r = ByteReader::new(&data);
    let mut u = Unstructured::new(&data);

    let ours = r.fill(3);
    let mut theirs = [0u8; 3];
    u.fill_buffer(&mut theirs).unwrap();
    assert_eq!(ours.as_slice(), &theirs);

    // Read past the end: both zero-fill and stop at the end.
    let ours = r.fill(4);
    let mut theirs = [0u8; 4];
    u.fill_buffer(&mut theirs).unwrap();
    assert_eq!(ours.as_slice(), &theirs);
    assert_eq!(ours, vec![40, 50, 0, 0]);
}

#[test]
fn integers_match_unstructured_little_endian_reads() {
    let data: Vec<u8> = vec![1, 2, 3, 4, 5, 6, 7, 8, 9, 10, 11, 12, 13, 14];
    let mut r = ByteReader::new(&data);
    let mut u = Unstructured::new(&data);

    let ours = r.read_le(4) as u32;
    let theirs = <u32 as Arbitrary>::arbitrary(&mut u).unwrap();
    assert_eq!(ours, theirs);

    // The next read crosses the end of the data: low bytes come from the
    // input, the rest are zero.
    let ours = r.read_le(16) as u128;
    let theirs = <u128 as Arbitrary>::arbitrary(&mut u).unwrap();
    assert_eq!(ours, theirs);
}

#[test]
fn u64_read_matches_unstructured() {
    let data: Vec<u8> = vec![0xEF, 0xCD, 0xAB, 0x89, 0x67, 0x45, 0x23, 0x01];
    let mut r = ByteReader::new(&data);
    let mut u = Unstructured::new(&data);
    let ours = r.read_le(8) as u64;
    let theirs = <u64 as Arbitrary>::arbitrary(&mut u).unwrap();
    assert_eq!(ours, theirs);
    assert_eq!(ours, 0x0123456789ABCDEF);
}

#[test]
fn bool_matches_unstructured_low_bit_policy() {
    for byte in [0u8, 1, 2, 3, 254, 255] {
        let data = vec![byte];
        let mut r = ByteReader::new(&data);
        let mut u = Unstructured::new(&data);
        let ours = r.read_bool();
        let theirs = <bool as Arbitrary>::arbitrary(&mut u).unwrap();
        assert_eq!(ours, theirs);
    }
}

#[test]
fn exhausted_bool_matches_unstructured() {
    let data: Vec<u8> = vec![];
    let mut r = ByteReader::new(&data);
    let mut u = Unstructured::new(&data);
    let ours = r.read_bool();
    let theirs = <bool as Arbitrary>::arbitrary(&mut u).unwrap();
    assert_eq!(ours, theirs);
    assert!(!ours);
}

#[test]
fn reads_consume_in_sequence() {
    let data: Vec<u8> = vec![7, 0, 1, 255];
    let mut r = ByteReader::new(&data);
    let mut u = Unstructured::new(&data);
    assert_eq!(
        r.read_le(1) as u8,
        <u8 as Arbitrary>::arbitrary(&mut u).unwrap()
    );
    assert_eq!(r.read_bool(), <bool as Arbitrary>::arbitrary(&mut u).unwrap());
    assert_eq!(
        r.read_le(2) as u16,
        <u16 as Arbitrary>::arbitrary(&mut u).unwrap()
    );
}
