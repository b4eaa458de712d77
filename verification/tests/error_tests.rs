use precompile_utils::{
    Address, BoundedVec, Bytes, EvmDataReader, EvmDataWriter, H256, U256,
};

fn word(n: u64) -> Vec<u8> {
    let mut w = vec![0u8; 24];
    w.extend_from_slice(&n.to_be_bytes());
    w
}

fn huge_word() -> Vec<u8> {
    let mut w = vec![0u8; 32];
    w[0] = 1;
    w
}

#[test]
fn word_reads_out_of_bounds() {
    let input = [0u8; 4];
    assert_eq!(
        EvmDataReader::new(&input).read::<u8>().unwrap_err().reason(),
        "tried to parse u8 out of bounds",
    );
    assert_eq!(
        EvmDataReader::new(&input).read::<u16>().unwrap_err().reason(),
        "tried to parse u16 out of bounds",
    );
    assert_eq!(
        EvmDataReader::new(&input).read::<u32>().unwrap_err().reason(),
        "tried to parse u32 out of bounds",
    );
    assert_eq!(
        EvmDataReader::new(&input).read::<u64>().unwrap_err().reason(),
        "tried to parse u64 out of bounds",
    );
    assert_eq!(
        EvmDataReader::new(&input).read::<u128>().unwrap_err().reason(),
        "tried to parse u128 out of bounds",
    );
    assert_eq!(
        EvmDataReader::new(&input).read::<U256>().unwrap_err().reason(),
        "tried to parse U256 out of bounds",
    );
    assert_eq!(
        EvmDataReader::new(&input).read::<H256>().unwrap_err().reason(),
        "tried to parse H256 out of bounds",
    );
    assert_eq!(
        EvmDataReader::new(&input).read::<Address>().unwrap_err().reason(),
        "tried to parse H160 out of bounds",
    );
    assert_eq!(
        EvmDataReader::new(&input).read::<bool>().unwrap_err().reason(),
        "tried to parse bool out of bounds",
    );
}

#[test]
fn raw_bytes_out_of_bounds() {
    let input = [0u8; 8];
    let mut reader = EvmDataReader::new(&input);
    let err = reader.read_raw_bytes(9).unwrap_err();
    assert_eq!(err.reason(), "tried to parse raw bytes out of bounds");
}

#[test]
fn cursor_overflow() {
    let input = [0u8; 8];
    let mut reader = EvmDataReader::new(&input);
    reader.read_raw_bytes(1).unwrap();
    let err = reader.read_raw_bytes(usize::MAX).unwrap_err();
    assert_eq!(err.reason(), "data reading cursor overflow");
}

#[test]
fn pointer_errors() {
    // No word to read the offset from.
    let empty: [u8; 0] = [];
    let err = EvmDataReader::new(&empty).read::<Bytes>().unwrap_err();
    assert_eq!(err.reason(), "tried to parse array offset out of bounds");

    // An offset too large for a machine word.
    let err = EvmDataReader::new(&huge_word()).read_pointer().unwrap_err();
    assert_eq!(err.reason(), "array offset is too large");

    // An offset at the end of the input.
    let input = word(32);
    let err = EvmDataReader::new(&input).read_pointer().unwrap_err();
    assert_eq!(err.reason(), "pointer points out of bounds");
}

#[test]
fn array_length_errors() {
    // The pointed-to data is too short to hold a length word.
    let mut input = word(32);
    input.push(0);
    let err = EvmDataReader::new(&input).read::<Vec<U256>>().unwrap_err();
    assert_eq!(err.reason(), "tried to parse array length out of bounds");

    // A length that does not fit a machine word.
    let mut input = word(32);
    input.extend_from_slice(&huge_word());
    let err = EvmDataReader::new(&input).read::<Vec<U256>>().unwrap_err();
    assert_eq!(err.reason(), "array length is too large");
}

#[test]
fn bytes_length_errors() {
    let mut input = word(32);
    input.push(0);
    let err = EvmDataReader::new(&input).read::<Bytes>().unwrap_err();
    assert_eq!(err.reason(), "tried to parse bytes/string length out of bounds");

    let mut input = word(32);
    input.extend_from_slice(&huge_word());
    let err = EvmDataReader::new(&input).read::<Bytes>().unwrap_err();
    assert_eq!(err.reason(), "bytes/string length is too large");

    // A declared length running past the end of the input.
    let mut input = word(32);
    input.extend_from_slice(&word(100));
    let err = EvmDataReader::new(&input).read::<Bytes>().unwrap_err();
    assert_eq!(err.reason(), "tried to parse bytes/string out of bounds");
}

#[test]
fn bounded_length_errors() {
    let mut input = word(32);
    input.push(0);
    let err = EvmDataReader::new(&input)
        .read::<BoundedVec<U256, 3>>()
        .unwrap_err();
    assert_eq!(err.reason(), "out of bounds: length of array");

    let mut input = word(32);
    input.extend_from_slice(&huge_word());
    let err = EvmDataReader::new(&input)
        .read::<BoundedVec<U256, 3>>()
        .unwrap_err();
    assert_eq!(
        err.reason(),
        "value too large : Array has more than max items allowed",
    );
}

#[test]
fn truncated_encodings_fail() {
    // A whole-word body leaves no padding slack: the lenient decoder would
    // otherwise still succeed when only padding bytes are cut away.
    let body = vec![0x5au8; 64];
    let valid = EvmDataWriter::new().write(Bytes(body)).build();
    for k in [1usize, 31, 32, 33] {
        let cut = &valid[..valid.len() - k];
        let res = EvmDataReader::new(cut).read::<Bytes>();
        assert!(res.is_err());
    }

    let arr: Vec<U256> = (1u64..=3).map(U256::from_u64).collect();
    let valid = EvmDataWriter::new().write(arr).build();
    for k in [1usize, 31, 32, 33] {
        let cut = &valid[..valid.len() - k];
        let res = EvmDataReader::new(cut).read::<Vec<U256>>();
        assert!(res.is_err());
    }
}

#[test]
fn array_items_fail_on_truncation() {
    // Two words announced, only one present.
    let mut input = word(32);
    input.extend_from_slice(&word(2));
    input.extend_from_slice(&word(7));
    let err = EvmDataReader::new(&input).read::<Vec<U256>>().unwrap_err();
    assert_eq!(err.reason(), "tried to parse U256 out of bounds");
}
