use precompile_utils::{
    encode_arguments, Address, BoundedVec, Bytes, EvmDataReader, EvmDataWriter, H256, U256,
};

fn word(n: u64) -> Vec<u8> {
    let mut w = vec![0u8; 24];
    w.extend_from_slice(&n.to_be_bytes());
    w
}

fn padded(body: &[u8]) -> Vec<u8> {
    let mut v = body.to_vec();
    while v.len() % 32 != 0 {
        v.push(0);
    }
    v
}

#[test]
fn selector_extraction() {
    let input = [0x12u8, 0x34, 0x56, 0x78, 0xaa, 0xbb];
    let sel: u32 = EvmDataReader::read_selector(&input).unwrap();
    assert_eq!(sel, 0x12345678);
}

#[test]
fn selector_too_short() {
    let input = [0x12u8, 0x34, 0x56];
    let err = EvmDataReader::read_selector::<u32>(&input).unwrap_err();
    assert_eq!(err.reason(), "input is too short");
}

#[test]
fn selector_unknown() {
    let input = [0x12u8, 0x34, 0x56, 0x78];
    let err = EvmDataReader::read_selector::<u8>(&input).unwrap_err();
    assert_eq!(err.reason(), "unknown selector");
    let input2 = [0u8, 0, 0, 0x42];
    let sel: u8 = EvmDataReader::read_selector(&input2).unwrap();
    assert_eq!(sel, 0x42);
}

#[test]
fn skip_selector() {
    let input = [0x12u8, 0x34, 0x56, 0x78, 0x01, 0x02];
    let mut reader = EvmDataReader::new_skip_selector(&input).unwrap();
    assert_eq!(reader.read_till_end().unwrap(), &[0x01, 0x02]);
    let short = [0x12u8, 0x34, 0x56];
    let err = EvmDataReader::new_skip_selector(&short).unwrap_err();
    assert_eq!(err.reason(), "input is too short");
}

#[test]
fn encode_u256_one() {
    let out = EvmDataWriter::new().write(U256::from_u64(1)).build();
    assert_eq!(out, word(1));
}

#[test]
fn encode_bool_words() {
    let out = EvmDataWriter::new().write(true).write(false).build();
    let mut expected = word(1);
    expected.extend_from_slice(&word(0));
    assert_eq!(out, expected);
}

#[test]
fn encode_bytes_dave() {
    let out = encode_arguments((Bytes(b"dave".to_vec()),));
    let mut expected = word(0x20);
    expected.extend_from_slice(&word(4));
    expected.extend_from_slice(&padded(b"dave"));
    assert_eq!(out.len(), 96);
    assert_eq!(out, expected);
}

#[test]
fn encode_u256_array() {
    let arr = vec![U256::from_u64(1), U256::from_u64(2), U256::from_u64(3)];
    let out = encode_arguments((arr,));
    let mut expected = word(0x20);
    expected.extend_from_slice(&word(3));
    expected.extend_from_slice(&word(1));
    expected.extend_from_slice(&word(2));
    expected.extend_from_slice(&word(3));
    assert_eq!(out.len(), 160);
    assert_eq!(out, expected);
}

#[test]
fn encode_tuple_u256_bytes() {
    let out = encode_arguments((U256::from_u64(5), Bytes(b"ok".to_vec())));
    let mut expected = word(5);
    expected.extend_from_slice(&word(0x40));
    expected.extend_from_slice(&word(2));
    expected.extend_from_slice(&padded(b"ok"));
    assert_eq!(out.len(), 128);
    assert_eq!(out, expected);
}

#[test]
fn roundtrip_primitives() {
    let out = EvmDataWriter::new()
        .write(0xabu8)
        .write(0x1234u16)
        .write(0xdeadbeefu32)
        .write(0x0123456789abcdefu64)
        .write(0xfeedfacecafebeef0123456789abcdefu128)
        .write(true)
        .write(false)
        .build();
    let mut reader = EvmDataReader::new(&out);
    assert_eq!(reader.read::<u8>().unwrap(), 0xab);
    assert_eq!(reader.read::<u16>().unwrap(), 0x1234);
    assert_eq!(reader.read::<u32>().unwrap(), 0xdeadbeef);
    assert_eq!(reader.read::<u64>().unwrap(), 0x0123456789abcdef);
    assert_eq!(reader.read::<u128>().unwrap(), 0xfeedfacecafebeef0123456789abcdef);
    assert_eq!(reader.read::<bool>().unwrap(), true);
    assert_eq!(reader.read::<bool>().unwrap(), false);
}

#[test]
fn roundtrip_words_and_address() {
    let h = H256::new((0u8..32).collect());
    let u = U256::new((100u8..132).collect());
    let a = Address::new((1u8..21).collect());
    let out = EvmDataWriter::new()
        .write(H256::new(h.as_bytes().to_vec()))
        .write(U256::new(u.as_bytes().to_vec()))
        .write(Address::new(a.as_bytes().to_vec()))
        .build();
    assert_eq!(out.len(), 96);
    let mut reader = EvmDataReader::new(&out);
    assert_eq!(reader.read::<H256>().unwrap().as_bytes(), h.as_bytes());
    assert_eq!(reader.read::<U256>().unwrap().as_bytes(), u.as_bytes());
    assert_eq!(reader.read::<Address>().unwrap().as_bytes(), a.as_bytes());
}

#[test]
fn decode_ignores_upper_padding() {
    let input = [0xaau8; 32];
    assert_eq!(EvmDataReader::new(&input).read::<u8>().unwrap(), 0xaa);
    assert_eq!(EvmDataReader::new(&input).read::<u16>().unwrap(), 0xaaaa);
    assert_eq!(EvmDataReader::new(&input).read::<u64>().unwrap(), 0xaaaaaaaaaaaaaaaa);
    assert_eq!(EvmDataReader::new(&input).read::<bool>().unwrap(), true);
    assert_eq!(
        EvmDataReader::new(&input).read::<Address>().unwrap().as_bytes(),
        &[0xaa; 20],
    );
}

#[test]
fn roundtrip_bytes_lengths() {
    for len in [0usize, 1, 31, 32, 33, 63, 64, 1024] {
        let body: Vec<u8> = (0..len).map(|i| (i % 251) as u8).collect();
        let out = EvmDataWriter::new().write(Bytes(body.clone())).build();
        let expected_len = 64 + len.div_ceil(32) * 32;
        assert_eq!(out.len(), expected_len);
        let mut reader = EvmDataReader::new(&out);
        let back = reader.read::<Bytes>().unwrap();
        assert_eq!(back.as_bytes(), &body[..]);
    }
}

#[test]
fn roundtrip_nested_tuple() {
    let buf = vec![0xabu8; 40];
    let arr = vec![U256::from_u64(1), U256::from_u64(2), U256::from_u64(3)];
    let out = encode_arguments((U256::from_u64(7), Bytes(buf.clone()), arr));

    // Solidity reference encoding: three head words, then the tails.
    let mut expected = word(7);
    expected.extend_from_slice(&word(0x60));
    expected.extend_from_slice(&word(0xc0));
    expected.extend_from_slice(&word(40));
    expected.extend_from_slice(&padded(&buf));
    expected.extend_from_slice(&word(3));
    expected.extend_from_slice(&word(1));
    expected.extend_from_slice(&word(2));
    expected.extend_from_slice(&word(3));
    assert_eq!(out, expected);

    let mut reader = EvmDataReader::new(&out);
    assert_eq!(reader.read::<U256>().unwrap().as_bytes(), &word(7)[..]);
    assert_eq!(reader.read::<Bytes>().unwrap().as_bytes(), &buf[..]);
    let back: Vec<U256> = reader.read().unwrap();
    assert_eq!(back.len(), 3);
    assert_eq!(back[0].as_bytes(), &word(1)[..]);
    assert_eq!(back[1].as_bytes(), &word(2)[..]);
    assert_eq!(back[2].as_bytes(), &word(3)[..]);
}

#[test]
fn roundtrip_array_of_bytes() {
    let items = vec![Bytes(b"ab".to_vec()), Bytes(b"cdef".to_vec())];
    let out = EvmDataWriter::new().write(items).build();
    // Pointer to the array, length, then per-item offsets measured from
    // the start of the item area.
    assert_eq!(&out[0..32], &word(0x20)[..]);
    assert_eq!(&out[32..64], &word(2)[..]);
    assert_eq!(&out[64..96], &word(0x40)[..]);
    assert_eq!(&out[96..128], &word(0x80)[..]);
    let mut reader = EvmDataReader::new(&out);
    let back: Vec<Bytes> = reader.read().unwrap();
    assert_eq!(back.len(), 2);
    assert_eq!(back[0].as_bytes(), b"ab");
    assert_eq!(back[1].as_bytes(), b"cdef");
}

#[test]
fn build_is_repeatable() {
    let make = || {
        EvmDataWriter::new()
            .write(U256::from_u64(5))
            .write(Bytes(b"again".to_vec()))
            .write(vec![U256::from_u64(9)])
            .build()
    };
    assert_eq!(make(), make());
}

#[test]
fn selector_prefix_after_offsets() {
    let out = EvmDataWriter::new_with_selector(0x12345678)
        .write(Bytes(b"xy".to_vec()))
        .build();
    // Offsets are measured from the selector-less base.
    assert_eq!(&out[0..4], &[0x12, 0x34, 0x56, 0x78]);
    assert_eq!(&out[4..36], &word(0x20)[..]);
    assert_eq!(&out[36..68], &word(2)[..]);
    assert_eq!(out.len(), 100);
}

#[test]
fn bounded_vec_within_bound() {
    let items = vec![U256::from_u64(10), U256::from_u64(20)];
    let out = EvmDataWriter::new()
        .write(BoundedVec::<U256, 3>::from_vec(items))
        .build();
    let mut reader = EvmDataReader::new(&out);
    let back: BoundedVec<U256, 3> = reader.read().unwrap();
    let inner = back.into_inner();
    assert_eq!(inner.len(), 2);
    assert_eq!(inner[0].as_bytes(), &word(10)[..]);
    assert_eq!(inner[1].as_bytes(), &word(20)[..]);
}

#[test]
fn bounded_vec_over_bound() {
    let items: Vec<U256> = (1u64..=4).map(U256::from_u64).collect();
    let out = EvmDataWriter::new().write(items).build();
    let mut reader = EvmDataReader::new(&out);
    let err = reader.read::<BoundedVec<U256, 3>>().unwrap_err();
    assert_eq!(
        err.reason(),
        "value too large : Array has more than max items allowed",
    );
}

#[test]
fn expect_arguments_checks_words() {
    let input = word(1);
    let reader = EvmDataReader::new(&input);
    assert!(reader.expect_arguments(1).is_ok());
    let err = reader.expect_arguments(2).unwrap_err();
    assert_eq!(err.reason(), "input doesn't match expected length");
}

#[test]
fn raw_bytes_and_till_end() {
    let input = [1u8, 2, 3, 4, 5];
    let mut reader = EvmDataReader::new(&input);
    assert_eq!(reader.read_raw_bytes(2).unwrap(), &[1, 2]);
    assert_eq!(reader.read_till_end().unwrap(), &[3, 4, 5]);
}

#[test]
fn bytes_as_str() {
    assert_eq!(Bytes(b"ok".to_vec()).as_str().unwrap(), "ok");
    assert!(Bytes(vec![0xff, 0xfe]).as_str().is_err());
}

#[test]
fn roundtrip_dynamic_tuple() {
    // A dynamic tuple read on its own follows the leading pointer word.
    let out = EvmDataWriter::new()
        .write((U256::from_u64(5), Bytes(b"ok".to_vec())))
        .build();
    assert_eq!(&out[0..32], &word(0x20)[..]);
    let mut reader = EvmDataReader::new(&out);
    let (u, b): (U256, Bytes) = reader.read().unwrap();
    assert_eq!(u.as_bytes(), &word(5)[..]);
    assert_eq!(b.as_bytes(), b"ok");
}

#[test]
fn roundtrip_static_tuple() {
    // A tuple of static components is the plain concatenation of heads.
    let out = encode_arguments((7u8, true, U256::from_u64(9)));
    let mut expected = word(7);
    expected.extend_from_slice(&word(1));
    expected.extend_from_slice(&word(9));
    assert_eq!(out, expected);
    let mut reader = EvmDataReader::new(&out);
    let (a, b, c): (u8, bool, U256) = reader.read().unwrap();
    assert_eq!(a, 7);
    assert_eq!(b, true);
    assert_eq!(c.as_bytes(), &word(9)[..]);
}
