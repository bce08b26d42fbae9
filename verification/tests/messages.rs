use exonum::buffer::zero_buf;
use exonum::consensus::{
    check_status_list_field, read_status_list_field, write_status_list_field, Block, BlockContent,
    Connect, PeerAddr, Precommit, Prevote, Propose, RequestBlock, Status, TimeSpec,
};
use exonum::crypto::{gen_keypair, hash, keypair_from_seed};
use exonum::field::{
    check_byte_lists_field, check_bytes_field, check_str_field, check_u16_list_field,
    check_u32_list_field, read_byte_lists_field, read_bytes_field, read_str_field,
    read_u16_list_field, read_u32_list_field, write_byte_lists_field, write_bytes_field,
    write_str_field, write_u16_list_field, write_u32_list_field,
};
use exonum::messages::{
    check_raw_list_field, read_raw_list_field, write_raw_list_field, RawMessage,
};

#[test]
fn test_str_segment() {
    let mut buf = zero_buf(8);
    let s = "test юникодной строчки efw_adqq ss/adfq";
    write_str_field(&mut buf, 0, 8, s);
    check_str_field(&buf, 0, 8).unwrap();

    let buf2 = buf.clone();
    check_str_field(&buf2, 0, 8).unwrap();
    let s2 = read_str_field(&buf2, 0, 8);
    assert_eq!(s2, s);
}

#[test]
fn test_vec_segment() {
    let mut buf = zero_buf(8);
    let v: Vec<u8> = vec![1, 2, 3, 5, 10];
    write_bytes_field(&mut buf, 0, 8, &v);
    check_bytes_field(&buf, 0, 8).unwrap();

    let buf2 = buf.clone();
    check_bytes_field(&buf2, 0, 8).unwrap();
    let v2 = read_bytes_field(&buf2, 0, 8);
    assert_eq!(v2, v);
}

#[test]
fn test_u16_segment() {
    let mut buf = zero_buf(8);
    let s: Vec<u16> = vec![1, 3, 10, 15, 23, 4, 45];
    write_u16_list_field(&mut buf, 0, 8, &s);
    check_u16_list_field(&buf, 0, 8).unwrap();

    let buf2 = buf.clone();
    check_u16_list_field(&buf2, 0, 8).unwrap();
    let s2 = read_u16_list_field(&buf2, 0, 8);
    assert_eq!(s2, s);
}

#[test]
fn test_u32_segment() {
    let mut buf = zero_buf(8);
    let s: Vec<u32> = vec![1, 3, 10, 15, 23, 4, 45];
    write_u32_list_field(&mut buf, 0, 8, &s);
    check_u32_list_field(&buf, 0, 8).unwrap();

    let buf2 = buf.clone();
    check_u32_list_field(&buf2, 0, 8).unwrap();
    let s2 = read_u32_list_field(&buf2, 0, 8);
    assert_eq!(s2, s);
}

#[test]
fn test_segments_of_segments() {
    let mut buf = zero_buf(8);
    let v1: Vec<u8> = vec![1, 2, 3];
    let v2: Vec<u8> = vec![1, 3];
    let v3: Vec<u8> = vec![2, 5, 2, 3, 56, 3];

    let dat = vec![v1, v2, v3];
    write_byte_lists_field(&mut buf, 0, 8, &dat);
    check_byte_lists_field(&buf, 0, 8).unwrap();

    let buf2 = buf.clone();
    check_byte_lists_field(&buf2, 0, 8).unwrap();
    let dat2 = read_byte_lists_field(&buf2, 0, 8);
    assert_eq!(dat2, dat);
}

#[test]
fn test_segments_of_raw_messages() {
    let (_, sec_key) = gen_keypair();

    let mut buf = zero_buf(8);
    let m1 = Status::new(1, 2, &hash(&[]), &sec_key);
    let m2 = Status::new(2, 4, &hash(&[1]), &sec_key);
    let m3 = Status::new(6, 5, &hash(&[3]), &sec_key);

    let dat = vec![m1.raw().clone(), m2.raw().clone(), m3.raw().clone()];
    write_raw_list_field(&mut buf, 0, 8, &dat);
    check_raw_list_field(&buf, 0, 8).unwrap();

    let buf2 = buf.clone();
    check_raw_list_field(&buf2, 0, 8).unwrap();
    let dat2 = read_raw_list_field(&buf2, 0, 8);
    assert!(dat2 == dat);
}

#[test]
fn test_segments_of_status_messages() {
    let (_, sec_key) = gen_keypair();

    let mut buf = zero_buf(8);
    let m1 = Status::new(1, 2, &hash(&[]), &sec_key);
    let m2 = Status::new(2, 4, &hash(&[1]), &sec_key);
    let m3 = Status::new(6, 5, &hash(&[3]), &sec_key);

    let dat = vec![m1, m2, m3];
    write_status_list_field(&mut buf, 0, 8, &dat);
    check_status_list_field(&buf, 0, 8).unwrap();

    let buf2 = buf.clone();
    check_status_list_field(&buf2, 0, 8).unwrap();
    let dat2 = read_status_list_field(&buf2, 0, 8);
    assert!(dat2 == dat);
}

#[test]
fn test_connect() {
    let socket_address = PeerAddr::new(18, 34, 3, 4, 7777);
    let time = TimeSpec::new(1_486_720_340, 205_000_000);
    let (public_key, secret_key) = gen_keypair();

    // write
    let connect = Connect::new(&public_key, socket_address, time, &secret_key);
    // read
    assert!(connect.pub_key() == public_key);
    assert!(connect.addr() == socket_address);
    assert!(connect.time() == time);
    assert!(connect.verify(&public_key));
}

#[test]
fn test_propose() {
    let validator = 123_123;
    let height = 123_123_123;
    let round = 321_321_312;
    let time = TimeSpec::new(1_486_720_340, 205_000_000);
    let prev_hash = hash(&[1, 2, 3]);
    let txs = vec![hash(&[1]), hash(&[2]), hash(&[2])];
    let (public_key, secret_key) = gen_keypair();

    // write
    let propose = Propose::new(validator, height, round, time, &prev_hash, &txs, &secret_key);
    // read
    assert_eq!(propose.validator(), validator);
    assert_eq!(propose.height(), height);
    assert_eq!(propose.round(), round);
    assert!(propose.time() == time);
    assert!(propose.prev_hash() == prev_hash);
    assert_eq!(propose.transactions().len(), 3);
    assert!(propose.transactions()[0] == txs[0]);
    assert!(propose.transactions()[1] == txs[1]);
    assert!(propose.transactions()[2] == txs[2]);
    assert!(propose.verify(&public_key));
}

#[test]
fn test_prevote() {
    let validator = 123_123;
    let height = 123_123_123;
    let round = 321_321_312;
    let propose_hash = hash(&[1, 2, 3]);
    let locked_round = 654_345;
    let (public_key, secret_key) = gen_keypair();

    // write
    let prevote = Prevote::new(validator, height, round, &propose_hash, locked_round, &secret_key);
    // read
    assert_eq!(prevote.validator(), validator);
    assert_eq!(prevote.height(), height);
    assert_eq!(prevote.round(), round);
    assert!(prevote.propose_hash() == propose_hash);
    assert_eq!(prevote.locked_round(), locked_round);
    assert!(prevote.verify(&public_key));
}

#[test]
fn test_precommit() {
    let validator = 123_123;
    let height = 123_123_123;
    let round = 321_321_312;
    let propose_hash = hash(&[1, 2, 3]);
    let block_hash = hash(&[3, 2, 1]);
    let (public_key, secret_key) = gen_keypair();

    // write
    let precommit =
        Precommit::new(validator, height, round, &propose_hash, &block_hash, &secret_key);
    // read
    assert_eq!(precommit.validator(), validator);
    assert_eq!(precommit.height(), height);
    assert_eq!(precommit.round(), round);
    assert!(precommit.propose_hash() == propose_hash);
    assert!(precommit.block_hash() == block_hash);
    assert!(precommit.verify(&public_key));
}

#[test]
fn test_status() {
    let validator = 123_123;
    let height = 123_123_123;
    let last_hash = hash(&[3, 2, 1]);
    let (public_key, secret_key) = gen_keypair();

    // write
    let commit = Status::new(validator, height, &last_hash, &secret_key);
    // read
    assert_eq!(commit.validator(), validator);
    assert_eq!(commit.height(), height);
    assert!(commit.last_hash() == last_hash);
    assert!(commit.verify(&public_key));
}

#[test]
fn test_block() {
    let (_, secret_key) = gen_keypair();

    let content = BlockContent::new(
        500,
        TimeSpec::new(1_486_720_340, 205_000_000),
        &hash(&[1]),
        &hash(&[2]),
        &hash(&[3]),
        0,
    );

    let precommits = vec![
        Precommit::new(123, 15, 25, &hash(&[1, 2, 3]), &hash(&[3, 2, 1]), &secret_key),
        Precommit::new(13, 25, 35, &hash(&[4, 2, 3]), &hash(&[3, 3, 1]), &secret_key),
        Precommit::new(323, 15, 25, &hash(&[1, 1, 3]), &hash(&[5, 2, 1]), &secret_key),
    ];
    let transactions = vec![
        Status::new(1, 2, &hash(&[]), &secret_key).raw().clone(),
        Status::new(2, 4, &hash(&[2]), &secret_key).raw().clone(),
        Status::new(4, 7, &hash(&[3]), &secret_key).raw().clone(),
    ];

    let block = Block::new(content.clone(), precommits.clone(), transactions.clone(), &secret_key);
    assert!(block.block() == content);
    assert!(block.precommits() == precommits);
    assert!(block.transactions() == transactions);
}

#[test]
fn test_request_block() {
    let (public_key, secret_key) = gen_keypair();
    let time = TimeSpec::new(1_486_720_340, 205_000_000);

    // write
    let request = RequestBlock::new(&public_key, &public_key, time, 1, &secret_key);
    // read
    assert!(request.from() == public_key);
    assert_eq!(request.height(), 1);
    assert!(request.to() == public_key);
    assert!(request.time() == time);
    assert!(request.verify(&public_key));
}

#[test]
fn test_segment_pointer_layout() {
    // A five-byte payload written at [0, 8) of an eight-byte fixed region:
    // the pointer must read (offset 8, length 5) little-endian, the payload
    // must follow at the tail.
    let mut buf = zero_buf(8);
    let v: Vec<u8> = vec![9, 8, 7, 6, 5];
    write_bytes_field(&mut buf, 0, 8, &v);
    assert_eq!(buf, vec![8, 0, 0, 0, 5, 0, 0, 0, 9, 8, 7, 6, 5]);
}

#[test]
fn test_segment_bounds_rejected() {
    // offset 8, length 255: the payload range leaves the buffer.
    let buf: Vec<u8> = vec![8, 0, 0, 0, 255, 0, 0, 0];
    assert!(check_bytes_field(&buf, 0, 8).is_err());
    // A pointer pointing backwards into its own slot.
    let buf2: Vec<u8> = vec![0, 0, 0, 0, 4, 0, 0, 0];
    assert!(check_bytes_field(&buf2, 0, 8).is_err());
    // A truncated buffer: no room for the pointer itself.
    let buf3: Vec<u8> = vec![0, 0, 0];
    assert!(check_bytes_field(&buf3, 0, 8).is_err());
}

#[test]
fn test_u16_segment_odd_length_rejected() {
    // offset 8, length 3: not a multiple of the element width.
    let buf: Vec<u8> = vec![8, 0, 0, 0, 3, 0, 0, 0, 1, 2, 3];
    assert!(check_u16_list_field(&buf, 0, 8).is_err());
    assert!(check_bytes_field(&buf, 0, 8).is_ok());
}

#[test]
fn test_str_segment_rejects_invalid_utf8() {
    // offset 8, length 2, payload 0xff 0xfe: not UTF-8.
    let buf: Vec<u8> = vec![8, 0, 0, 0, 2, 0, 0, 0, 0xff, 0xfe];
    assert!(check_str_field(&buf, 0, 8).is_err());
    assert!(check_bytes_field(&buf, 0, 8).is_ok());
}

#[test]
fn test_hash_exact() {
    // SHA-256 of the empty input.
    let expected: Vec<u8> = vec![
        0xe3, 0xb0, 0xc4, 0x42, 0x98, 0xfc, 0x1c, 0x14, 0x9a, 0xfb, 0xf4, 0xc8, 0x99, 0x6f,
        0xb9, 0x24, 0x27, 0xae, 0x41, 0xe4, 0x64, 0x9b, 0x93, 0x4c, 0xa4, 0x95, 0x99, 0x1b,
        0x78, 0x52, 0xb8, 0x55,
    ];
    assert_eq!(hash(&[]).as_bytes(), &expected);
}

#[test]
fn test_signature_rejects_wrong_key() {
    let (_, secret_key) = gen_keypair();
    let (other_public, _) = gen_keypair();
    let status = Status::new(1, 2, &hash(&[7]), &secret_key);
    assert!(!status.verify(&other_public));
}

#[test]
fn test_signature_rejects_mutation() {
    let (public_key, secret_key) = gen_keypair();
    let status = Status::new(1, 2, &hash(&[7]), &secret_key);
    let bytes = status.raw().as_bytes();
    for i in 0..bytes.len() - 64 {
        let mut mutated = bytes.clone();
        mutated[i] ^= 1;
        let tampered = RawMessage::from_vec(mutated);
        assert!(!tampered.verify(&public_key));
    }
}

#[test]
fn test_propose_roundtrip_through_bytes() {
    // Serialize, deserialize, verify: the accessors must hand back exactly
    // the constructed values, the duplicate hash included.
    let validator = 123_123;
    let height = 123_123_123;
    let round = 321_321_312;
    let time = TimeSpec::new(42, 7);
    let prev_hash = hash(&[1, 2, 3]);
    let txs = vec![hash(&[1]), hash(&[2]), hash(&[2])];
    let (public_key, secret_key) = gen_keypair();

    let propose = Propose::new(validator, height, round, time, &prev_hash, &txs, &secret_key);
    let wire = propose.raw().as_bytes().clone();

    let decoded = Propose::from_raw(RawMessage::from_vec(wire)).unwrap();
    assert_eq!(decoded.validator(), validator);
    assert_eq!(decoded.height(), height);
    assert_eq!(decoded.round(), round);
    assert!(decoded.time() == time);
    assert!(decoded.prev_hash() == prev_hash);
    assert!(decoded.transactions()[1] == decoded.transactions()[2]);
    assert!(decoded.transactions() == txs);
    assert!(decoded.verify(&public_key));
}

#[test]
fn test_from_raw_rejects_wrong_type() {
    let (_, secret_key) = gen_keypair();
    let status = Status::new(1, 2, &hash(&[]), &secret_key);
    let bytes = status.raw().as_bytes().clone();
    assert!(Propose::from_raw(RawMessage::from_vec(bytes)).is_err());
    let short = RawMessage::from_vec(vec![0, 1, 2]);
    assert!(Status::from_raw(short).is_err());
}

#[test]
fn test_deterministic_signing() {
    // Ed25519 signing is deterministic: the same seed and message give the
    // same key and byte-identical envelopes.
    let seed: Vec<u8> = (0u8..32).collect();
    let (public_a, secret_a) = keypair_from_seed(seed.clone());
    let (public_b, secret_b) = keypair_from_seed(seed);
    assert!(public_a == public_b);
    let s1 = Status::new(1, 2, &hash(&[5]), &secret_a);
    let s2 = Status::new(1, 2, &hash(&[5]), &secret_b);
    assert!(s1.raw() == s2.raw());
    assert!(s1.verify(&public_a));
}

#[test]
fn test_gen_keypair_distinct() {
    let (public_a, _) = gen_keypair();
    let (public_b, _) = gen_keypair();
    assert!(!(public_a == public_b));
}
