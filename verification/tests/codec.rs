use blind_threshold_bls::codec::{
    admit_records, all_zero, decode_partial, encode_partial, has_duplicate, join_records,
    polynomial_framed,
    polynomial_public_key, polynomial_threshold, read_u32, read_u64, record_index_of,
    record_indices, seed_prefix, share_index_of, split_records, write_u32, INDEX_LEN, PUBLIC_KEY_LEN, SEED_LEN,
    SHARE_LEN, TOKEN_LEN,
};
use blind_threshold_bls::protocol::{seal_blinding, seal_partial, seal_signature};
use blind_threshold_bls::{SchemeError, PARTIAL_SIG_LENGTH, SIGNATURE_LEN, VEC_LENGTH};

fn record(index: u32, fill: u8) -> Vec<u8> {
    let mut out = vec![48u8, 0, 0, 0, 0, 0, 0, 0];
    out.extend_from_slice(&[fill; 48]);
    out.extend_from_slice(&index.to_le_bytes());
    out
}

#[test]
fn widths() {
    assert_eq!(VEC_LENGTH, 8);
    assert_eq!(SIGNATURE_LEN, 48);
    assert_eq!(INDEX_LEN, 4);
    assert_eq!(PARTIAL_SIG_LENGTH, VEC_LENGTH + SIGNATURE_LEN + INDEX_LEN);
    assert_eq!(PARTIAL_SIG_LENGTH, 60);
    assert_eq!(SEED_LEN, 32);
    assert_eq!(TOKEN_LEN, 32);
    assert_eq!(SHARE_LEN, 36);
    assert_eq!(PUBLIC_KEY_LEN, 96);
}

#[test]
fn little_endian_reads() {
    let bytes = [0xaau8, 0x01, 0x02, 0x03, 0x04, 0x05, 0x06, 0x07, 0x08, 0xbb];
    assert_eq!(read_u32(&bytes, 1), 0x0403_0201);
    assert_eq!(read_u32(&bytes, 6), 0xbb08_0706);
    assert_eq!(read_u64(&bytes, 1), 0x0807_0605_0403_0201);
    assert_eq!(read_u32(&[0xff; 4], 0), u32::MAX);
    assert_eq!(read_u64(&[0xff; 8], 0), u64::MAX);
    assert_eq!(read_u32(&[0, 1, 0, 0], 0), 256);
}

#[test]
fn record_layout() {
    assert_eq!(record_index_of(&record(7, 1)), Ok(7));
    assert_eq!(record_index_of(&record(0, 0)), Ok(0));
    assert_eq!(record_index_of(&record(u32::MAX - 1, 1)), Ok(u32::MAX - 1));
    assert_eq!(record_index_of(&record(u32::MAX, 1)), Err(SchemeError::Decode));
    assert_eq!(record_index_of(&record(7, 1)[..59]), Err(SchemeError::Decode));
    assert_eq!(record_index_of(&[]), Err(SchemeError::Decode));
    let mut long = record(7, 1);
    long.push(0);
    assert_eq!(record_index_of(&long), Err(SchemeError::Decode));
    for at in 0..8 {
        let mut bad = record(7, 1);
        bad[at] ^= 0x10;
        assert_eq!(record_index_of(&bad), Err(SchemeError::Decode));
    }
}

#[test]
fn streams_are_cut_by_fixed_stride() {
    let mut stream = record(3, 1);
    stream.extend_from_slice(&record(1, 2));
    stream.extend_from_slice(&record(2, 3));
    assert_eq!(
        split_records(&stream),
        Ok(vec![record(3, 1), record(1, 2), record(2, 3)])
    );
    assert_eq!(split_records(&[]), Ok(vec![]));
    assert_eq!(split_records(&stream[..179]), Err(SchemeError::Decode));
    assert_eq!(split_records(&stream[..1]), Err(SchemeError::Decode));
    // cutting looks at widths only
    assert_eq!(split_records(&[9u8; 60]), Ok(vec![vec![9u8; 60]]));
}

#[test]
fn indices_of_records() {
    assert_eq!(
        record_indices(&vec![record(3, 1), record(1, 2), record(3, 3)]),
        Ok(vec![3, 1, 3])
    );
    assert_eq!(record_indices(&vec![]), Ok(vec![]));
    assert_eq!(
        record_indices(&vec![record(3, 1), vec![9u8; 60]]),
        Err(SchemeError::Decode)
    );
}

#[test]
fn duplicates() {
    assert!(!has_duplicate(&vec![]));
    assert!(!has_duplicate(&vec![5]));
    assert!(!has_duplicate(&vec![0, 1, 2, 3]));
    assert!(has_duplicate(&vec![0, 1, 2, 0]));
    assert!(has_duplicate(&vec![1, 1]));
    assert!(has_duplicate(&vec![4, 2, 2, 9]));
}

#[test]
fn admission_of_streams() {
    let mut stream = record(0, 1);
    stream.extend_from_slice(&record(2, 2));
    stream.extend_from_slice(&record(4, 3));
    assert_eq!(
        admit_records(3, &stream),
        Ok(vec![record(0, 1), record(2, 2), record(4, 3)])
    );
    assert_eq!(admit_records(0, &stream).map(|v| v.len()), Ok(3));
    assert_eq!(admit_records(4, &stream), Err(SchemeError::InsufficientShares));
    assert_eq!(admit_records(3, &stream[..120]), Err(SchemeError::InsufficientShares));
    assert_eq!(admit_records(1, &stream[..121]), Err(SchemeError::Decode));
    assert_eq!(admit_records(0, &[]), Ok(vec![]));
    assert_eq!(admit_records(1, &[]), Err(SchemeError::InsufficientShares));

    let mut repeated = stream.clone();
    repeated.extend_from_slice(&record(2, 9));
    assert_eq!(admit_records(3, &repeated), Err(SchemeError::InsufficientShares));
    assert_eq!(admit_records(1, &repeated), Err(SchemeError::InsufficientShares));

    // a layout fault is reported before a shortage
    let mut corrupt = stream.clone();
    corrupt[60] = 0;
    assert_eq!(admit_records(9, &corrupt), Err(SchemeError::Decode));
}

#[test]
fn seed_is_the_first_thirty_two_bytes() {
    let entropy: Vec<u8> = (0u8..40).collect();
    assert_eq!(seed_prefix(&entropy), Ok((0u8..32).collect::<Vec<u8>>()));
    assert_eq!(seed_prefix(&entropy[..32]), Ok((0u8..32).collect::<Vec<u8>>()));
    assert_eq!(seed_prefix(&entropy[..31]), Err(SchemeError::Seed));
    assert_eq!(seed_prefix(&[]), Err(SchemeError::Seed));
}

#[test]
fn zero_buffers() {
    assert!(all_zero(&[]));
    assert!(all_zero(&[0u8; 32]));
    let mut one = [0u8; 32];
    one[31] = 1;
    assert!(!all_zero(&one));
}

#[test]
fn polynomial_layout() {
    let mut two = vec![2u8, 0, 0, 0, 0, 0, 0, 0];
    two.extend_from_slice(&[5u8; 192]);
    assert!(polynomial_framed(&two));
    assert!(!polynomial_framed(&two[..199]));
    two.push(0);
    assert!(!polynomial_framed(&two));
    assert!(!polynomial_framed(&[0u8; 8]));
    assert!(!polynomial_framed(&[]));
    assert!(!polynomial_framed(&[1u8, 0, 0]));
    let mut huge = vec![0xffu8; 8];
    huge.extend_from_slice(&[5u8; 96]);
    assert!(!polynomial_framed(&huge));
    let mut one = vec![1u8, 0, 0, 0, 0, 0, 0, 0];
    one.extend_from_slice(&[5u8; 96]);
    assert!(polynomial_framed(&one));
}

#[test]
fn sealing_of_results() {
    assert_eq!(seal_signature(Ok(vec![1u8; 48])), Ok(vec![1u8; 48]));
    assert_eq!(seal_signature(Ok(vec![1u8; 47])), Err(SchemeError::Decode));
    assert_eq!(seal_signature(Ok(vec![])), Err(SchemeError::Decode));
    assert_eq!(
        seal_signature(Err(SchemeError::InvalidToken)),
        Err(SchemeError::InvalidToken)
    );

    assert_eq!(seal_partial(7, Ok(record(7, 1))), Ok(record(7, 1)));
    assert_eq!(seal_partial(8, Ok(record(7, 1))), Err(SchemeError::Decode));
    assert_eq!(seal_partial(7, Ok(vec![1u8; 60])), Err(SchemeError::Decode));
    assert_eq!(
        seal_partial(u32::MAX, Ok(record(u32::MAX, 1))),
        Err(SchemeError::Decode)
    );
    assert_eq!(
        seal_partial(7, Err(SchemeError::Decode)),
        Err(SchemeError::Decode)
    );

    let sealed = seal_blinding(Ok((vec![3u8; 32], vec![4u8; 48]))).unwrap();
    assert_eq!(sealed.blinding_factor, vec![3u8; 32]);
    assert_eq!(sealed.message, vec![4u8; 48]);
    assert_eq!(
        seal_blinding(Ok((vec![0u8; 32], vec![4u8; 48]))).err(),
        Some(SchemeError::InvalidToken)
    );
    assert_eq!(
        seal_blinding(Ok((vec![3u8; 31], vec![4u8; 48]))).err(),
        Some(SchemeError::Decode)
    );
    assert_eq!(
        seal_blinding(Ok((vec![3u8; 32], vec![4u8; 49]))).err(),
        Some(SchemeError::Decode)
    );
    assert_eq!(
        seal_blinding(Err(SchemeError::Decode)).err(),
        Some(SchemeError::Decode)
    );
}

#[test]
fn error_codes() {
    assert_eq!(SchemeError::Decode.code(), "DecodeError");
    assert_eq!(SchemeError::Seed.code(), "SeedError");
    assert_eq!(SchemeError::InvalidToken.code(), "InvalidTokenError");
    assert_eq!(SchemeError::InsufficientShares.code(), "InsufficientSharesError");
    assert_eq!(SchemeError::Verification.code(), "VerificationError");
}

#[test]
fn little_endian_writes() {
    assert_eq!(write_u32(0x0102_0304), vec![4u8, 3, 2, 1]);
    assert_eq!(write_u32(0), vec![0u8; 4]);
    assert_eq!(write_u32(u32::MAX), vec![0xffu8; 4]);
    assert_eq!(write_u32(256), vec![0u8, 1, 0, 0]);
    for x in [0u32, 1, 255, 256, 65535, 65536, 0x00ff_ffff, 0x0100_0000, u32::MAX] {
        assert_eq!(read_u32(&write_u32(x), 0), x);
        assert_eq!(write_u32(x), x.to_le_bytes().to_vec());
    }
}

#[test]
fn records_are_laid_out_and_taken_apart() {
    let laid = encode_partial(7, &[9u8; 48]).unwrap();
    assert_eq!(laid, record(7, 9));
    let apart = decode_partial(&laid).unwrap();
    assert_eq!(apart.index, 7);
    assert_eq!(apart.signature, vec![9u8; 48]);

    let laid = encode_partial(0x0a0b_0c0d, &[1u8; 48]).unwrap();
    assert_eq!(laid.len(), PARTIAL_SIG_LENGTH);
    assert_eq!(&laid[56..], &[0x0du8, 0x0c, 0x0b, 0x0a]);
    assert_eq!(record_index_of(&laid), Ok(0x0a0b_0c0d));

    assert_eq!(encode_partial(u32::MAX, &[9u8; 48]), Err(SchemeError::Decode));
    assert_eq!(encode_partial(1, &[9u8; 47]), Err(SchemeError::Decode));
    assert_eq!(encode_partial(1, &[9u8; 49]), Err(SchemeError::Decode));
    assert_eq!(
        decode_partial(&record(u32::MAX, 1)).err(),
        Some(SchemeError::Decode)
    );
    assert_eq!(decode_partial(&[0u8; 60]).err(), Some(SchemeError::Decode));
    assert_eq!(decode_partial(&[]).err(), Some(SchemeError::Decode));

    let mixed: Vec<u8> = (100u8..160).collect();
    let mut source = record(3, 0);
    source[8..56].copy_from_slice(&mixed[..48]);
    let apart = decode_partial(&source).unwrap();
    assert_eq!(apart.signature, mixed[..48].to_vec());
    assert_eq!(encode_partial(apart.index, &apart.signature), Ok(source));
}

#[test]
fn polynomial_parts() {
    let mut two = vec![2u8, 0, 0, 0, 0, 0, 0, 0];
    two.extend_from_slice(&[5u8; 96]);
    two.extend_from_slice(&[6u8; 96]);
    assert_eq!(polynomial_threshold(&two), Ok(2));
    assert_eq!(polynomial_public_key(&two), Ok(vec![5u8; 96]));
    assert_eq!(polynomial_threshold(&two[..100]), Err(SchemeError::Decode));
    assert_eq!(polynomial_public_key(&two[..100]), Err(SchemeError::Decode));
    assert_eq!(polynomial_threshold(&[0u8; 8]), Err(SchemeError::Decode));
    assert_eq!(polynomial_public_key(&[]), Err(SchemeError::Decode));
}

#[test]
fn joining_and_cutting_are_inverse() {
    let records = vec![record(3, 1), record(1, 2), record(9, 7)];
    let stream = join_records(&records);
    assert_eq!(stream.len(), 180);
    assert_eq!(&stream[..60], &record(3, 1)[..]);
    assert_eq!(&stream[120..], &record(9, 7)[..]);
    assert_eq!(split_records(&stream), Ok(records.clone()));
    assert_eq!(join_records(&split_records(&stream).unwrap()), stream);
    assert_eq!(admit_records(3, &stream), Ok(records));
    assert_eq!(join_records(&vec![]), Vec::<u8>::new());
    assert_eq!(join_records(&vec![vec![1u8, 2], vec![], vec![3u8]]), vec![1u8, 2, 3]);
}

#[test]
fn index_of_a_share() {
    let mut share = vec![0x04u8, 0x03, 0x02, 0x01];
    share.extend_from_slice(&[9u8; 32]);
    assert_eq!(share_index_of(&share), Ok(0x0102_0304));
    assert_eq!(share_index_of(&share[..35]), Err(SchemeError::Decode));
    share.push(0);
    assert_eq!(share_index_of(&share), Err(SchemeError::Decode));
    assert_eq!(share_index_of(&[]), Err(SchemeError::Decode));
}
