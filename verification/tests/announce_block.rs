use purple_core::announce_block::{AnnounceBlock, PACKET_LEN, PACKET_TYPE};
use purple_core::error::NetworkErr;

#[test]
fn encoding_is_tag_nonce_hash() {
    let packet = AnnounceBlock::with_nonce([1, 2, 3, 4, 5, 6, 7, 8], 0x0102_0304_0506_0708);
    assert_eq!(
        packet.to_bytes(),
        vec![10, 1, 2, 3, 4, 5, 6, 7, 8, 1, 2, 3, 4, 5, 6, 7, 8]
    );
}

#[test]
fn nonce_is_written_most_significant_byte_first() {
    let packet = AnnounceBlock::with_nonce([0; 8], 1);
    let bytes = packet.to_bytes();
    assert_eq!(bytes.len(), PACKET_LEN);
    assert_eq!(bytes[0], PACKET_TYPE);
    assert_eq!(&bytes[1..9], &[0, 0, 0, 0, 0, 0, 0, 1]);
    let packet = AnnounceBlock::with_nonce([0; 8], 0xff00_0000_0000_0000);
    assert_eq!(&packet.to_bytes()[1..9], &[0xff, 0, 0, 0, 0, 0, 0, 0]);
}

#[test]
fn decoding_reads_the_fields() {
    let bytes = [10u8, 0, 0, 0, 0, 0, 0, 1, 0, 9, 8, 7, 6, 5, 4, 3, 2];
    let packet = AnnounceBlock::from_bytes(&bytes).unwrap();
    assert_eq!(packet.nonce, 256);
    assert_eq!(packet.block_hash, [9, 8, 7, 6, 5, 4, 3, 2]);
}

#[test]
fn serialize_deserialize() {
    let hashes: [[u8; 8]; 3] = [[0; 8], [0xff; 8], [1, 2, 3, 4, 5, 6, 7, 8]];
    let nonces: [u64; 5] = [0, 1, 255, 0x0123_4567_89ab_cdef, u64::MAX];
    for hash in hashes.iter() {
        for nonce in nonces.iter() {
            let packet = AnnounceBlock::with_nonce(*hash, *nonce);
            assert_eq!(AnnounceBlock::from_bytes(&packet.to_bytes()), Ok(packet));
        }
    }
}

#[test]
fn serialize_deserialize_random_nonce() {
    for i in 0..32u8 {
        let packet = AnnounceBlock::new([i; 8]);
        assert_eq!(packet.block_hash, [i; 8]);
        assert_eq!(AnnounceBlock::from_bytes(&packet.to_bytes()), Ok(packet));
    }
}

#[test]
fn truncated_buffer_is_bad_format() {
    let bytes = AnnounceBlock::with_nonce([7; 8], 42).to_bytes();
    for len in 0..bytes.len() {
        assert_eq!(
            AnnounceBlock::from_bytes(&bytes[..len]),
            Err(NetworkErr::BadFormat)
        );
    }
}

#[test]
fn overlong_buffer_is_bad_format() {
    let mut bytes = AnnounceBlock::with_nonce([7; 8], 42).to_bytes();
    bytes.push(0);
    assert_eq!(AnnounceBlock::from_bytes(&bytes), Err(NetworkErr::BadFormat));
}

#[test]
fn wrong_tag_is_bad_format() {
    let mut bytes = AnnounceBlock::with_nonce([7; 8], 42).to_bytes();
    bytes[0] = 11;
    assert_eq!(AnnounceBlock::from_bytes(&bytes), Err(NetworkErr::BadFormat));
    bytes[0] = 0;
    assert_eq!(AnnounceBlock::from_bytes(&bytes), Err(NetworkErr::BadFormat));
}

#[test]
fn accepted_bytes_are_the_encoding_of_what_they_decode_to() {
    let mut bytes = [0u8; PACKET_LEN];
    bytes[0] = PACKET_TYPE;
    for seed in 0..64u8 {
        for (i, b) in bytes.iter_mut().enumerate().skip(1) {
            *b = seed.wrapping_mul(37).wrapping_add((i as u8).wrapping_mul(101));
        }
        let packet = AnnounceBlock::from_bytes(&bytes).unwrap();
        assert_eq!(packet.to_bytes(), bytes.to_vec());
    }
}
