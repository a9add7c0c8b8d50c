use request_throttle::hash::{Multihash, IDENTITY, SHA2_256};
use request_throttle::peer_id::{ParseError, PeerId, PublicKey};

/// A fresh Ed25519 public key in its protobuf encoding: the key type, then
/// the 32 key bytes.
fn generate_ed25519() -> PublicKey {
    let key: [u8; 32] = rand::random();
    let mut encoding = vec![0x08, 0x01, 0x12, 0x20];
    encoding.extend_from_slice(&key);
    PublicKey::from_protobuf_encoding(encoding)
}

#[test]
fn peer_id_is_public_key() {
    let key = generate_ed25519();
    let peer_id = key.clone().into_peer_id();
    assert_eq!(peer_id.is_public_key(&key), Some(true));
}

#[test]
fn peer_id_into_bytes_then_from_bytes() {
    let peer_id = generate_ed25519().into_peer_id();
    let second = PeerId::from_bytes(peer_id.clone().into_bytes()).unwrap();
    assert_eq!(peer_id, second);
}

#[test]
fn peer_id_to_base58_then_back() {
    let peer_id = generate_ed25519().into_peer_id();
    let second: PeerId = peer_id.to_base58().parse().unwrap();
    assert_eq!(peer_id, second);
}

#[test]
fn random_peer_id_is_valid() {
    for _ in 0..5000 {
        let peer_id = PeerId::random();
        assert_eq!(peer_id, PeerId::from_bytes(peer_id.clone().into_bytes()).unwrap());
    }
}

#[test]
fn short_key_is_inlined() {
    let encoding: Vec<u8> = (0u8..42).collect();
    let peer = PeerId::from_public_key(PublicKey::from_protobuf_encoding(encoding.clone()));
    let mut expected = vec![0x00, 42];
    expected.extend_from_slice(&encoding);
    assert_eq!(peer.to_bytes(), expected);
}

#[test]
fn long_key_is_hashed() {
    let encoding: Vec<u8> = (0u8..43).collect();
    let key = PublicKey::from_protobuf_encoding(encoding);
    let peer = PeerId::from_public_key(key.clone());
    let bytes = peer.to_bytes();
    assert_eq!(bytes.len(), 34);
    assert_eq!(&bytes[..2], &[0x12, 0x20]);
    assert_eq!(peer.is_public_key(&key), Some(true));
}

#[test]
fn sha2_256_of_the_empty_input() {
    let hash = Multihash::sha2_256(b"");
    assert_eq!(hash.code(), SHA2_256);
    assert_eq!(
        hash.digest(),
        &[
            0xe3, 0xb0, 0xc4, 0x42, 0x98, 0xfc, 0x1c, 0x14, 0x9a, 0xfb, 0xf4, 0xc8, 0x99, 0x6f,
            0xb9, 0x24, 0x27, 0xae, 0x41, 0xe4, 0x64, 0x9b, 0x93, 0x4c, 0xa4, 0x95, 0x99, 0x1b,
            0x78, 0x52, 0xb8, 0x55,
        ][..]
    );
}

#[test]
fn is_public_key_tells_keys_apart() {
    let key = generate_ed25519();
    let mut other = key.clone().into_protobuf_encoding();
    other[10] ^= 0xff;
    let other = PublicKey::from_protobuf_encoding(other);
    let peer = key.into_peer_id();
    assert_eq!(peer.is_public_key(&other), Some(false));
}

#[test]
fn is_public_key_with_a_key_longer_than_any_inline_hash() {
    let peer = generate_ed25519().into_peer_id();
    let long = PublicKey::from_protobuf_encoding(vec![7u8; 300]);
    assert_eq!(peer.is_public_key(&long), Some(false));
}

#[test]
fn from_multihash_accepts_sha2_256_and_short_identity() {
    let sha = Multihash::sha2_256(b"key");
    assert!(PeerId::from_multihash(sha).is_ok());
    let inline = Multihash::wrap(IDENTITY, &[1u8; 42]).unwrap();
    assert!(PeerId::from_multihash(inline).is_ok());
}

#[test]
fn from_multihash_hands_back_what_names_no_peer() {
    let long = Multihash::wrap(IDENTITY, &[1u8; 43]).unwrap();
    let back = PeerId::from_multihash(long.clone()).unwrap_err();
    assert!(back.same(&long));
    let sha512 = Multihash::wrap(0x13, &[0u8; 64]).unwrap();
    assert!(PeerId::from_multihash(sha512).is_err());
}

#[test]
fn wrap_refuses_more_than_64_bytes() {
    assert!(Multihash::wrap(IDENTITY, &[0u8; 64]).is_some());
    assert!(Multihash::wrap(IDENTITY, &[0u8; 65]).is_none());
}

#[test]
fn multihash_binary_form_round_trip() {
    let hash = Multihash::wrap(SHA2_256, &[9u8; 32]).unwrap();
    let bytes = hash.to_bytes();
    assert_eq!(bytes.len(), 34);
    assert_eq!(bytes[0], 0x12);
    assert_eq!(bytes[1], 32);
    let back = Multihash::from_bytes(&bytes).unwrap();
    assert!(back.same(&hash));
    assert_eq!(back.size(), 32);
}

#[test]
fn from_bytes_hands_back_what_is_no_hash() {
    let junk = vec![0x12, 0x20, 1, 2, 3];
    assert_eq!(PeerId::from_bytes(junk.clone()).unwrap_err(), junk);
    let empty: Vec<u8> = Vec::new();
    assert_eq!(PeerId::from_bytes(empty.clone()).unwrap_err(), empty);
}

#[test]
fn from_bytes_hands_back_a_hash_that_names_no_peer() {
    let long = Multihash::wrap(IDENTITY, &[1u8; 43]).unwrap().to_bytes();
    assert_eq!(PeerId::from_bytes(long.clone()).unwrap_err(), long);
}

#[test]
fn base58_of_a_known_peer() {
    let peer = PeerId::from_bytes(vec![0x00, 0x02, 0xAB, 0xCD]).unwrap();
    let text = peer.to_base58();
    let bytes = bs58::decode(&text).into_vec().unwrap();
    assert_eq!(bytes, vec![0x00, 0x02, 0xAB, 0xCD]);
    assert_eq!(text, bs58::encode(vec![0x00u8, 0x02, 0xAB, 0xCD]).into_string());
    assert_ne!(text.as_bytes(), &[0x00u8, 0x02, 0xAB, 0xCD][..]);
}

#[test]
fn parsing_text_that_is_not_base58() {
    match "0OIl".parse::<PeerId>() {
        Err(ParseError::B58(_)) => {}
        other => panic!("unexpected: {:?}", other),
    }
}

#[test]
fn parsing_base58_that_is_no_peer() {
    let text = bs58::encode(vec![1u8, 2, 3]).into_string();
    match PeerId::from_base58(&text) {
        Err(ParseError::MultiHash) => {}
        other => panic!("unexpected: {:?}", other),
    }
}

#[test]
fn random_peers_are_inline_hashes_of_32_bytes() {
    let a = PeerId::random();
    let b = PeerId::random();
    assert_eq!(a.to_bytes().len(), 34);
    assert_eq!(&a.to_bytes()[..2], &[0x00, 0x20]);
    assert!(a != b);
    assert!(a.same(&a.clone()));
}
