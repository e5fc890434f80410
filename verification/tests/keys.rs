use bitcoin::secp256k1::{Message, Secp256k1, SecretKey};
use hsm::engine::{copy_bytes, record_signature, same_bytes, sign_with_hint};
use hsm::error::{Error, ErrorKind};
use hsm::keys::KeyMaterial;
use hsm::transaction::PartialSig;

fn hex(text: &str) -> Vec<u8> {
    let digits: Vec<u8> = text
        .bytes()
        .map(|c| match c {
            b'0'..=b'9' => c - b'0',
            b'a'..=b'f' => c - b'a' + 10,
            _ => panic!("not a hex digit"),
        })
        .collect();
    digits.chunks(2).map(|pair| pair[0] * 16 + pair[1]).collect()
}

const HARDENED: u32 = 0x8000_0000;

fn vector_seed() -> Vec<u8> {
    hex("000102030405060708090a0b0c0d0e0f")
}

fn master() -> KeyMaterial {
    match KeyMaterial::from_seed(&vector_seed()) {
        Ok(key) => key,
        Err(_) => panic!("the seed gives a key"),
    }
}

#[test]
fn master_key_matches_reference_vector() {
    let public = master().public_key().unwrap();
    assert_eq!(
        public,
        hex("0339a36013301597daef41fbe593a02cc513d0b55527ec2df1050e2e8ff49c85c2")
    );
}

#[test]
fn hardened_child_matches_reference_vector() {
    let child = master().derive(&vec![HARDENED]).unwrap();
    assert_eq!(
        child.public_key().unwrap(),
        hex("035a784662a4a20a65bf6aab9ae98a6c068a81c52e4b032c0fb5400c706cfccc56")
    );
}

#[test]
fn normal_grandchild_matches_reference_vector() {
    let child = master().derive(&vec![HARDENED, 1]).unwrap();
    assert_eq!(
        child.public_key().unwrap(),
        hex("03501e454bf00751f24b1b489aa925215d66af2234e3891c3b21a52bedb3cd711c")
    );
}

#[test]
fn derivation_composes_along_the_path() {
    let direct = master().derive(&vec![HARDENED, 1, 2 | HARDENED]).unwrap();
    let stepwise = master()
        .derive(&vec![HARDENED])
        .unwrap()
        .derive(&vec![1])
        .unwrap()
        .derive(&vec![2 | HARDENED])
        .unwrap();
    assert_eq!(direct.public_key().unwrap(), stepwise.public_key().unwrap());
}

#[test]
fn empty_path_gives_the_same_key() {
    let same = master().derive(&vec![]).unwrap();
    assert_eq!(same.public_key().unwrap(), master().public_key().unwrap());
}

#[test]
fn different_seeds_give_different_keys() {
    let other = KeyMaterial::from_seed(&[0u8; 16]).unwrap();
    assert_ne!(other.public_key().unwrap(), master().public_key().unwrap());
}

#[test]
fn path_of_full_depth_is_followed() {
    let path: Vec<u32> = vec![0; 255];
    assert!(master().derive(&path).is_ok());
}

#[test]
fn path_beyond_full_depth_is_refused() {
    let path: Vec<u32> = vec![0; 256];
    assert!(matches!(master().derive(&path), Err(Error::Bip32(_))));
    let child = master().derive(&vec![7]).unwrap();
    let path: Vec<u32> = vec![0; 255];
    let refused = child.derive(&path);
    assert_eq!(refused.err().map(|e| e.kind()), Some(ErrorKind::Bip32));
    let path: Vec<u32> = vec![0; 254];
    assert!(child.derive(&path).is_ok());
}

#[test]
fn signature_is_the_deterministic_one() {
    let secret =
        SecretKey::from_slice(&hex("e8f32e723decf4051aefac8e2c93c9c5b214313817cdb01a1494b917c8436b35"))
            .unwrap();
    let digest = [0x42u8; 32];
    let expected = Secp256k1::new().sign_ecdsa(&Message::from_slice(&digest).unwrap(), &secret);
    let mut expected = expected.serialize_der().to_vec();
    expected.push(1);
    let signature = master().sign(&[7u8; 32], &digest).unwrap();
    assert_eq!(signature, expected);
    // Another digest gives another signature.
    assert_ne!(master().sign(&[7u8; 32], &[0x43u8; 32]).unwrap(), expected);
}

#[test]
fn signature_verifies_under_the_public_key() {
    let digest = [0x11u8; 32];
    let child = master().derive(&vec![44 | HARDENED, 0, 5]).unwrap();
    let signature = child.sign(&[0u8; 32], &digest).unwrap();
    let (flag, der) = signature.split_last().unwrap();
    assert_eq!(*flag, 1);
    let public = bitcoin::secp256k1::PublicKey::from_slice(&child.public_key().unwrap()).unwrap();
    let parsed = bitcoin::secp256k1::ecdsa::Signature::from_der(der).unwrap();
    let secp = Secp256k1::verification_only();
    assert!(secp.verify_ecdsa(&Message::from_slice(&digest).unwrap(), &parsed, &public).is_ok());
}

#[test]
fn hint_gives_public_key_and_signature() {
    let digest = [0x22u8; 32];
    let path = vec![HARDENED, 1];
    let (public, signature) = sign_with_hint(&master(), &[3u8; 32], &path, &digest).unwrap();
    let child = master().derive(&path).unwrap();
    assert_eq!(public, child.public_key().unwrap());
    assert_eq!(signature, child.sign(&[3u8; 32], &digest).unwrap());
    assert_eq!(
        public,
        hex("03501e454bf00751f24b1b489aa925215d66af2234e3891c3b21a52bedb3cd711c")
    );
}

#[test]
fn hint_with_too_long_path_fails() {
    let path: Vec<u32> = vec![1; 300];
    let failed = sign_with_hint(&master(), &[3u8; 32], &path, &[0u8; 32]);
    assert!(matches!(failed, Err(Error::Bip32(_))));
}

#[test]
fn erased_key_is_no_key() {
    let mut key = master();
    key.erase();
    assert!(matches!(key.public_key(), Err(Error::Bip32(_))));
    assert!(matches!(key.sign(&[0u8; 32], &[1u8; 32]), Err(Error::Bip32(_))));
    assert!(matches!(key.derive(&vec![0]), Err(Error::Bip32(_))));
}

#[test]
fn same_bytes_compares_contents() {
    assert!(same_bytes(&vec![], &vec![]));
    assert!(same_bytes(&vec![1, 2, 3], &vec![1, 2, 3]));
    assert!(!same_bytes(&vec![1, 2, 3], &vec![1, 2]));
    assert!(!same_bytes(&vec![1, 2], &vec![1, 2, 3]));
    assert!(!same_bytes(&vec![1, 2, 3], &vec![1, 2, 4]));
    assert!(!same_bytes(&vec![0, 2, 3], &vec![1, 2, 3]));
}

#[test]
fn recording_a_signature_adds_or_replaces() {
    let mut sigs: Vec<PartialSig> = vec![];
    record_signature(&mut sigs, vec![2, 1], vec![10]);
    record_signature(&mut sigs, vec![3, 1], vec![11]);
    assert_eq!(
        sigs,
        vec![
            PartialSig { public_key: vec![2, 1], signature: vec![10] },
            PartialSig { public_key: vec![3, 1], signature: vec![11] },
        ]
    );
    record_signature(&mut sigs, vec![2, 1], vec![12]);
    assert_eq!(
        sigs,
        vec![
            PartialSig { public_key: vec![2, 1], signature: vec![12] },
            PartialSig { public_key: vec![3, 1], signature: vec![11] },
        ]
    );
    record_signature(&mut sigs, vec![3, 1], vec![13]);
    assert_eq!(sigs.len(), 2);
    assert_eq!(sigs[1].signature, vec![13]);
}

#[test]
fn copy_bytes_copies() {
    assert_eq!(copy_bytes(&vec![]), Vec::<u8>::new());
    assert_eq!(copy_bytes(&vec![7]), vec![7]);
    assert_eq!(copy_bytes(&vec![1, 2, 3, 255, 0]), vec![1, 2, 3, 255, 0]);
}

#[test]
fn recording_replaces_the_first_entry_of_a_key() {
    let mut sigs = vec![
        PartialSig { public_key: vec![1], signature: vec![10] },
        PartialSig { public_key: vec![2], signature: vec![20] },
        PartialSig { public_key: vec![2], signature: vec![21] },
    ];
    record_signature(&mut sigs, vec![2], vec![22]);
    assert_eq!(
        sigs,
        vec![
            PartialSig { public_key: vec![1], signature: vec![10] },
            PartialSig { public_key: vec![2], signature: vec![22] },
            PartialSig { public_key: vec![2], signature: vec![21] },
        ]
    );
}
