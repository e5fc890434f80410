use hsm::policy::{encode_policy, Evaluation, Policy, PolicyUID};
use hsm::signing::{SigRequest, SigType};
use hsm::transaction::{Psbt, Transaction};

fn empty_psbt() -> Psbt {
    Psbt {
        unsigned_tx: Transaction { version: 2, lock_time: 0, input: vec![], output: vec![] },
        inputs: vec![],
    }
}

#[test]
fn policy_it_works() {
    let result: i32 = 2 + 2;
    assert_eq!(result, 4);
}

#[test]
fn encoding_is_tag_length_script() {
    assert_eq!(
        encode_policy(SigType::Psbt, "#t"),
        vec![0u8, 2, 0, 0, 0, 0, 0, 0, 0, b'#', b't']
    );
    assert_eq!(
        encode_policy(SigType::Message, "(ok)"),
        vec![1u8, 4, 0, 0, 0, 0, 0, 0, 0, b'(', b'o', b'k', b')']
    );
}

#[test]
fn encoding_of_empty_script() {
    assert_eq!(encode_policy(SigType::Psbt, ""), vec![0u8, 0, 0, 0, 0, 0, 0, 0, 0]);
    assert_eq!(encode_policy(SigType::Message, ""), vec![1u8, 0, 0, 0, 0, 0, 0, 0, 0]);
}

#[test]
fn encoding_counts_bytes_not_characters() {
    // "é" is two bytes in UTF-8.
    assert_eq!(
        encode_policy(SigType::Psbt, "é"),
        vec![0u8, 2, 0, 0, 0, 0, 0, 0, 0, 0xc3, 0xa9]
    );
}

#[test]
fn encoding_of_long_script_has_two_length_bytes() {
    let script = "x".repeat(300);
    let bytes = encode_policy(SigType::Message, &script);
    assert_eq!(bytes.len(), 309);
    assert_eq!(&bytes[..9], &[1u8, 0x2c, 0x01, 0, 0, 0, 0, 0, 0]);
    assert!(bytes[9..].iter().all(|b| *b == b'x'));
}

#[test]
fn identifier_is_blake3_of_encoding() {
    let policy = Policy::new(SigType::Psbt, "#t".to_string());
    let expected = blake3::hash(&[0u8, 2, 0, 0, 0, 0, 0, 0, 0, b'#', b't']);
    assert_eq!(policy.identifier().as_bytes(), expected.as_bytes());
    // The digest is not the input handed back, nor a constant.
    let other = Policy::new(SigType::Psbt, "#f".to_string());
    assert_ne!(policy.identifier(), other.identifier());
}

#[test]
fn identifier_of_empty_message_policy() {
    let policy = Policy::new(SigType::Message, String::new());
    let expected = blake3::hash(&[1u8, 0, 0, 0, 0, 0, 0, 0, 0]);
    assert_eq!(policy.identifier().as_bytes(), expected.as_bytes());
}

#[test]
fn equal_policies_have_equal_identifiers() {
    let a = Policy::new(SigType::Psbt, "(and #t #t)".to_string());
    let b = Policy::new(SigType::Psbt, String::from("(and #t") + " #t)");
    assert_eq!(a.identifier(), b.identifier());
    assert!(a.identifier().equals(&b.identifier()));
}

#[test]
fn changing_a_field_changes_the_identifier() {
    let base = Policy::new(SigType::Psbt, "(and #t #t)".to_string());
    let other_kind = Policy::new(SigType::Message, "(and #t #t)".to_string());
    let other_script = Policy::new(SigType::Psbt, "(and #t #f)".to_string());
    assert_ne!(base.identifier(), other_kind.identifier());
    assert_ne!(base.identifier(), other_script.identifier());
    assert!(!base.identifier().equals(&other_kind.identifier()));
    assert!(!base.identifier().equals(&other_script.identifier()));
}

#[test]
fn identifier_round_trips_through_bytes() {
    let id = Policy::new(SigType::Psbt, "#t".to_string()).identifier();
    let copy = PolicyUID::from_bytes(*id.as_bytes());
    assert!(copy.equals(&id));
    let mut bytes = *id.as_bytes();
    bytes[31] ^= 1;
    assert!(!PolicyUID::from_bytes(bytes).equals(&id));
    let mut bytes = *id.as_bytes();
    bytes[0] ^= 0x80;
    assert!(!PolicyUID::from_bytes(bytes).equals(&id));
}

#[test]
fn policy_keeps_kind_and_script() {
    let policy = Policy::new(SigType::Message, "(f x)".to_string());
    assert_eq!(policy.sigtype(), SigType::Message);
    assert_eq!(policy.script(), "(f x)");
}

#[test]
fn policy_approves_only_its_kind_on_true() {
    let policy = Policy::new(SigType::Psbt, "#t".to_string());
    let tx = SigRequest::Psbt(empty_psbt());
    let msg = SigRequest::Message("hi".to_string());
    assert!(policy.approves(&tx, Evaluation::Bool(true)));
    assert!(!policy.approves(&tx, Evaluation::Bool(false)));
    assert!(!policy.approves(&tx, Evaluation::NotBool));
    assert!(!policy.approves(&tx, Evaluation::Failed));
    assert!(!policy.approves(&msg, Evaluation::Bool(true)));

    let policy = Policy::new(SigType::Message, "#t".to_string());
    assert!(policy.approves(&msg, Evaluation::Bool(true)));
    assert!(!policy.approves(&msg, Evaluation::Bool(false)));
    assert!(!policy.approves(&tx, Evaluation::Bool(true)));
}
