//! Authorization policies and their content-addressed identifiers.
//!
//! A policy pairs the kind of signature it applies to with a script. Its
//! identifier is the BLAKE3 digest of a fixed byte layout of the two:
//!
//! ```text
//! tag (1 byte) | script length in bytes (8 bytes, little endian) | script (UTF-8)
//! ```
//!
//! The tag is 0 for transaction policies and 1 for message policies.

use crate::signing::{SigRequest, SigType};
use vstd::bytes::{
    lemma_auto_spec_u64_to_from_le_bytes, spec_u64_to_le_bytes, u64_to_le_bytes,
};
use vstd::prelude::*;
use vstd::utf8::{encode_utf8, encode_utf8_decode_utf8};

verus! {

/// The BLAKE3 digest of a byte string.
pub uninterp spec fn blake3_hash(input: Seq<u8>) -> Seq<u8>;

/// `blake3::hash`: the 32-byte BLAKE3 digest of `input`, which depends on
/// the bytes of `input` alone.
#[verifier::external_body]
fn blake3_digest(input: &[u8]) -> (digest: [u8; 32])
    ensures
        digest@ == blake3_hash(input@),
{
    *blake3::hash(input).as_bytes()
}

/// The identifier of a policy: 32 bytes.
#[derive(Clone, Copy, Debug, PartialEq, Eq, Hash)]
pub struct PolicyUID {
    bytes: [u8; 32],
}

impl View for PolicyUID {
    type V = Seq<u8>;

    closed spec fn view(&self) -> Seq<u8> {
        self.bytes@
    }
}

impl PolicyUID {
    /// The identifier made of the given bytes.
    pub fn from_bytes(bytes: [u8; 32]) -> (id: PolicyUID)
        ensures
            id@ == bytes@,
    {
        PolicyUID { bytes }
    }

    /// The bytes of the identifier.
    pub fn as_bytes(&self) -> (bytes: &[u8; 32])
        ensures
            bytes@ == self@,
    {
        &self.bytes
    }

    /// Whether two identifiers hold the same bytes.
    pub fn equals(&self, other: &PolicyUID) -> (same: bool)
        ensures
            same == (self@ == other@),
    {
        let mut i: usize = 0;
        while i < 32
            invariant
                i <= 32,
                forall|j: int| 0 <= j < i ==> self.bytes@[j] == other.bytes@[j],
            decreases 32 - i,
        {
            if self.bytes[i] != other.bytes[i] {
                return false;
            }
            i = i + 1;
        }
        assert(self.bytes@ =~= other.bytes@);
        true
    }
}

/// What evaluating a policy's script against a request gave.
#[derive(Clone, Copy, Debug, PartialEq, Eq, Structural)]
pub enum Evaluation {
    /// The script evaluated to a boolean.
    Bool(bool),
    /// The script evaluated to a value that is not a boolean.
    NotBool,
    /// The script could not be evaluated.
    Failed,
}

/// The byte that stands for a signature kind in a policy's encoding.
pub open spec fn kind_tag(kind: SigType) -> u8 {
    match kind {
        SigType::Psbt => 0,
        SigType::Message => 1,
    }
}

/// The canonical encoding of a signature kind and a script given as UTF-8
/// bytes: the kind's tag, the number of script bytes as eight little-endian
/// bytes, then the script bytes.
pub open spec fn encode_policy_bytes(kind: SigType, script: Seq<u8>) -> Seq<u8> {
    seq![kind_tag(kind)] + spec_u64_to_le_bytes(script.len() as u64) + script
}

/// The canonical encoding of a signature kind and a script.
pub open spec fn canonical_encoding(kind: SigType, script: Seq<char>) -> Seq<u8> {
    encode_policy_bytes(kind, encode_utf8(script))
}

/// The identifier of the policy made of `kind` and `script`.
pub open spec fn policy_identifier(kind: SigType, script: Seq<char>) -> Seq<u8> {
    blake3_hash(canonical_encoding(kind, script))
}

/// Whether a policy of kind `kind` approves a request of kind `requested`,
/// given what evaluating the policy's script against the request gave.
pub open spec fn policy_approves(kind: SigType, requested: SigType, evaluation: Evaluation) -> bool {
    kind == requested && evaluation == Evaluation::Bool(true)
}

/// Writes the canonical encoding of a signature kind and a script.
pub fn encode_policy(kind: SigType, script: &str) -> (bytes: Vec<u8>)
    ensures
        bytes@ == canonical_encoding(kind, script@),
{
    let body = script.as_bytes();
    let mut bytes: Vec<u8> = Vec::new();
    bytes.push(
        match kind {
            SigType::Psbt => 0u8,
            SigType::Message => 1u8,
        },
    );
    let mut prefix = u64_to_le_bytes(body.len() as u64);
    bytes.append(&mut prefix);
    let ghost head = bytes@;
    let mut i: usize = 0;
    while i < body.len()
        invariant
            i <= body.len(),
            bytes@ == head + body@.subrange(0, i as int),
        decreases body.len() - i,
    {
        bytes.push(body[i]);
        i = i + 1;
    }
    assert(body@.subrange(0, body@.len() as int) =~= body@);
    bytes
}

/// An authorization rule: the kind of signature it applies to, and the
/// script that decides whether a request of that kind may be signed.
#[derive(Clone, Debug, PartialEq, Eq)]
pub struct Policy {
    sigtype: SigType,
    script: String,
}

impl Policy {
    /// The kind of signature that the policy applies to.
    pub closed spec fn kind(&self) -> SigType {
        self.sigtype
    }

    /// The text of the policy's script.
    pub closed spec fn script_text(&self) -> Seq<char> {
        self.script@
    }

    /// The policy's identifier.
    pub open spec fn id(&self) -> Seq<u8> {
        policy_identifier(self.kind(), self.script_text())
    }

    /// A policy of the given kind with the given script.
    pub fn new(sigtype: SigType, script: String) -> (policy: Policy)
        ensures
            policy.kind() == sigtype,
            policy.script_text() == script@,
    {
        Policy { sigtype, script }
    }

    /// The kind of signature that the policy applies to.
    pub fn sigtype(&self) -> (kind: SigType)
        ensures
            kind == self.kind(),
    {
        self.sigtype
    }

    /// The policy's script.
    pub fn script(&self) -> (script: &str)
        ensures
            script@ == self.script_text(),
    {
        self.script.as_str()
    }

    /// The policy's identifier: the BLAKE3 digest of its canonical encoding.
    pub fn identifier(&self) -> (id: PolicyUID)
        ensures
            id@ == self.id(),
    {
        let encoding = encode_policy(self.sigtype, self.script.as_str());
        PolicyUID::from_bytes(blake3_digest(encoding.as_slice()))
    }

    /// Whether the policy approves `request`, given what evaluating the
    /// policy's script against the request gave: it does when the policy is
    /// of the request's kind and the script evaluated to the boolean true.
    pub fn approves(&self, request: &SigRequest, evaluation: Evaluation) -> (approved: bool)
        ensures
            approved == policy_approves(self.kind(), request.kind(), evaluation),
    {
        if self.sigtype == request.sigtype() {
            match evaluation {
                Evaluation::Bool(value) => value,
                Evaluation::NotBool => false,
                Evaluation::Failed => false,
            }
        } else {
            false
        }
    }
}

/// Two encodings are equal only if they encode the same kind and the same
/// script: no two distinct policies share a pre-image of their identifiers.
pub proof fn lemma_encoding_injective(k1: SigType, s1: Seq<char>, k2: SigType, s2: Seq<char>)
    requires
        canonical_encoding(k1, s1) == canonical_encoding(k2, s2),
    ensures
        k1 == k2,
        s1 == s2,
{
    lemma_auto_spec_u64_to_from_le_bytes();
    let b1 = encode_utf8(s1);
    let b2 = encode_utf8(s2);
    let e1 = canonical_encoding(k1, s1);
    let e2 = canonical_encoding(k2, s2);
    assert(e1[0] == kind_tag(k1));
    assert(e2[0] == kind_tag(k2));
    assert(e1.len() == 9 + b1.len());
    assert(e2.len() == 9 + b2.len());
    assert(b1 =~= e1.subrange(9, e1.len() as int));
    assert(b2 =~= e2.subrange(9, e2.len() as int));
    encode_utf8_decode_utf8(s1);
    encode_utf8_decode_utf8(s2);
}

/// Policies with the same kind and the same script have the same identifier.
pub proof fn lemma_identifier_deterministic(p: Policy, q: Policy)
    requires
        p.kind() == q.kind(),
        p.script_text() == q.script_text(),
    ensures
        p.id() == q.id(),
{
}

} // verus!
