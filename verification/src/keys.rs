//! Key material and the cryptographic operations on it.
//!
//! The vault holds its keys as BIP-32 extended private keys in their 78-byte
//! binary encoding. Hierarchical derivation, public keys, transaction digests
//! and signatures are computed by the `bitcoin` and `secp256k1` crates; each
//! of those results is a function of the bytes handed over and is named here
//! by a specification function.

use crate::error::Error;
use crate::transaction::{Transaction, TransactionView};
use bitcoin::secp256k1::{Message, Secp256k1};
use bitcoin::util::bip32::Error as DerivationError;
use bitcoin::util::bip32::{ChildNumber, ExtendedPrivKey, ExtendedPubKey};
use bitcoin::{EcdsaSig, Network, OutPoint, Script, TxIn, TxOut, Witness};
use vstd::prelude::*;

verus! {

/// The number of bytes in an encoded extended private key.
pub const KEY_LEN: usize = 78;

/// The position of the depth byte in an encoded extended private key.
pub const DEPTH_AT: usize = 4;

/// The longest chain of derivations below a master key.
pub const MAX_DEPTH: usize = 255;

/// The encoded master key that a seed gives, or `None` where the seed gives
/// no valid key.
pub uninterp spec fn master_key_of(seed: Seq<u8>) -> Option<Seq<u8>>;

/// The encoded key that derivation along `path` gives from the encoded key
/// `parent`, or `None` where derivation fails.
pub uninterp spec fn derived_key_of(parent: Seq<u8>, path: Seq<u32>) -> Option<Seq<u8>>;

/// The serialized public key of the encoded private key `key`, or `None`
/// where `key` encodes no key.
pub uninterp spec fn public_key_of(key: Seq<u8>) -> Option<Seq<u8>>;

/// The legacy signature digest of input `input_index` of `tx`, computed with
/// `script_pubkey` in place of the input's script and `sighash_type` as flag.
pub uninterp spec fn legacy_sighash_of(
    tx: TransactionView,
    input_index: usize,
    script_pubkey: Seq<u8>,
    sighash_type: u32,
) -> Seq<u8>;

/// The serialized "sign everything" signature that the encoded private key
/// `key` gives over `digest`, in a signing context randomized with `entropy`;
/// `None` where `key` encodes no key.
pub uninterp spec fn signature_of(key: Seq<u8>, entropy: Seq<u8>, digest: Seq<u8>) -> Option<
    Seq<u8>,
>;

/// The depth that an encoded extended private key records: the number of
/// derivations between the master key and it.
pub open spec fn depth_of(key: Seq<u8>) -> int {
    key[DEPTH_AT as int] as int
}

/// Whether derivation along a path of `steps` child numbers, from the
/// encoded key `key`, stays within the depth that an extended key can record.
pub open spec fn within_depth(key: Seq<u8>, steps: nat) -> bool {
    depth_of(key) + steps <= MAX_DEPTH
}

/// A BIP-32 extended private key: a secret scalar and a chain code, from
/// which child keys are derived along a path.
pub struct KeyMaterial {
    encoded: [u8; 78],
}

impl View for KeyMaterial {
    type V = Seq<u8>;

    closed spec fn view(&self) -> Seq<u8> {
        self.encoded@
    }
}

impl Drop for KeyMaterial {
    /// Overwrites the key with zeros when it goes out of scope.
    fn drop(&mut self)
        opens_invariants none
        no_unwind
    {
        self.erase();
    }
}

/// `ExtendedPrivKey::new_master` for the main network, then `encode`: the
/// master key of `seed` in its 78-byte encoding, a function of the seed
/// alone.
#[verifier::external_body]
fn master_key(seed: &[u8]) -> (r: Result<KeyMaterial, DerivationError>)
    ensures
        match r {
            Ok(key) => master_key_of(seed@) == Some(key@),
            Err(_) => master_key_of(seed@) is None,
        },
{
    Ok(KeyMaterial { encoded: ExtendedPrivKey::new_master(Network::Bitcoin, seed)?.encode() })
}

/// `ExtendedPrivKey::derive_priv` on the key that `parent` encodes, with each
/// number of `path` read as a child number: the derived key in its encoding,
/// a function of parent and path alone. Each step adds one to the depth,
/// which the encoding holds in one byte at position 4. The outside function
/// makes that addition without a check, so the `requires` leaves out every
/// path that would take the depth past 255.
#[verifier::external_body]
fn child_key(parent: &KeyMaterial, path: &Vec<u32>) -> (r: Result<KeyMaterial, DerivationError>)
    requires
        within_depth(parent@, path@.len()),
    ensures
        match r {
            Ok(key) => derived_key_of(parent@, path@) == Some(key@),
            Err(_) => derived_key_of(parent@, path@) is None,
        },
{
    let from = ExtendedPrivKey::decode(&parent.encoded)?;
    let steps: Vec<ChildNumber> = path.iter().map(|n| ChildNumber::from(*n)).collect();
    Ok(KeyMaterial { encoded: from.derive_priv(&Secp256k1::signing_only(), &steps)?.encode() })
}

/// `ExtendedPubKey::from_priv` on the key that `key` encodes, then `to_pub`
/// and `to_bytes`: the compressed public key, a function of `key` alone.
#[verifier::external_body]
fn public_key(key: &KeyMaterial) -> (r: Result<Vec<u8>, DerivationError>)
    ensures
        match r {
            Ok(public) => public_key_of(key@) == Some(public@),
            Err(_) => public_key_of(key@) is None,
        },
{
    let private = ExtendedPrivKey::decode(&key.encoded)?;
    Ok(ExtendedPubKey::from_priv(&Secp256k1::signing_only(), &private).to_pub().to_bytes())
}

/// `Transaction::signature_hash` on `tx` written as a `bitcoin` transaction
/// with empty witnesses: the legacy signature digest, a function of the
/// arguments alone. The outside function panics on an input index that the
/// transaction does not have.
#[verifier::external_body]
pub(crate) fn legacy_sighash(tx: &Transaction, input_index: usize, script_pubkey: &Vec<u8>, sighash_type: u32) -> (digest: [u8; 32])
    requires
        input_index < tx.input@.len(),
    ensures
        digest@ == legacy_sighash_of(tx@, input_index, script_pubkey@, sighash_type),
{
    let input = tx.input.iter().map(|i| TxIn {
        previous_output: OutPoint::new(bitcoin::hashes::Hash::from_inner(i.previous_output.txid), i.previous_output.vout),
        script_sig: Script::from(i.script_sig.clone()),
        sequence: i.sequence,
        witness: Witness::default(),
    }).collect();
    let output = tx.output.iter().map(|o| TxOut { value: o.value, script_pubkey: Script::from(o.script_pubkey.clone()) }).collect();
    let tx = bitcoin::Transaction { version: tx.version, lock_time: tx.lock_time, input, output };
    bitcoin::hashes::Hash::into_inner(tx.signature_hash(input_index, &Script::from(script_pubkey.clone()), sighash_type))
}

/// `Secp256k1::sign_ecdsa` over `digest` with the secret of the key that
/// `key` encodes, in a signing context passed through `seeded_randomize`
/// with `entropy`; then `EcdsaSig::sighash_all` and `to_vec`: the DER
/// signature followed by the "sign everything" flag byte. The nonce is the
/// deterministic one of RFC 6979, so the bytes are a function of the
/// arguments alone.
#[verifier::external_body]
fn ecdsa_signature(key: &KeyMaterial, entropy: &[u8; 32], digest: &[u8; 32]) -> (r: Result<Vec<u8>, DerivationError>)
    ensures
        match r {
            Ok(signature) => signature_of(key@, entropy@, digest@) == Some(signature@),
            Err(_) => signature_of(key@, entropy@, digest@) is None,
        },
{
    let secret = ExtendedPrivKey::decode(&key.encoded)?.private_key;
    let mut context = Secp256k1::signing_only();
    context.seeded_randomize(entropy);
    let signature = context.sign_ecdsa(&Message::from_slice(digest)?, &secret);
    Ok(EcdsaSig::sighash_all(signature).to_vec())
}

/// `bitcoin::util::bip32::Error::InvalidDerivationPathFormat`: the error of
/// the derivation library for a path that cannot be followed.
#[verifier::external_body]
fn invalid_path() -> DerivationError {
    DerivationError::InvalidDerivationPathFormat
}

impl KeyMaterial {
    /// Whether the key has been overwritten with zeros.
    pub closed spec fn erased(&self) -> bool {
        forall|i: int| 0 <= i < KEY_LEN ==> self.encoded@[i] == 0
    }

    /// Derives the master key from a seed.
    pub fn from_seed(seed: &[u8]) -> (r: Result<KeyMaterial, Error>)
        ensures
            match r {
                Ok(key) => master_key_of(seed@) == Some(key@),
                Err(e) => master_key_of(seed@) is None && e is Bip32,
            },
    {
        match master_key(seed) {
            Ok(key) => Ok(key),
            Err(e) => Err(Error::Bip32(e)),
        }
    }

    /// Derives the descendant of this key along `path`. A path that leads
    /// deeper than an extended key can record is refused.
    pub fn derive(&self, path: &Vec<u32>) -> (r: Result<KeyMaterial, Error>)
        ensures
            match r {
                Ok(key) => within_depth(self@, path@.len()) && derived_key_of(self@, path@)
                    == Some(key@),
                Err(e) => e is Bip32 && (!within_depth(self@, path@.len()) || derived_key_of(
                    self@,
                    path@,
                ) is None),
            },
    {
        let depth = self.encoded[DEPTH_AT] as usize;
        if path.len() > MAX_DEPTH - depth {
            return Err(Error::Bip32(invalid_path()));
        }
        match child_key(self, path) {
            Ok(key) => Ok(key),
            Err(e) => Err(Error::Bip32(e)),
        }
    }

    /// The serialized public key that belongs to this key.
    pub fn public_key(&self) -> (r: Result<Vec<u8>, Error>)
        ensures
            match r {
                Ok(public) => public_key_of(self@) == Some(public@),
                Err(e) => public_key_of(self@) is None && e is Bip32,
            },
    {
        match public_key(self) {
            Ok(public) => Ok(public),
            Err(e) => Err(Error::Bip32(e)),
        }
    }

    /// Signs a 32-byte digest, committing to the whole transaction.
    pub fn sign(&self, entropy: &[u8; 32], digest: &[u8; 32]) -> (r: Result<Vec<u8>, Error>)
        ensures
            match r {
                Ok(signature) => signature_of(self@, entropy@, digest@) == Some(signature@),
                Err(e) => signature_of(self@, entropy@, digest@) is None && e is Bip32,
            },
    {
        match ecdsa_signature(self, entropy, digest) {
            Ok(signature) => Ok(signature),
            Err(e) => Err(Error::Bip32(e)),
        }
    }

    /// Overwrites the key with zeros.
    pub fn erase(&mut self)
        ensures
            final(self).erased(),
        opens_invariants none
        no_unwind
    {
        let mut i: usize = 0;
        while i < KEY_LEN
            invariant
                i <= KEY_LEN,
                forall|j: int| 0 <= j < i ==> self.encoded@[j] == 0,
            decreases KEY_LEN - i,
        {
            self.encoded[i] = 0;
            i = i + 1;
        }
    }
}

} // verus!
