//! The error taxonomy of the vault.

use vstd::prelude::*;
use bitcoin::secp256k1::Error as CurveError;
use bitcoin::util::bip32::Error as DerivationError;
use vstd::std_specs::convert::FromSpecImpl;

verus! {

#[verifier::external_type_specification]
#[verifier::external_body]
pub struct ExDerivationError(DerivationError);

#[verifier::external_type_specification]
#[verifier::external_body]
pub struct ExCurveError(CurveError);

/// Everything that can go wrong while provisioning the vault or signing.
#[derive(Debug)]
pub enum Error {
    /// Deriving a key failed inside the key-derivation library.
    Bip32(DerivationError),
    /// The elliptic-curve library rejected a value.
    Secp256k1(CurveError),
    /// An operation needs the master key and none is loaded.
    NoPrivKey,
    /// No stored policy has the requested identifier.
    NotFound,
    /// A policy with the same identifier is already stored.
    DuplicateEntry,
    /// A master key is already loaded.
    KeySlotFull,
    /// An input that is not finalized lacks the transaction it spends from.
    MissingNonWitnessUtxo,
    /// An input does not commit to the whole transaction.
    NonStandardSighash,
    /// An input carries neither form of previous-output data.
    UnsupportedUtxoType,
    /// No stored policy approves the request.
    AuthorizationDenied,
    /// The request asks for a signing mode that is declared but not built.
    NotSupported,
}

/// The kind of an error: which of the vault's failures it reports, without
/// what a cryptographic library attached to it.
#[derive(Clone, Copy, Debug, PartialEq, Eq, Structural)]
pub enum ErrorKind {
    Bip32,
    Secp256k1,
    NoPrivKey,
    NotFound,
    DuplicateEntry,
    KeySlotFull,
    MissingNonWitnessUtxo,
    NonStandardSighash,
    UnsupportedUtxoType,
    AuthorizationDenied,
    NotSupported,
}

/// `Display` of `bitcoin::util::bip32::Error`: the text that the
/// key-derivation library prints for its error. Nothing is claimed of it.
#[verifier::external_body]
fn bip32_error_text(e: &DerivationError) -> (text: String) {
    format!("{}", e)
}

/// `Display` of `secp256k1::Error`: the text that the elliptic-curve library
/// prints for its error. Nothing is claimed of it.
#[verifier::external_body]
fn secp256k1_error_text(e: &CurveError) -> (text: String) {
    format!("{}", e)
}

impl Error {
    /// The kind of the error.
    pub open spec fn spec_kind(&self) -> ErrorKind {
        match self {
            Error::Bip32(_) => ErrorKind::Bip32,
            Error::Secp256k1(_) => ErrorKind::Secp256k1,
            Error::NoPrivKey => ErrorKind::NoPrivKey,
            Error::NotFound => ErrorKind::NotFound,
            Error::DuplicateEntry => ErrorKind::DuplicateEntry,
            Error::KeySlotFull => ErrorKind::KeySlotFull,
            Error::MissingNonWitnessUtxo => ErrorKind::MissingNonWitnessUtxo,
            Error::NonStandardSighash => ErrorKind::NonStandardSighash,
            Error::UnsupportedUtxoType => ErrorKind::UnsupportedUtxoType,
            Error::AuthorizationDenied => ErrorKind::AuthorizationDenied,
            Error::NotSupported => ErrorKind::NotSupported,
        }
    }

    /// The kind of the error.
    #[verifier::when_used_as_spec(spec_kind)]
    pub fn kind(&self) -> (kind: ErrorKind)
        ensures
            kind == self.spec_kind(),
    {
        match self {
            Error::Bip32(_) => ErrorKind::Bip32,
            Error::Secp256k1(_) => ErrorKind::Secp256k1,
            Error::NoPrivKey => ErrorKind::NoPrivKey,
            Error::NotFound => ErrorKind::NotFound,
            Error::DuplicateEntry => ErrorKind::DuplicateEntry,
            Error::KeySlotFull => ErrorKind::KeySlotFull,
            Error::MissingNonWitnessUtxo => ErrorKind::MissingNonWitnessUtxo,
            Error::NonStandardSighash => ErrorKind::NonStandardSighash,
            Error::UnsupportedUtxoType => ErrorKind::UnsupportedUtxoType,
            Error::AuthorizationDenied => ErrorKind::AuthorizationDenied,
            Error::NotSupported => ErrorKind::NotSupported,
        }
    }

    /// The fixed text of an error of the vault's own; `None` for an error
    /// that wraps one of the cryptographic libraries, whose text is theirs.
    pub open spec fn own_message(&self) -> Option<Seq<char>> {
        match self {
            Error::Bip32(_) => None,
            Error::Secp256k1(_) => None,
            Error::NoPrivKey => Some("No private key!"@),
            Error::NotFound => Some("Entry was not found."@),
            Error::DuplicateEntry => Some("Entry already exists and may not be duplicated."@),
            Error::KeySlotFull => Some("A key already exists and cannot be overwritten."@),
            Error::MissingNonWitnessUtxo => Some(
                "The non_witness_utxo field of the transaction is required to sign this input."@,
            ),
            Error::NonStandardSighash => Some(
                "The psbt contains a non-'SIGHASH_ALL' sighash in one of its inputs."@,
            ),
            Error::UnsupportedUtxoType => Some("Unknown UTXO type found."@),
            Error::AuthorizationDenied => Some("No policy approves this request."@),
            Error::NotSupported => Some("This function has not been implemented yet."@),
        }
    }

    /// A description of the error for a human reader.
    pub fn message(&self) -> (text: String)
        ensures
            self.own_message() matches Some(m) ==> text@ == m,
    {
        match self {
            Error::Bip32(e) => bip32_error_text(e),
            Error::Secp256k1(e) => secp256k1_error_text(e),
            Error::NoPrivKey => "No private key!".to_owned(),
            Error::NotFound => "Entry was not found.".to_owned(),
            Error::DuplicateEntry => "Entry already exists and may not be duplicated.".to_owned(),
            Error::KeySlotFull => "A key already exists and cannot be overwritten.".to_owned(),
            Error::MissingNonWitnessUtxo => "The non_witness_utxo field of the transaction is required to sign this input.".to_owned(),
            Error::NonStandardSighash => "The psbt contains a non-'SIGHASH_ALL' sighash in one of its inputs.".to_owned(),
            Error::UnsupportedUtxoType => "Unknown UTXO type found.".to_owned(),
            Error::AuthorizationDenied => "No policy approves this request.".to_owned(),
            Error::NotSupported => "This function has not been implemented yet.".to_owned(),
        }
    }
}

impl From<DerivationError> for Error {
    fn from(e: DerivationError) -> (r: Error) {
        Error::Bip32(e)
    }
}

impl FromSpecImpl<DerivationError> for Error {
    open spec fn obeys_from_spec() -> bool {
        true
    }

    open spec fn from_spec(e: DerivationError) -> Error {
        Error::Bip32(e)
    }
}

impl From<CurveError> for Error {
    fn from(e: CurveError) -> (r: Error) {
        Error::Secp256k1(e)
    }
}

impl FromSpecImpl<CurveError> for Error {
    open spec fn obeys_from_spec() -> bool {
        true
    }

    open spec fn from_spec(e: CurveError) -> Error {
        Error::Secp256k1(e)
    }
}

} // verus!
