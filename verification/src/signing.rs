//! Signing requests and what comes back from them.

use crate::transaction::Psbt;
use vstd::prelude::*;

verus! {

/// The kinds of signature that can be asked for.
#[derive(Clone, Copy, Debug, PartialEq, Eq, Structural)]
pub enum SigType {
    /// A signature over the inputs of a partially signed transaction.
    Psbt,
    /// A signature over a text message.
    Message,
}

/// A request for a signature.
#[derive(Clone, Debug, PartialEq, Eq)]
pub enum SigRequest {
    /// Sign the inputs of this transaction.
    Psbt(Psbt),
    /// Sign this message.
    Message(String),
}

/// What a granted request returns: the request's payload, carrying the
/// signatures that were produced.
#[derive(Clone, Debug, PartialEq, Eq)]
pub enum SignedData {
    /// The transaction, with the new partial signatures recorded.
    Psbt(Psbt),
    /// The signed message.
    Message(String),
}

impl SigRequest {
    /// The kind of signature that a request asks for.
    pub open spec fn kind(&self) -> SigType {
        match self {
            SigRequest::Psbt(_) => SigType::Psbt,
            SigRequest::Message(_) => SigType::Message,
        }
    }

    /// The kind of signature that this request asks for.
    pub fn sigtype(&self) -> (kind: SigType)
        ensures
            kind == self.kind(),
    {
        match self {
            SigRequest::Psbt(_) => SigType::Psbt,
            SigRequest::Message(_) => SigType::Message,
        }
    }
}

} // verus!
