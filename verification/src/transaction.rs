//! A plain-data model of a partially signed transaction: the fields that the
//! signing engine reads, and the slot for partial signatures that it fills.

use vstd::prelude::*;

verus! {

/// The sighash flag that commits a signature to every input and output.
pub const SIGHASH_ALL: u32 = 1;

/// A reference to one output of an earlier transaction.
#[derive(Clone, Debug, PartialEq, Eq)]
pub struct OutPoint {
    pub txid: [u8; 32],
    pub vout: u32,
}

/// An input of a transaction.
#[derive(Clone, Debug, PartialEq, Eq)]
pub struct TxIn {
    pub previous_output: OutPoint,
    pub script_sig: Vec<u8>,
    pub sequence: u32,
}

/// An output of a transaction.
#[derive(Clone, Debug, PartialEq, Eq)]
pub struct TxOut {
    pub value: u64,
    pub script_pubkey: Vec<u8>,
}

/// A transaction without witness data.
#[derive(Clone, Debug, PartialEq, Eq)]
pub struct Transaction {
    pub version: i32,
    pub lock_time: u32,
    pub input: Vec<TxIn>,
    pub output: Vec<TxOut>,
}

/// The mathematical value of a [`TxIn`].
pub ghost struct TxInView {
    pub txid: Seq<u8>,
    pub vout: u32,
    pub script_sig: Seq<u8>,
    pub sequence: u32,
}

/// The mathematical value of a [`TxOut`].
pub ghost struct TxOutView {
    pub value: u64,
    pub script_pubkey: Seq<u8>,
}

/// The mathematical value of a [`Transaction`].
pub ghost struct TransactionView {
    pub version: i32,
    pub lock_time: u32,
    pub input: Seq<TxInView>,
    pub output: Seq<TxOutView>,
}

impl View for TxIn {
    type V = TxInView;

    open spec fn view(&self) -> TxInView {
        TxInView {
            txid: self.previous_output.txid@,
            vout: self.previous_output.vout,
            script_sig: self.script_sig@,
            sequence: self.sequence,
        }
    }
}

impl View for TxOut {
    type V = TxOutView;

    open spec fn view(&self) -> TxOutView {
        TxOutView { value: self.value, script_pubkey: self.script_pubkey@ }
    }
}

impl View for Transaction {
    type V = TransactionView;

    open spec fn view(&self) -> TransactionView {
        TransactionView {
            version: self.version,
            lock_time: self.lock_time,
            input: Seq::new(self.input@.len(), |i: int| self.input@[i]@),
            output: Seq::new(self.output@.len(), |i: int| self.output@[i]@),
        }
    }
}

/// A key-derivation hint: a public key that can sign an input, the
/// fingerprint of the master key it descends from, and the path of child
/// numbers that leads from that master key to it.
#[derive(Clone, Debug, PartialEq, Eq)]
pub struct KeySource {
    pub public_key: Vec<u8>,
    pub fingerprint: [u8; 4],
    pub path: Vec<u32>,
}

/// A signature for one input, with the public key that it verifies under.
#[derive(Clone, Debug, PartialEq, Eq)]
pub struct PartialSig {
    pub public_key: Vec<u8>,
    pub signature: Vec<u8>,
}

impl View for PartialSig {
    type V = (Seq<u8>, Seq<u8>);

    /// The public key and the signature, as byte strings.
    open spec fn view(&self) -> (Seq<u8>, Seq<u8>) {
        (self.public_key@, self.signature@)
    }
}

/// The partial signatures of an input as a sequence of entries, each a
/// public key and a signature.
pub open spec fn entries(sigs: Seq<PartialSig>) -> Seq<(Seq<u8>, Seq<u8>)> {
    sigs.map_values(|sig: PartialSig| sig@)
}

/// The invariant of an input's partial signatures: no public key has more
/// than one entry, so that the entries are a map from key to signature.
pub open spec fn keys_occur_once(sigs: Seq<(Seq<u8>, Seq<u8>)>) -> bool {
    forall|i: int, j: int| 0 <= i < j < sigs.len() ==> (#[trigger] sigs[i]).0 != (#[trigger] sigs[j]).0
}

/// What a partially signed transaction records about one of its inputs.
#[derive(Clone, Debug, PartialEq, Eq)]
pub struct Input {
    /// The whole transaction that this input spends from.
    pub non_witness_utxo: Option<Transaction>,
    /// The single output that this input spends from, for a witness spend.
    pub witness_utxo: Option<TxOut>,
    /// The signatures collected so far. They stand for a map from public
    /// key to signature: see [`Input::wf`], which signing keeps.
    pub partial_sigs: Vec<PartialSig>,
    /// The sighash flag that signatures for this input must use.
    pub sighash_type: Option<u32>,
    /// The keys that can sign this input, in the order in which they are
    /// signed for.
    pub bip32_derivation: Vec<KeySource>,
    /// The finished unlocking script, once the input is finalized.
    pub final_script_sig: Option<Vec<u8>>,
    /// The finished witness stack, once the input is finalized.
    pub final_script_witness: Option<Vec<Vec<u8>>>,
}

/// A partially signed transaction: the transaction to be signed and, by
/// position, the record of each of its inputs.
#[derive(Clone, Debug, PartialEq, Eq)]
pub struct Psbt {
    pub unsigned_tx: Transaction,
    pub inputs: Vec<Input>,
}

impl Input {
    /// The invariant of an input: no public key has more than one partial
    /// signature.
    pub open spec fn wf(&self) -> bool {
        keys_occur_once(entries(self.partial_sigs@))
    }

    /// Whether a finished script or witness is already attached.
    pub open spec fn finalized(&self) -> bool {
        self.final_script_sig is Some || self.final_script_witness is Some
    }

    /// Whether the declared sighash flag is exactly "sign everything".
    pub open spec fn signs_everything(&self) -> bool {
        self.sighash_type == Some(SIGHASH_ALL)
    }

    /// Whether a finished script or witness is already attached.
    pub fn is_finalized(&self) -> (r: bool)
        ensures
            r == self.finalized(),
    {
        self.final_script_sig.is_some() || self.final_script_witness.is_some()
    }

    /// Whether the declared sighash flag is exactly "sign everything".
    pub fn has_sighash_all(&self) -> (r: bool)
        ensures
            r == self.signs_everything(),
    {
        match self.sighash_type {
            Some(flag) => flag == SIGHASH_ALL,
            None => false,
        }
    }
}

impl Psbt {
    /// The invariant of a partially signed transaction: that of each of its
    /// inputs.
    pub open spec fn wf(&self) -> bool {
        forall|i: int| 0 <= i < self.inputs@.len() ==> (#[trigger] self.inputs@[i]).wf()
    }

    /// The output that input `i` spends, as far as the record of that input
    /// carries it: the output of the recorded previous transaction that the
    /// input's outpoint selects. `None` where the transaction has no input at
    /// `i`, the record holds no previous transaction, or that transaction has
    /// no output at the selected position.
    pub open spec fn spent_output(&self, i: int) -> Option<TxOut> {
        if 0 <= i < self.inputs@.len() && i < self.unsigned_tx.input@.len() {
            match self.inputs@[i].non_witness_utxo {
                Some(prev) => {
                    let vout = self.unsigned_tx.input@[i].previous_output.vout as int;
                    if vout < prev.output@.len() {
                        Some(prev.output@[vout])
                    } else {
                        None
                    }
                },
                None => None,
            }
        } else {
            None
        }
    }

    /// The output that input `i` spends, looked up in the previous
    /// transaction recorded for that input.
    pub fn previous_output(&self, i: usize) -> (r: Option<&TxOut>)
        ensures
            match r {
                Some(out) => self.spent_output(i as int) == Some(*out),
                None => self.spent_output(i as int) is None,
            },
    {
        if i < self.inputs.len() && i < self.unsigned_tx.input.len() {
            match &self.inputs[i].non_witness_utxo {
                Some(prev) => {
                    let vout = self.unsigned_tx.input[i].previous_output.vout as usize;
                    if vout < prev.output.len() {
                        Some(&prev.output[vout])
                    } else {
                        None
                    }
                },
                None => None,
            }
        } else {
            None
        }
    }
}

} // verus!
