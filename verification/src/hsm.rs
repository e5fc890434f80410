//! The vault and its lifecycle.
//!
//! A vault is born unsealed and empty. While unsealed it can be given a
//! master key and policies, and can lose them again; it cannot sign. Sealing
//! turns it into a sealed vault, which can only sign. There is no way back.
//!
//! The lifecycle is stated over [`VaultState`] and [`SealedState`], the
//! mathematical values of the two vaults: each operation of a vault does to
//! its value what the function of the same name does to the state.

use crate::engine::{
    authorize, authorized, lemma_verdict_is_no_denial, sign_transaction, signed_from, verdict,
};
use crate::error::{Error, ErrorKind};
use crate::keys::{master_key_of, KeyMaterial};
use crate::policy::{Evaluation, Policy, PolicyUID};
use crate::signing::{SigRequest, SignedData};
use crate::transaction::Psbt;
use core::slice::Iter;
use vstd::prelude::*;
use vstd::std_specs::slice::into_iter_elts;

verus! {

/// Whether no two policies of `policies` have the same identifier.
pub open spec fn distinct_identifiers(policies: Seq<Policy>) -> bool {
    forall|i: int, j: int|
        0 <= i < j < policies.len() ==> (#[trigger] policies[i]).id() != (#[trigger] policies[j]).id()
}

/// Whether a policy with identifier `id` is among `policies`.
pub open spec fn holds_identifier(policies: Seq<Policy>, id: Seq<u8>) -> bool {
    exists|at: int| 0 <= at < policies.len() && (#[trigger] policies[at]).id() == id
}

/// Whether `at` is the first position of `policies` with identifier `id`.
pub open spec fn first_with_identifier(policies: Seq<Policy>, id: Seq<u8>, at: int) -> bool {
    &&& 0 <= at < policies.len()
    &&& policies[at].id() == id
    &&& forall|j: int| 0 <= j < at ==> (#[trigger] policies[j]).id() != id
}

/// The first position of `policies` with identifier `id`.
pub open spec fn position_of(policies: Seq<Policy>, id: Seq<u8>) -> int {
    choose|at: int| first_with_identifier(policies, id, at)
}

/// Some stored policy with identifier `id` is the first: at or before any
/// position that has the identifier there is a first one.
proof fn lemma_first_exists(policies: Seq<Policy>, id: Seq<u8>, at: int)
    requires
        0 <= at < policies.len(),
        policies[at].id() == id,
    ensures
        exists|first: int| first_with_identifier(policies, id, first),
    decreases at,
{
    if forall|j: int| 0 <= j < at ==> (#[trigger] policies[j]).id() != id {
        assert(first_with_identifier(policies, id, at));
    } else {
        let j = choose|j: int| 0 <= j < at && (#[trigger] policies[j]).id() == id;
        lemma_first_exists(policies, id, j);
    }
}

/// Where a policy with identifier `id` is stored, `position_of` is the
/// first position that holds one.
pub proof fn lemma_position_of(policies: Seq<Policy>, id: Seq<u8>)
    requires
        holds_identifier(policies, id),
    ensures
        first_with_identifier(policies, id, position_of(policies, id)),
{
    let at = choose|at: int| 0 <= at < policies.len() && (#[trigger] policies[at]).id() == id;
    lemma_first_exists(policies, id, at);
}

/// Whether `r` reports `failure`: success where there is none, else an
/// error of that kind.
pub open spec fn reports(r: Result<(), Error>, failure: Option<ErrorKind>) -> bool {
    match failure {
        None => r is Ok,
        Some(kind) => r matches Err(e) && e.kind() == kind,
    }
}

/// The value of an unsealed vault: the encoded master key, where one is
/// loaded, and the stored policies in the order in which they were loaded.
pub ghost struct VaultState {
    pub key: Option<Seq<u8>>,
    pub policies: Seq<Policy>,
}

/// The value of a sealed vault: the encoded master key, the entropy of the
/// signing context, and the policies that the vault was sealed with.
pub ghost struct SealedState {
    pub key: Seq<u8>,
    pub entropy: Seq<u8>,
    pub policies: Seq<Policy>,
}

impl VaultState {
    /// The vault without a key and without policies.
    pub open spec fn empty() -> VaultState {
        VaultState { key: None, policies: Seq::empty() }
    }

    /// The invariant of the policy store: no two stored policies have the
    /// same identifier.
    pub open spec fn wf(self) -> bool {
        distinct_identifiers(self.policies)
    }

    /// Loading a seed: refused while a key is loaded, else the master key of
    /// the seed is stored, where the seed gives one.
    pub open spec fn load_seed(self, seed: Seq<u8>) -> (VaultState, Option<ErrorKind>) {
        if self.key is Some {
            (self, Some(ErrorKind::KeySlotFull))
        } else {
            match master_key_of(seed) {
                Some(key) => (VaultState { key: Some(key), policies: self.policies }, None),
                None => (self, Some(ErrorKind::Bip32)),
            }
        }
    }

    /// Deleting the key: the key slot is empty afterwards.
    pub open spec fn delete_privkey(self) -> VaultState {
        VaultState { key: None, policies: self.policies }
    }

    /// Loading a policy: refused where its identifier is stored already,
    /// else the policy is added after the others.
    pub open spec fn load_policy(self, new: Policy) -> (VaultState, Option<ErrorKind>) {
        if holds_identifier(self.policies, new.id()) {
            (self, Some(ErrorKind::DuplicateEntry))
        } else {
            (VaultState { key: self.key, policies: self.policies.push(new) }, None)
        }
    }

    /// Deleting a policy: refused where no stored policy has the
    /// identifier, else the policy that has it leaves the store.
    pub open spec fn delete_policy(self, id: Seq<u8>) -> (VaultState, Option<ErrorKind>) {
        if holds_identifier(self.policies, id) {
            (
                VaultState {
                    key: self.key,
                    policies: self.policies.remove(position_of(self.policies, id)),
                },
                None,
            )
        } else {
            (self, Some(ErrorKind::NotFound))
        }
    }

    /// What stands in the way of sealing: a missing key, or nothing.
    pub open spec fn ready_to_seal(self) -> Option<ErrorKind> {
        if self.key is Some {
            None
        } else {
            Some(ErrorKind::NoPrivKey)
        }
    }

    /// Sealing: refused without a key, else the sealed vault holds the key,
    /// the policies, and the entropy given.
    pub open spec fn seal(self, entropy: Seq<u8>) -> Result<SealedState, ErrorKind> {
        match self.key {
            Some(key) => Ok(SealedState { key, entropy, policies: self.policies }),
            None => Err(ErrorKind::NoPrivKey),
        }
    }
}

impl SealedState {
    /// The invariant of the policy store: no two stored policies have the
    /// same identifier.
    pub open spec fn wf(self) -> bool {
        distinct_identifiers(self.policies)
    }

    /// The verdict on a request: the kind of error for which it is not
    /// signed, or `None` where it is. A request that no policy approves is
    /// denied before anything else is looked at; message signing is not
    /// supported; a transaction gets the verdict of the signing engine.
    pub open spec fn sign_verdict(self, request: SigRequest, evaluations: Seq<Evaluation>) -> Option<
        ErrorKind,
    > {
        if !authorized(self.policies, request.kind(), evaluations) {
            Some(ErrorKind::AuthorizationDenied)
        } else {
            match request {
                SigRequest::Psbt(psbt) => verdict(self.key, self.entropy, psbt),
                SigRequest::Message(_) => Some(ErrorKind::NotSupported),
            }
        }
    }
}

/// A new vault holds nothing, and its store has the invariant.
pub proof fn lemma_empty_vault()
    ensures
        VaultState::empty().wf(),
        VaultState::empty().key is None,
        VaultState::empty().policies.len() == 0,
{
}

/// Every operation on an unsealed vault keeps the invariant of the policy
/// store, and sealing hands it on.
pub proof fn lemma_store_stays_distinct(vault: VaultState, seed: Seq<u8>, new: Policy, id: Seq<u8>, entropy: Seq<u8>)
    requires
        vault.wf(),
    ensures
        vault.load_seed(seed).0.wf(),
        vault.delete_privkey().wf(),
        vault.load_policy(new).0.wf(),
        vault.delete_policy(id).0.wf(),
        vault.seal(entropy) matches Ok(sealed) ==> sealed.wf(),
{
    let added = vault.load_policy(new).0.policies;
    assert(distinct_identifiers(added)) by {
        if !holds_identifier(vault.policies, new.id()) {
            assert forall|i: int, j: int| 0 <= i < j < added.len() implies (#[trigger] added[i]).id()
                != (#[trigger] added[j]).id() by {
                assert(added[i] == vault.policies[i]);
                if j < vault.policies.len() {
                    assert(added[j] == vault.policies[j]);
                }
            }
        }
    }
    let left = vault.delete_policy(id).0.policies;
    assert(distinct_identifiers(left)) by {
        if holds_identifier(vault.policies, id) {
            lemma_position_of(vault.policies, id);
            let at = position_of(vault.policies, id);
            assert forall|i: int, j: int| 0 <= i < j < left.len() implies (#[trigger] left[i]).id()
                != (#[trigger] left[j]).id() by {
                let from_i = if i < at { i } else { i + 1 };
                let from_j = if j < at { j } else { j + 1 };
                assert(left[i] == vault.policies[from_i]);
                assert(left[j] == vault.policies[from_j]);
            }
        }
    }
}

/// Loading a seed twice: once a seed has been loaded, loading another is
/// refused because the key slot is full, and the vault keeps the first key.
pub proof fn lemma_second_seed_is_refused(vault: VaultState, first: Seq<u8>, second: Seq<u8>)
    requires
        vault.load_seed(first).1 is None,
    ensures
        vault.load_seed(first).0.key == master_key_of(first),
        vault.load_seed(first).0.load_seed(second) == (
            vault.load_seed(first).0,
            Some(ErrorKind::KeySlotFull),
        ),
{
}

/// Sealing needs a key: without one it is refused, and the same vault seals
/// once a seed has been loaded into it, with the policies it had.
pub proof fn lemma_seal_after_seed(vault: VaultState, seed: Seq<u8>, entropy: Seq<u8>)
    requires
        vault.key is None,
        master_key_of(seed) is Some,
    ensures
        vault.ready_to_seal() == Some(ErrorKind::NoPrivKey),
        vault.seal(entropy) == Err::<SealedState, ErrorKind>(ErrorKind::NoPrivKey),
        vault.load_seed(seed).1 is None,
        vault.load_seed(seed).0.ready_to_seal() is None,
        vault.load_seed(seed).0.seal(entropy) == Ok::<SealedState, ErrorKind>(
            SealedState { key: master_key_of(seed).unwrap(), entropy, policies: vault.policies },
        ),
{
}

/// Loading a policy whose identifier is stored already is refused as a
/// duplicate and leaves the vault as it was. A policy that has just been
/// loaded is such a duplicate.
pub proof fn lemma_duplicate_policy_is_refused(vault: VaultState, new: Policy)
    ensures
        holds_identifier(vault.policies, new.id()) ==> vault.load_policy(new) == (
            vault,
            Some(ErrorKind::DuplicateEntry),
        ),
        vault.load_policy(new).0.load_policy(new) == (
            vault.load_policy(new).0,
            Some(ErrorKind::DuplicateEntry),
        ),
{
    let after = vault.load_policy(new).0;
    if holds_identifier(vault.policies, new.id()) {
    } else {
        assert(after.policies[vault.policies.len() as int].id() == new.id());
    }
}

/// Deleting a policy whose identifier is not stored is refused as not found
/// and leaves the vault as it was. Under the invariant of the store, a
/// policy that has just been deleted is not found again.
pub proof fn lemma_absent_policy_is_not_found(vault: VaultState, id: Seq<u8>)
    ensures
        !holds_identifier(vault.policies, id) ==> vault.delete_policy(id) == (
            vault,
            Some(ErrorKind::NotFound),
        ),
        vault.wf() ==> vault.delete_policy(id).0.delete_policy(id) == (
            vault.delete_policy(id).0,
            Some(ErrorKind::NotFound),
        ),
{
    if vault.wf() && holds_identifier(vault.policies, id) {
        lemma_position_of(vault.policies, id);
        let at = position_of(vault.policies, id);
        let left = vault.delete_policy(id).0.policies;
        assert forall|k: int| 0 <= k < left.len() implies (#[trigger] left[k]).id() != id by {
            let from = if k < at { k } else { k + 1 };
            assert(left[k] == vault.policies[from]);
        }
    }
}

/// A request is denied exactly when no stored policy approves it: a store
/// without policies denies every request, and a request that some policy
/// approves is never answered with a denial, whatever else stops it.
pub proof fn lemma_denied_iff_none_approves(
    sealed: SealedState,
    request: SigRequest,
    evaluations: Seq<Evaluation>,
)
    ensures
        sealed.sign_verdict(request, evaluations) == Some(ErrorKind::AuthorizationDenied)
            <==> !authorized(sealed.policies, request.kind(), evaluations),
        sealed.policies.len() == 0 ==> sealed.sign_verdict(request, evaluations) == Some(
            ErrorKind::AuthorizationDenied,
        ),
{
    match request {
        SigRequest::Psbt(psbt) => {
            lemma_verdict_is_no_denial(sealed.key, sealed.entropy, psbt);
        },
        SigRequest::Message(_) => {},
    }
    if sealed.policies.len() == 0 {
        assert forall|i: int| !crate::engine::approves_at(
            sealed.policies,
            request.kind(),
            evaluations,
            i,
        ) by {}
    }
}

/// A vault that is being provisioned: it may hold a master key, and it holds
/// the policies loaded so far.
pub struct UnsealedHsm {
    xpriv: Option<KeyMaterial>,
    policies: Vec<Policy>,
}

/// A vault that has been sealed: it holds a master key, the policies it was
/// sealed with, and the entropy that randomizes its signing context.
pub struct SealedHsm {
    xpriv: KeyMaterial,
    entropy: [u8; 32],
    policies: Vec<Policy>,
}

impl View for UnsealedHsm {
    type V = VaultState;

    closed spec fn view(&self) -> VaultState {
        VaultState {
            key: match self.xpriv {
                Some(key) => Some(key@),
                None => None,
            },
            policies: self.policies@,
        }
    }
}

impl View for SealedHsm {
    type V = SealedState;

    closed spec fn view(&self) -> SealedState {
        SealedState { key: self.xpriv@, entropy: self.entropy@, policies: self.policies@ }
    }
}

impl UnsealedHsm {
    /// A vault with no key and no policies.
    pub fn new() -> (hsm: UnsealedHsm)
        ensures
            hsm@ == VaultState::empty(),
            hsm@.wf(),
    {
        UnsealedHsm { xpriv: None, policies: Vec::new() }
    }

    /// Derives the master key from `seed` and stores it. Refused while a key
    /// is loaded; the vault is then left as it was.
    pub fn load_seed(&mut self, seed: &[u8]) -> (r: Result<(), Error>)
        ensures
            final(self)@ == old(self)@.load_seed(seed@).0,
            reports(r, old(self)@.load_seed(seed@).1),
    {
        if self.xpriv.is_some() {
            Err(Error::KeySlotFull)
        } else {
            match KeyMaterial::from_seed(seed) {
                Ok(key) => {
                    self.xpriv = Some(key);
                    Ok(())
                },
                Err(e) => Err(e),
            }
        }
    }

    /// Removes the master key, if there is one, overwriting it with zeros
    /// before it is dropped.
    pub fn delete_privkey(&mut self)
        ensures
            final(self)@ == old(self)@.delete_privkey(),
    {
        match self.xpriv.take() {
            Some(key) => {
                let mut key = key;
                key.erase();
            },
            None => {},
        }
    }

    /// Adds a policy, whether or not a key is loaded. Refused where a policy
    /// with the same identifier is stored already; the vault is then left as
    /// it was.
    pub fn load_policy(&mut self, new: Policy) -> (r: Result<(), Error>)
        ensures
            final(self)@ == old(self)@.load_policy(new).0,
            reports(r, old(self)@.load_policy(new).1),
    {
        let id = new.identifier();
        let mut i: usize = 0;
        while i < self.policies.len()
            invariant
                i <= self.policies@.len(),
                *self == *old(self),
                id@ == new.id(),
                forall|j: int| 0 <= j < i ==> (#[trigger] self.policies@[j]).id() != id@,
            decreases self.policies@.len() - i,
        {
            if self.policies[i].identifier().equals(&id) {
                return Err(Error::DuplicateEntry);
            }
            i = i + 1;
        }
        self.policies.push(new);
        Ok(())
    }

    /// Removes the policy with identifier `id`. Refused where no stored
    /// policy has it; the vault is then left as it was.
    pub fn delete_policy(&mut self, id: PolicyUID) -> (r: Result<(), Error>)
        ensures
            final(self)@ == old(self)@.delete_policy(id@).0,
            reports(r, old(self)@.delete_policy(id@).1),
    {
        let mut i: usize = 0;
        while i < self.policies.len()
            invariant
                i <= self.policies@.len(),
                *self == *old(self),
                forall|j: int| 0 <= j < i ==> (#[trigger] self.policies@[j]).id() != id@,
            decreases self.policies@.len() - i,
        {
            if self.policies[i].identifier().equals(&id) {
                proof {
                    assert(first_with_identifier(self.policies@, id@, i as int));
                    let at = position_of(self.policies@, id@);
                    assert(first_with_identifier(self.policies@, id@, at));
                    assert(at == i);
                }
                self.policies.remove(i);
                return Ok(());
            }
            i = i + 1;
        }
        Err(Error::NotFound)
    }

    /// The stored policies, in the order in which they were loaded.
    pub fn iter_policies(&self) -> (iter: Iter<'_, Policy>)
        ensures
            into_iter_elts(iter) == self@.policies,
    {
        self.policies.iter()
    }

    /// Whether the vault can be sealed: it can once it holds a key.
    pub fn ready_to_seal(&self) -> (r: Result<(), Error>)
        ensures
            reports(r, self@.ready_to_seal()),
    {
        if self.xpriv.is_none() {
            Err(Error::NoPrivKey)
        } else {
            Ok(())
        }
    }

    /// Seals the vault. With a key loaded, the vault is consumed and the
    /// sealed vault holds its key and its policies, and `rng_seed` as the
    /// entropy of its signing context. Without a key the vault is handed
    /// back untouched, beside the error.
    pub fn seal(self, rng_seed: &[u8; 32]) -> (r: Result<SealedHsm, (Error, UnsealedHsm)>)
        ensures
            match self@.seal(rng_seed@) {
                Ok(state) => r matches Ok(sealed) && sealed@ == state,
                Err(kind) => r matches Err((e, hsm)) && e.kind() == kind && hsm == self,
            },
    {
        let UnsealedHsm { xpriv, policies } = self;
        match xpriv {
            Some(key) => Ok(SealedHsm { xpriv: key, entropy: *rng_seed, policies }),
            None => Err((Error::NoPrivKey, UnsealedHsm { xpriv: None, policies })),
        }
    }
}

impl SealedHsm {
    /// Signs `request` where at least one stored policy approves it.
    /// `evaluations` holds, by position in the store, what evaluating each
    /// policy's script against the request gave.
    pub fn sign(&self, request: SigRequest, evaluations: &Vec<Evaluation>) -> (r: Result<
        SignedData,
        Error,
    >)
        ensures
            match self@.sign_verdict(request, evaluations@) {
                Some(kind) => r matches Err(e) && e.kind() == kind,
                None => request matches SigRequest::Psbt(psbt) && r matches Ok(
                    SignedData::Psbt(signed),
                ) && signed_from(self@.key, self@.entropy, psbt, signed),
            },
    {
        if authorize(&self.policies, &request, evaluations) {
            match request {
                SigRequest::Psbt(psbt) => self.sign_psbt(psbt),
                SigRequest::Message(msg) => self.sign_message(msg),
            }
        } else {
            Err(Error::AuthorizationDenied)
        }
    }

    /// Validates a transaction and signs its inputs with the keys that the
    /// inputs' derivation hints name.
    fn sign_psbt(&self, psbt: Psbt) -> (r: Result<SignedData, Error>)
        ensures
            match verdict(self@.key, self@.entropy, psbt) {
                Some(kind) => r matches Err(e) && e.kind() == kind,
                None => r matches Ok(SignedData::Psbt(signed)) && signed_from(
                    self@.key,
                    self@.entropy,
                    psbt,
                    signed,
                ),
            },
    {
        match sign_transaction(&self.xpriv, &self.entropy, psbt) {
            Ok(signed) => Ok(SignedData::Psbt(signed)),
            Err(e) => Err(e),
        }
    }

    /// Signs a message: not supported.
    fn sign_message(&self, _msg: String) -> (r: Result<SignedData, Error>)
        ensures
            r matches Err(Error::NotSupported),
    {
        Err(Error::NotSupported)
    }

    /// The policies that the vault was sealed with.
    pub fn iter_policies(&self) -> (iter: Iter<'_, Policy>)
        ensures
            into_iter_elts(iter) == self@.policies,
    {
        self.policies.iter()
    }
}

} // verus!
