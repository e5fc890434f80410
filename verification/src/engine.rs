//! The rules of the signing engine: when a request is authorized, which
//! transactions pass validation, and which signatures signing adds.

use crate::error::{Error, ErrorKind};
use crate::keys::{
    derived_key_of, legacy_sighash, legacy_sighash_of, public_key_of, signature_of, within_depth,
    KeyMaterial,
};
use crate::policy::{policy_approves, Evaluation, Policy};
use crate::signing::{SigRequest, SigType};
use crate::transaction::{
    entries, keys_occur_once, Input, KeySource, PartialSig, Psbt, SIGHASH_ALL,
};
use vstd::prelude::*;

verus! {

/// Whether the policy at position `i` approves a request of kind
/// `requested`, given the evaluation at the same position.
pub open spec fn approves_at(
    policies: Seq<Policy>,
    requested: SigType,
    evaluations: Seq<Evaluation>,
    i: int,
) -> bool {
    0 <= i < policies.len() && i < evaluations.len() && policy_approves(
        policies[i].kind(),
        requested,
        evaluations[i],
    )
}

/// The authorization decision: a request of kind `requested` is authorized
/// when at least one stored policy approves it. `evaluations` holds, by
/// position, what evaluating each policy's script against the request gave;
/// a policy without an evaluation approves nothing.
pub open spec fn authorized(policies: Seq<Policy>, requested: SigType, evaluations: Seq<Evaluation>) -> bool {
    exists|i: int| #[trigger] approves_at(policies, requested, evaluations, i)
}

/// Decides whether any of `policies` approves `request`.
pub fn authorize(policies: &Vec<Policy>, request: &SigRequest, evaluations: &Vec<Evaluation>) -> (granted: bool)
    ensures
        granted == authorized(policies@, request.kind(), evaluations@),
{
    let mut i: usize = 0;
    while i < policies.len() && i < evaluations.len()
        invariant
            forall|j: int| 0 <= j < i ==> !approves_at(policies@, request.kind(), evaluations@, j),
        decreases policies@.len() - i,
    {
        if policies[i].approves(request, evaluations[i]) {
            assert(approves_at(policies@, request.kind(), evaluations@, i as int));
            return true;
        }
        i = i + 1;
    }
    false
}

/// Partial signatures as a map from public key to signature. Where a public
/// key has more than one entry, its first entry counts.
pub open spec fn signature_map(sigs: Seq<(Seq<u8>, Seq<u8>)>) -> Map<Seq<u8>, Seq<u8>>
    decreases sigs.len(),
{
    if sigs.len() == 0 {
        Map::empty()
    } else {
        signature_map(sigs.drop_first()).insert(sigs[0].0, sigs[0].1)
    }
}

/// Whether `at` is the first position of `sigs` that holds `public_key`.
pub open spec fn first_with_key(sigs: Seq<(Seq<u8>, Seq<u8>)>, public_key: Seq<u8>, at: int) -> bool {
    &&& 0 <= at < sigs.len()
    &&& sigs[at].0 == public_key
    &&& forall|j: int| 0 <= j < at ==> (#[trigger] sigs[j]).0 != public_key
}

/// Whether no entry of `sigs` holds `public_key`.
pub open spec fn without_key(sigs: Seq<(Seq<u8>, Seq<u8>)>, public_key: Seq<u8>) -> bool {
    forall|j: int| 0 <= j < sigs.len() ==> (#[trigger] sigs[j]).0 != public_key
}

/// The partial signatures after recording `signature` under `public_key`:
/// the signature takes the place of the first entry that the key has, or
/// comes after the others if the key has none.
pub open spec fn recorded(sigs: Seq<(Seq<u8>, Seq<u8>)>, public_key: Seq<u8>, signature: Seq<u8>) -> Seq<
    (Seq<u8>, Seq<u8>),
>
    decreases sigs.len(),
{
    if sigs.len() == 0 {
        seq![(public_key, signature)]
    } else if sigs[0].0 == public_key {
        sigs.update(0, (public_key, signature))
    } else {
        seq![sigs[0]] + recorded(sigs.drop_first(), public_key, signature)
    }
}

/// The partial signatures after recording each of `fresh` in turn.
pub open spec fn recorded_all(sigs: Seq<(Seq<u8>, Seq<u8>)>, fresh: Seq<(Seq<u8>, Seq<u8>)>) -> Seq<
    (Seq<u8>, Seq<u8>),
>
    decreases fresh.len(),
{
    if fresh.len() == 0 {
        sigs
    } else {
        recorded(recorded_all(sigs, fresh.drop_last()), fresh.last().0, fresh.last().1)
    }
}

/// Recording under a key that has no entry appends the entry.
pub proof fn lemma_recorded_appends(sigs: Seq<(Seq<u8>, Seq<u8>)>, public_key: Seq<u8>, signature: Seq<u8>)
    requires
        without_key(sigs, public_key),
    ensures
        recorded(sigs, public_key, signature) == sigs.push((public_key, signature)),
    decreases sigs.len(),
{
    if sigs.len() > 0 {
        let rest = sigs.drop_first();
        assert forall|j: int| 0 <= j < rest.len() implies (#[trigger] rest[j]).0 != public_key by {
            assert(rest[j] == sigs[j + 1]);
        }
        lemma_recorded_appends(rest, public_key, signature);
        assert(sigs[0].0 != public_key);
        assert(seq![sigs[0]] + rest.push((public_key, signature)) =~= sigs.push(
            (public_key, signature),
        ));
    } else {
        assert(seq![(public_key, signature)] =~= sigs.push((public_key, signature)));
    }
}

/// Recording under a key that has an entry replaces the first such entry.
pub proof fn lemma_recorded_replaces(
    sigs: Seq<(Seq<u8>, Seq<u8>)>,
    public_key: Seq<u8>,
    signature: Seq<u8>,
    at: int,
)
    requires
        first_with_key(sigs, public_key, at),
    ensures
        recorded(sigs, public_key, signature) == sigs.update(at, (public_key, signature)),
    decreases sigs.len(),
{
    if at > 0 {
        let rest = sigs.drop_first();
        assert forall|j: int| 0 <= j < at - 1 implies (#[trigger] rest[j]).0 != public_key by {
            assert(rest[j] == sigs[j + 1]);
        }
        assert(rest[at - 1] == sigs[at]);
        lemma_recorded_replaces(rest, public_key, signature, at - 1);
        assert(sigs[0].0 != public_key);
        assert(seq![sigs[0]] + rest.update(at - 1, (public_key, signature)) =~= sigs.update(
            at,
            (public_key, signature),
        ));
    }
}

/// A key either has no entry or has a first one.
proof fn lemma_first_or_none(sigs: Seq<(Seq<u8>, Seq<u8>)>, public_key: Seq<u8>, upto: int)
    requires
        0 <= upto <= sigs.len(),
    ensures
        (forall|j: int| 0 <= j < upto ==> (#[trigger] sigs[j]).0 != public_key) || exists|at: int|
            #[trigger] first_with_key(sigs, public_key, at),
    decreases upto,
{
    if upto > 0 {
        lemma_first_or_none(sigs, public_key, upto - 1);
        if forall|j: int| 0 <= j < upto - 1 ==> (#[trigger] sigs[j]).0 != public_key {
            if sigs[upto - 1].0 == public_key {
                assert(first_with_key(sigs, public_key, upto - 1));
            }
        }
    }
}

/// As a map, recording a signature inserts it under its key and leaves the
/// other keys as they were.
pub proof fn lemma_recorded_as_map(sigs: Seq<(Seq<u8>, Seq<u8>)>, public_key: Seq<u8>, signature: Seq<u8>)
    ensures
        signature_map(recorded(sigs, public_key, signature)) == signature_map(sigs).insert(
            public_key,
            signature,
        ),
    decreases sigs.len(),
{
    let after = recorded(sigs, public_key, signature);
    if sigs.len() == 0 {
        assert(after.drop_first() =~= sigs);
    } else if sigs[0].0 == public_key {
        assert(after.drop_first() =~= sigs.drop_first());
    } else {
        lemma_recorded_as_map(sigs.drop_first(), public_key, signature);
        assert(after.drop_first() =~= recorded(sigs.drop_first(), public_key, signature));
        assert(after[0] == sigs[0]);
    }
    assert(signature_map(after) =~= signature_map(sigs).insert(public_key, signature));
}

/// Recording a signature keeps the invariant of the partial signatures, and
/// keeps every entry that was there at its position and under its key.
pub proof fn lemma_recorded_keeps_keys_once(
    sigs: Seq<(Seq<u8>, Seq<u8>)>,
    public_key: Seq<u8>,
    signature: Seq<u8>,
)
    ensures
        keys_occur_once(sigs) ==> keys_occur_once(recorded(sigs, public_key, signature)),
        recorded(sigs, public_key, signature).len() >= sigs.len(),
        forall|j: int|
            0 <= j < sigs.len() ==> (#[trigger] recorded(sigs, public_key, signature)[j]).0
                == sigs[j].0,
{
    let after = recorded(sigs, public_key, signature);
    lemma_first_or_none(sigs, public_key, sigs.len() as int);
    if without_key(sigs, public_key) {
        lemma_recorded_appends(sigs, public_key, signature);
        if keys_occur_once(sigs) {
            assert forall|i: int, j: int| 0 <= i < j < after.len() implies (#[trigger] after[i]).0
                != (#[trigger] after[j]).0 by {
                assert(after[i] == sigs[i]);
                if j < sigs.len() {
                    assert(after[j] == sigs[j]);
                }
            }
        }
    } else {
        let at = choose|at: int| #[trigger] first_with_key(sigs, public_key, at);
        lemma_recorded_replaces(sigs, public_key, signature, at);
        if keys_occur_once(sigs) {
            assert forall|i: int, j: int| 0 <= i < j < after.len() implies (#[trigger] after[i]).0
                != (#[trigger] after[j]).0 by {
                assert(after[i].0 == sigs[i].0);
                assert(after[j].0 == sigs[j].0);
            }
        }
    }
}

/// Recording several signatures keeps the invariant of the partial
/// signatures, and keeps every entry that was there at its position and
/// under its key.
pub proof fn lemma_recorded_all_keeps_keys_once(sigs: Seq<(Seq<u8>, Seq<u8>)>, fresh: Seq<(Seq<u8>, Seq<u8>)>)
    ensures
        keys_occur_once(sigs) ==> keys_occur_once(recorded_all(sigs, fresh)),
        recorded_all(sigs, fresh).len() >= sigs.len(),
        forall|j: int| 0 <= j < sigs.len() ==> (#[trigger] recorded_all(sigs, fresh)[j]).0 == sigs[j].0,
    decreases fresh.len(),
{
    if fresh.len() > 0 {
        let before = recorded_all(sigs, fresh.drop_last());
        lemma_recorded_all_keeps_keys_once(sigs, fresh.drop_last());
        lemma_recorded_keeps_keys_once(before, fresh.last().0, fresh.last().1);
        assert forall|j: int| 0 <= j < sigs.len() implies (#[trigger] recorded_all(sigs, fresh)[j]).0
            == sigs[j].0 by {
            assert(recorded(before, fresh.last().0, fresh.last().1)[j].0 == before[j].0);
        }
    }
}

/// Whether two byte strings are equal.
pub fn same_bytes(a: &Vec<u8>, b: &Vec<u8>) -> (same: bool)
    ensures
        same == (a@ == b@),
{
    if a.len() != b.len() {
        return false;
    }
    let mut i: usize = 0;
    while i < a.len()
        invariant
            a@.len() == b@.len(),
            i <= a@.len(),
            forall|j: int| 0 <= j < i ==> a@[j] == b@[j],
        decreases a@.len() - i,
    {
        if a[i] != b[i] {
            return false;
        }
        i = i + 1;
    }
    assert(a@ =~= b@);
    true
}

/// A copy of a byte string.
pub fn copy_bytes(bytes: &Vec<u8>) -> (copy: Vec<u8>)
    ensures
        copy@ == bytes@,
{
    let mut copy: Vec<u8> = Vec::new();
    let mut i: usize = 0;
    while i < bytes.len()
        invariant
            i <= bytes@.len(),
            copy@ == bytes@.subrange(0, i as int),
        decreases bytes@.len() - i,
    {
        copy.push(bytes[i]);
        i = i + 1;
    }
    assert(bytes@.subrange(0, bytes@.len() as int) =~= bytes@);
    copy
}

/// Records `signature` under `public_key`: in place of the first entry that
/// the key has, or after the others if it has none.
pub fn record_signature(sigs: &mut Vec<PartialSig>, public_key: Vec<u8>, signature: Vec<u8>)
    ensures
        entries(final(sigs)@) == recorded(entries(old(sigs)@), public_key@, signature@),
        keys_occur_once(entries(old(sigs)@)) ==> keys_occur_once(entries(final(sigs)@)),
{
    proof {
        lemma_recorded_keeps_keys_once(entries(sigs@), public_key@, signature@);
    }
    let mut i: usize = 0;
    while i < sigs.len()
        invariant
            i <= sigs@.len(),
            sigs@ == old(sigs)@,
            forall|j: int| 0 <= j < i ==> (#[trigger] entries(sigs@)[j]).0 != public_key@,
        decreases sigs@.len() - i,
    {
        if same_bytes(&sigs[i].public_key, &public_key) {
            let entry = PartialSig { public_key, signature };
            proof {
                assert(entries(sigs@)[i as int] == sigs@[i as int]@);
                lemma_recorded_replaces(entries(sigs@), entry@.0, entry@.1, i as int);
                assert(entries(sigs@.update(i as int, entry)) =~= entries(sigs@).update(
                    i as int,
                    entry@,
                ));
            }
            sigs.set(i, entry);
            return ;
        }
        assert(entries(sigs@)[i as int] == sigs@[i as int]@);
        i = i + 1;
    }
    let entry = PartialSig { public_key, signature };
    proof {
        lemma_recorded_appends(entries(sigs@), entry@.0, entry@.1);
        assert(entries(sigs@.push(entry)) =~= entries(sigs@).push(entry@));
    }
    sigs.push(entry);
}

/// What one key-derivation hint contributes to an input: the public key of
/// the child that `path` leads to from `key`, and that child's signature
/// over `digest`. `None` where the path leads too deep or a cryptographic
/// step fails.
pub open spec fn hint_signature(key: Seq<u8>, entropy: Seq<u8>, path: Seq<u32>, digest: Seq<u8>) -> Option<
    (Seq<u8>, Seq<u8>),
> {
    if !within_depth(key, path.len()) {
        None
    } else {
        match derived_key_of(key, path) {
            Some(child) => match (public_key_of(child), signature_of(child, entropy, digest)) {
                (Some(public), Some(signature)) => Some((public, signature)),
                _ => None,
            },
            None => None,
        }
    }
}

/// What the key-derivation hints of an input contribute: for each hint in
/// turn, the derived public key and the signature over `digest`. `None`
/// where a hint fails; then nothing is contributed.
pub open spec fn hint_signatures(key: Seq<u8>, entropy: Seq<u8>, hints: Seq<KeySource>, digest: Seq<u8>) -> Option<
    Seq<(Seq<u8>, Seq<u8>)>,
>
    decreases hints.len(),
{
    if hints.len() == 0 {
        Some(Seq::empty())
    } else {
        match hint_signatures(key, entropy, hints.drop_last(), digest) {
            Some(fresh) => match hint_signature(key, entropy, hints.last().path@, digest) {
                Some(entry) => Some(fresh.push(entry)),
                None => None,
            },
            None => None,
        }
    }
}

/// The partial signatures of an input after signing `digest` for each of
/// `hints` in turn, starting from the signatures `start`. `None` where a
/// hint fails.
pub open spec fn hints_outcome(
    key: Seq<u8>,
    entropy: Seq<u8>,
    hints: Seq<KeySource>,
    digest: Seq<u8>,
    start: Seq<(Seq<u8>, Seq<u8>)>,
) -> Option<Seq<(Seq<u8>, Seq<u8>)>> {
    match hint_signatures(key, entropy, hints, digest) {
        Some(fresh) => Some(recorded_all(start, fresh)),
        None => None,
    }
}

/// Derives the child key that `path` names and signs `digest` with it.
pub fn sign_with_hint(key: &KeyMaterial, entropy: &[u8; 32], path: &Vec<u32>, digest: &[u8; 32]) -> (r: Result<
    (Vec<u8>, Vec<u8>),
    Error,
>)
    ensures
        match r {
            Ok((public, signature)) => hint_signature(key@, entropy@, path@, digest@) == Some(
                (public@, signature@),
            ),
            Err(e) => hint_signature(key@, entropy@, path@, digest@) is None && e is Bip32,
        },
{
    let child = key.derive(path)?;
    let public = child.public_key()?;
    let signature = child.sign(entropy, digest)?;
    Ok((public, signature))
}

/// Once a prefix of the hints fails, the hints fail.
proof fn lemma_hint_signatures_fail(
    key: Seq<u8>,
    entropy: Seq<u8>,
    hints: Seq<KeySource>,
    digest: Seq<u8>,
    n: int,
)
    requires
        0 <= n <= hints.len(),
        hint_signatures(key, entropy, hints.take(n), digest) is None,
    ensures
        hint_signatures(key, entropy, hints, digest) is None,
    decreases hints.len() - n,
{
    if n == hints.len() {
        assert(hints.take(n) =~= hints);
    } else {
        assert(hints.take(n + 1).drop_last() =~= hints.take(n));
        lemma_hint_signatures_fail(key, entropy, hints, digest, n + 1);
    }
}

/// Signs `digest` for each of `hints` in turn: all of them, or none.
pub fn sign_hints(key: &KeyMaterial, entropy: &[u8; 32], hints: &Vec<KeySource>, digest: &[u8; 32]) -> (r: Result<
    Vec<PartialSig>,
    Error,
>)
    ensures
        match hint_signatures(key@, entropy@, hints@, digest@) {
            Some(fresh) => r matches Ok(signed) && entries(signed@) == fresh,
            None => r matches Err(Error::Bip32(_)),
        },
{
    let mut signed: Vec<PartialSig> = Vec::new();
    let mut j: usize = 0;
    while j < hints.len()
        invariant
            j <= hints@.len(),
            hint_signatures(key@, entropy@, hints@.take(j as int), digest@) == Some(
                entries(signed@),
            ),
        decreases hints@.len() - j,
    {
        proof {
            assert(hints@.take(j + 1).drop_last() =~= hints@.take(j as int));
            assert(hints@.take(j + 1).last() == hints@[j as int]);
        }
        match sign_with_hint(key, entropy, &hints[j].path, digest) {
            Ok((public_key, signature)) => {
                let entry = PartialSig { public_key, signature };
                proof {
                    assert(entries(signed@.push(entry)) =~= entries(signed@).push(entry@));
                }
                signed.push(entry);
            },
            Err(e) => {
                proof {
                    lemma_hint_signatures_fail(key@, entropy@, hints@, digest@, j + 1);
                }
                return Err(e);
            },
        }
        j = j + 1;
    }
    proof {
        assert(hints@.take(j as int) =~= hints@);
    }
    Ok(signed)
}

/// Whether `after` is `before` with nothing but the partial signatures
/// changed.
pub open spec fn same_but_signatures(before: Input, after: Input) -> bool {
    &&& after.non_witness_utxo == before.non_witness_utxo
    &&& after.witness_utxo == before.witness_utxo
    &&& after.sighash_type == before.sighash_type
    &&& after.bip32_derivation == before.bip32_derivation
    &&& after.final_script_sig == before.final_script_sig
    &&& after.final_script_witness == before.final_script_witness
}

/// Signs `digest` for every key-derivation hint of `input` and records each
/// signature under the derived public key. Where a hint fails, nothing is
/// recorded: the input is left as it was.
pub fn sign_input(key: &KeyMaterial, entropy: &[u8; 32], input: &mut Input, digest: &[u8; 32]) -> (r: Result<
    (),
    Error,
>)
    ensures
        same_but_signatures(*old(input), *final(input)),
        old(input).wf() ==> final(input).wf(),
        match hints_outcome(
            key@,
            entropy@,
            old(input).bip32_derivation@,
            digest@,
            entries(old(input).partial_sigs@),
        ) {
            Some(sigs) => r is Ok && entries(final(input).partial_sigs@) == sigs,
            None => (r matches Err(Error::Bip32(_))) && *final(input) == *old(input),
        },
{
    let fresh = match sign_hints(key, entropy, &input.bip32_derivation, digest) {
        Ok(fresh) => fresh,
        Err(e) => {
            return Err(e);
        },
    };
    let ghost start = entries(input.partial_sigs@);
    let mut k: usize = 0;
    while k < fresh.len()
        invariant
            k <= fresh@.len(),
            start == entries(old(input).partial_sigs@),
            same_but_signatures(*old(input), *input),
            entries(input.partial_sigs@) == recorded_all(start, entries(fresh@).take(k as int)),
        decreases fresh@.len() - k,
    {
        proof {
            assert(entries(fresh@).take(k + 1).drop_last() =~= entries(fresh@).take(k as int));
            assert(entries(fresh@).take(k + 1).last() == fresh@[k as int]@);
        }
        let public_key = copy_bytes(&fresh[k].public_key);
        let signature = copy_bytes(&fresh[k].signature);
        record_signature(&mut input.partial_sigs, public_key, signature);
        k = k + 1;
    }
    proof {
        assert(entries(fresh@).take(k as int) =~= entries(fresh@));
        lemma_recorded_all_keeps_keys_once(start, entries(fresh@));
    }
    Ok(())
}

/// Whether every input that is not finalized records the transaction that
/// it spends from.
pub open spec fn utxos_carried(psbt: Psbt) -> bool {
    forall|i: int|
        0 <= i < psbt.inputs@.len() && !(#[trigger] psbt.inputs@[i]).finalized()
            ==> psbt.inputs@[i].non_witness_utxo is Some
}

/// Whether every input declares the "sign everything" sighash flag.
pub open spec fn sighashes_standard(psbt: Psbt) -> bool {
    forall|i: int| 0 <= i < psbt.inputs@.len() ==> (#[trigger] psbt.inputs@[i]).signs_everything()
}

/// Checks that every input that is not finalized records the transaction
/// that it spends from.
pub fn check_utxos(psbt: &Psbt) -> (ok: bool)
    ensures
        ok == utxos_carried(*psbt),
{
    let mut i: usize = 0;
    while i < psbt.inputs.len()
        invariant
            i <= psbt.inputs@.len(),
            forall|j: int|
                0 <= j < i && !(#[trigger] psbt.inputs@[j]).finalized()
                    ==> psbt.inputs@[j].non_witness_utxo is Some,
        decreases psbt.inputs@.len() - i,
    {
        if !psbt.inputs[i].is_finalized() && psbt.inputs[i].non_witness_utxo.is_none() {
            return false;
        }
        i = i + 1;
    }
    true
}

/// Checks that every input declares the "sign everything" sighash flag.
pub fn check_sighashes(psbt: &Psbt) -> (ok: bool)
    ensures
        ok == sighashes_standard(*psbt),
{
    let mut i: usize = 0;
    while i < psbt.inputs.len()
        invariant
            i <= psbt.inputs@.len(),
            forall|j: int| 0 <= j < i ==> (#[trigger] psbt.inputs@[j]).signs_everything(),
        decreases psbt.inputs@.len() - i,
    {
        if !psbt.inputs[i].has_sighash_all() {
            return false;
        }
        i = i + 1;
    }
    true
}

/// The digest that a signature for input `i` signs: the legacy signature
/// digest of that input, computed with the script of the output it spends.
pub open spec fn input_digest(psbt: Psbt, i: int) -> Seq<u8> {
    legacy_sighash_of(
        psbt.unsigned_tx@,
        i as usize,
        psbt.spent_output(i).unwrap().script_pubkey@,
        SIGHASH_ALL,
    )
}

/// What signing does to input `i`: its partial signatures afterwards, or
/// the kind of error that stops the request.
///
/// An input that records the transaction it spends from is signed for each
/// of its key-derivation hints. Without hints it stays as it is. With hints,
/// the digest needs the output that the input spends: where the transaction
/// has no input at `i`, or the recorded transaction has no output at the
/// position that the outpoint names, the input lacks what it spends from and
/// the error is `MissingNonWitnessUtxo`; where a cryptographic step fails,
/// it is `Bip32`.
///
/// An input that records only a witness-style output gives `NotSupported`;
/// one that records neither gives `UnsupportedUtxoType`.
pub open spec fn input_outcome(key: Seq<u8>, entropy: Seq<u8>, psbt: Psbt, i: int) -> Result<
    Seq<(Seq<u8>, Seq<u8>)>,
    ErrorKind,
> {
    let input = psbt.inputs@[i];
    if input.non_witness_utxo is Some {
        if input.bip32_derivation@.len() == 0 {
            Ok(entries(input.partial_sigs@))
        } else if psbt.spent_output(i) is Some {
            match hints_outcome(
                key,
                entropy,
                input.bip32_derivation@,
                input_digest(psbt, i),
                entries(input.partial_sigs@),
            ) {
                Some(sigs) => Ok(sigs),
                None => Err(ErrorKind::Bip32),
            }
        } else {
            Err(ErrorKind::MissingNonWitnessUtxo)
        }
    } else if input.witness_utxo is Some {
        Err(ErrorKind::NotSupported)
    } else {
        Err(ErrorKind::UnsupportedUtxoType)
    }
}

/// The error of the first of the inputs before position `n` that cannot be
/// signed, if there is one.
pub open spec fn first_rejection(key: Seq<u8>, entropy: Seq<u8>, psbt: Psbt, n: int) -> Option<ErrorKind>
    decreases n,
{
    if n <= 0 {
        None
    } else {
        match first_rejection(key, entropy, psbt, n - 1) {
            Some(kind) => Some(kind),
            None => match input_outcome(key, entropy, psbt, n - 1) {
                Ok(_) => None,
                Err(kind) => Some(kind),
            },
        }
    }
}

/// The verdict on a transaction: the kind of error for which it is not
/// signed, or `None` where it is. First every input that is not finalized
/// must record the transaction it spends from; then every input must declare
/// the "sign everything" flag; then the inputs are signed in turn.
pub open spec fn verdict(key: Seq<u8>, entropy: Seq<u8>, psbt: Psbt) -> Option<ErrorKind> {
    if !utxos_carried(psbt) {
        Some(ErrorKind::MissingNonWitnessUtxo)
    } else if !sighashes_standard(psbt) {
        Some(ErrorKind::NonStandardSighash)
    } else {
        first_rejection(key, entropy, psbt, psbt.inputs@.len() as int)
    }
}

/// Whether `signed` is `psbt` after signing: the same transaction, with the
/// same record of each input except for its partial signatures, which are
/// those that signing the input gives.
pub open spec fn signed_from(key: Seq<u8>, entropy: Seq<u8>, psbt: Psbt, signed: Psbt) -> bool {
    &&& signed.unsigned_tx == psbt.unsigned_tx
    &&& signed.inputs@.len() == psbt.inputs@.len()
    &&& forall|k: int|
        0 <= k < psbt.inputs@.len() ==> same_but_signatures(
            psbt.inputs@[k],
            #[trigger] signed.inputs@[k],
        ) && input_outcome(key, entropy, psbt, k) == Ok::<Seq<(Seq<u8>, Seq<u8>)>, ErrorKind>(
            entries(signed.inputs@[k].partial_sigs@),
        )
}

/// An error among the first `n` inputs is the error among all.
proof fn lemma_rejection_persists(key: Seq<u8>, entropy: Seq<u8>, psbt: Psbt, n: int, m: int)
    requires
        0 <= n <= m,
        first_rejection(key, entropy, psbt, n) is Some,
    ensures
        first_rejection(key, entropy, psbt, m) == first_rejection(key, entropy, psbt, n),
    decreases m - n,
{
    if n < m {
        lemma_rejection_persists(key, entropy, psbt, n, m - 1);
    }
}

/// Validates a transaction and signs its inputs: for every input that
/// records the transaction it spends from, and every key-derivation hint of
/// that input, the signature of the derived key over the input's digest is
/// recorded under the derived public key.
pub fn sign_transaction(key: &KeyMaterial, entropy: &[u8; 32], psbt: Psbt) -> (r: Result<Psbt, Error>)
    ensures
        match verdict(key@, entropy@, psbt) {
            Some(kind) => r matches Err(e) && e.kind() == kind,
            None => r matches Ok(signed) && signed_from(key@, entropy@, psbt, signed) && (psbt.wf()
                ==> signed.wf()),
        },
{
    if !check_utxos(&psbt) {
        return Err(Error::MissingNonWitnessUtxo);
    }
    if !check_sighashes(&psbt) {
        return Err(Error::NonStandardSighash);
    }
    let mut draft = psbt;
    let count = draft.inputs.len();
    let mut i: usize = 0;
    while i < count
        invariant
            i <= count,
            count == psbt.inputs@.len(),
            utxos_carried(psbt),
            sighashes_standard(psbt),
            draft.unsigned_tx == psbt.unsigned_tx,
            draft.inputs@.len() == count,
            forall|k: int| i <= k < count ==> draft.inputs@[k] == psbt.inputs@[k],
            forall|k: int|
                0 <= k < i ==> same_but_signatures(psbt.inputs@[k], #[trigger] draft.inputs@[k])
                    && input_outcome(key@, entropy@, psbt, k) == Ok::<
                    Seq<(Seq<u8>, Seq<u8>)>,
                    ErrorKind,
                >(entries(draft.inputs@[k].partial_sigs@)),
            first_rejection(key@, entropy@, psbt, i as int) is None,
            forall|k: int| 0 <= k < count && psbt.inputs@[k].wf() ==> (#[trigger] draft.inputs@[k]).wf(),
        decreases count - i,
    {
        assert(draft.spent_output(i as int) == psbt.spent_output(i as int));
        let ghost before = draft.inputs@;
        if draft.inputs[i].non_witness_utxo.is_some() {
            if draft.inputs[i].bip32_derivation.len() > 0 {
                let digest = match draft.previous_output(i) {
                    Some(spent) => Some(
                        legacy_sighash(&draft.unsigned_tx, i, &spent.script_pubkey, SIGHASH_ALL),
                    ),
                    None => None,
                };
                match digest {
                    Some(digest) => {
                        let input = &mut draft.inputs[i];
                        let signed = sign_input(key, entropy, input, &digest);
                        match signed {
                            Ok(()) => {},
                            Err(e) => {
                                proof {
                                    lemma_rejection_persists(
                                        key@,
                                        entropy@,
                                        psbt,
                                        i + 1,
                                        count as int,
                                    );
                                }
                                return Err(e);
                            },
                        }
                    },
                    None => {
                        proof {
                            lemma_rejection_persists(key@, entropy@, psbt, i + 1, count as int);
                        }
                        return Err(Error::MissingNonWitnessUtxo);
                    },
                }
            }
        } else {
            proof {
                lemma_rejection_persists(key@, entropy@, psbt, i + 1, count as int);
            }
            if draft.inputs[i].witness_utxo.is_some() {
                return Err(Error::NotSupported);
            } else {
                return Err(Error::UnsupportedUtxoType);
            }
        }
        assert forall|k: int| 0 <= k < i + 1 implies same_but_signatures(
            psbt.inputs@[k],
            #[trigger] draft.inputs@[k],
        ) && input_outcome(key@, entropy@, psbt, k) == Ok::<Seq<(Seq<u8>, Seq<u8>)>, ErrorKind>(
            entries(draft.inputs@[k].partial_sigs@),
        ) by {
            if k < i {
                assert(draft.inputs@[k] == before[k]);
            }
        }
        i = i + 1;
    }
    Ok(draft)
}

/// Signing keeps the invariant of the partial signatures: in a signed
/// transaction, an input whose public keys had one entry each still has one
/// entry for each key, and every entry that was there is at its position and
/// under its key.
pub proof fn lemma_signing_keeps_keys_once(
    key: Seq<u8>,
    entropy: Seq<u8>,
    psbt: Psbt,
    signed: Psbt,
    input: int,
)
    requires
        signed_from(key, entropy, psbt, signed),
        0 <= input < psbt.inputs@.len(),
    ensures
        psbt.inputs@[input].wf() ==> signed.inputs@[input].wf(),
        signed.inputs@[input].partial_sigs@.len() >= psbt.inputs@[input].partial_sigs@.len(),
        forall|j: int|
            0 <= j < psbt.inputs@[input].partial_sigs@.len() ==> (
            #[trigger] signed.inputs@[input].partial_sigs@[j]).public_key@
                == psbt.inputs@[input].partial_sigs@[j].public_key@,
{
    let before = entries(psbt.inputs@[input].partial_sigs@);
    let after = entries(signed.inputs@[input].partial_sigs@);
    assert(same_but_signatures(psbt.inputs@[input], signed.inputs@[input]));
    let hints = psbt.inputs@[input].bip32_derivation@;
    if hints.len() > 0 {
        let fresh = hint_signatures(key, entropy, hints, input_digest(psbt, input)).unwrap();
        lemma_recorded_all_keeps_keys_once(before, fresh);
    }
    assert forall|j: int| 0 <= j < psbt.inputs@[input].partial_sigs@.len() implies (
    #[trigger] signed.inputs@[input].partial_sigs@[j]).public_key@
        == psbt.inputs@[input].partial_sigs@[j].public_key@ by {
        assert(after[j].0 == before[j].0);
    }
}

/// A transaction whose inputs all have the invariant of the partial
/// signatures still has it after signing.
pub proof fn lemma_signing_keeps_wf(key: Seq<u8>, entropy: Seq<u8>, psbt: Psbt, signed: Psbt)
    requires
        signed_from(key, entropy, psbt, signed),
        psbt.wf(),
    ensures
        signed.wf(),
{
    assert forall|i: int| 0 <= i < signed.inputs@.len() implies (#[trigger] signed.inputs@[i]).wf() by {
        assert(psbt.inputs@[i].wf());
        lemma_signing_keeps_keys_once(key, entropy, psbt, signed, i);
    }
}

/// As a map, the partial signatures after recording several hold each of
/// them under its key, and every key that had a signature before.
proof fn lemma_recorded_all_holds_keys(sigs: Seq<(Seq<u8>, Seq<u8>)>, fresh: Seq<(Seq<u8>, Seq<u8>)>, at: int)
    ensures
        0 <= at < fresh.len() ==> signature_map(recorded_all(sigs, fresh)).dom().contains(fresh[at].0),
        signature_map(sigs).dom().subset_of(signature_map(recorded_all(sigs, fresh)).dom()),
    decreases fresh.len(),
{
    if fresh.len() > 0 {
        let shorter = fresh.drop_last();
        let before = recorded_all(sigs, shorter);
        lemma_recorded_all_holds_keys(sigs, shorter, at);
        lemma_recorded_as_map(before, fresh.last().0, fresh.last().1);
        let after = signature_map(recorded_all(sigs, fresh));
        assert forall|public: Seq<u8>| signature_map(sigs).dom().contains(public) implies after.dom().contains(
            public,
        ) by {
            assert(signature_map(before).dom().contains(public));
        }
        if 0 <= at < shorter.len() {
            assert(shorter[at] == fresh[at]);
        }
    }
}

/// The signatures of the hints are those of each hint, in order.
proof fn lemma_hint_signatures_each(
    key: Seq<u8>,
    entropy: Seq<u8>,
    hints: Seq<KeySource>,
    digest: Seq<u8>,
    at: int,
)
    requires
        0 <= at < hints.len(),
        hint_signatures(key, entropy, hints, digest) is Some,
    ensures
        hint_signatures(key, entropy, hints, digest).unwrap().len() == hints.len(),
        hint_signature(key, entropy, hints[at].path@, digest) == Some(
            hint_signatures(key, entropy, hints, digest).unwrap()[at],
        ),
    decreases hints.len(),
{
    let shorter = hints.drop_last();
    let before = hint_signatures(key, entropy, shorter, digest);
    assert(before is Some);
    if shorter.len() > 0 {
        lemma_hint_signatures_each(key, entropy, shorter, digest, 0);
    } else {
        assert(before == Some(Seq::<(Seq<u8>, Seq<u8>)>::empty()));
    }
    assert(before.unwrap().len() == shorter.len());
    if at < shorter.len() {
        lemma_hint_signatures_each(key, entropy, shorter, digest, at);
        assert(shorter[at] == hints[at]);
    } else {
        assert(hints[at] == hints.last());
    }
}

/// A signed transaction holds a signature for every hinted key: for each
/// input and each key-derivation hint of that input, the public key that the
/// hint derives has a signature among the input's partial signatures.
pub proof fn lemma_signed_inputs_hold_hinted_keys(
    key: Seq<u8>,
    entropy: Seq<u8>,
    psbt: Psbt,
    signed: Psbt,
    input: int,
    hint: int,
)
    requires
        signed_from(key, entropy, psbt, signed),
        0 <= input < psbt.inputs@.len(),
        0 <= hint < psbt.inputs@[input].bip32_derivation@.len(),
    ensures
        hint_signature(
            key,
            entropy,
            psbt.inputs@[input].bip32_derivation@[hint].path@,
            input_digest(psbt, input),
        ) matches Some((public, _)) && signature_map(
            entries(signed.inputs@[input].partial_sigs@),
        ).dom().contains(public),
{
    assert(same_but_signatures(psbt.inputs@[input], signed.inputs@[input]));
    let hints = psbt.inputs@[input].bip32_derivation@;
    let digest = input_digest(psbt, input);
    let fresh = hint_signatures(key, entropy, hints, digest).unwrap();
    lemma_hint_signatures_each(key, entropy, hints, digest, hint);
    lemma_recorded_all_holds_keys(entries(psbt.inputs@[input].partial_sigs@), fresh, hint);
}

/// The signing engine never reports a denied authorization: that is not
/// its decision.
pub proof fn lemma_verdict_is_no_denial(key: Seq<u8>, entropy: Seq<u8>, psbt: Psbt)
    ensures
        verdict(key, entropy, psbt) != Some(ErrorKind::AuthorizationDenied),
{
    lemma_rejection_is_no_denial(key, entropy, psbt, psbt.inputs@.len() as int);
}

proof fn lemma_rejection_is_no_denial(key: Seq<u8>, entropy: Seq<u8>, psbt: Psbt, n: int)
    ensures
        first_rejection(key, entropy, psbt, n) != Some(ErrorKind::AuthorizationDenied),
    decreases n,
{
    if n > 0 {
        lemma_rejection_is_no_denial(key, entropy, psbt, n - 1);
    }
}

/// Authorization is a disjunction over the stored policies: a store with
/// one more policy authorizes a request exactly when the store without it
/// does or the added policy approves.
pub proof fn lemma_authorization_is_disjunction(
    policies: Seq<Policy>,
    evaluations: Seq<Evaluation>,
    added: Policy,
    evaluation: Evaluation,
    requested: SigType,
)
    requires
        policies.len() == evaluations.len(),
    ensures
        authorized(policies.push(added), requested, evaluations.push(evaluation)) == (authorized(
            policies,
            requested,
            evaluations,
        ) || policy_approves(added.kind(), requested, evaluation)),
{
    let more = policies.push(added);
    let given = evaluations.push(evaluation);
    let last = policies.len() as int;
    if authorized(policies, requested, evaluations) {
        let i = choose|i: int| approves_at(policies, requested, evaluations, i);
        assert(approves_at(more, requested, given, i));
    }
    if policy_approves(added.kind(), requested, evaluation) {
        assert(approves_at(more, requested, given, last));
    }
    if authorized(more, requested, given) {
        let i = choose|i: int| approves_at(more, requested, given, i);
        if i < last {
            assert(approves_at(policies, requested, evaluations, i));
        }
    }
}

/// No request is authorized where every stored policy rejects it; an empty
/// store in particular authorizes nothing.
pub proof fn lemma_all_reject_denies(policies: Seq<Policy>, evaluations: Seq<Evaluation>, requested: SigType)
    requires
        forall|i: int|
            0 <= i < policies.len() && i < evaluations.len() ==> !policy_approves(
                (#[trigger] policies[i]).kind(),
                requested,
                evaluations[i],
            ),
    ensures
        !authorized(policies, requested, evaluations),
{
    assert forall|i: int| !approves_at(policies, requested, evaluations, i) by {
        if 0 <= i < policies.len() && i < evaluations.len() {
            assert(!policy_approves(policies[i].kind(), requested, evaluations[i]));
        }
    }
}

/// Validation is all or nothing: a transaction with an input that is not
/// finalized and does not record the transaction it spends from is rejected
/// for that reason, whatever its other inputs hold.
pub proof fn lemma_missing_utxo_rejects(key: Seq<u8>, entropy: Seq<u8>, psbt: Psbt, i: int)
    requires
        0 <= i < psbt.inputs@.len(),
        !psbt.inputs@[i].finalized(),
        psbt.inputs@[i].non_witness_utxo is None,
    ensures
        verdict(key, entropy, psbt) == Some(ErrorKind::MissingNonWitnessUtxo),
{
}

/// A transaction in which every input that is not finalized records the
/// transaction it spends from, and some input declares another sighash flag
/// than "sign everything", is rejected for that reason before anything is
/// signed.
pub proof fn lemma_other_sighash_rejects(key: Seq<u8>, entropy: Seq<u8>, psbt: Psbt, i: int)
    requires
        utxos_carried(psbt),
        0 <= i < psbt.inputs@.len(),
        !psbt.inputs@[i].signs_everything(),
    ensures
        verdict(key, entropy, psbt) == Some(ErrorKind::NonStandardSighash),
{
}

} // verus!
