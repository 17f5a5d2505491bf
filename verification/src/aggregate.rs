//! Aggregation: many public keys combined into one, many signatures combined
//! into one, and the two ways of checking an aggregate signature.
//!
//! When all signers signed the same message, the aggregate signature is
//! checked once against the aggregate public key. When each signed a message
//! of its own, every signature is first checked alone, and the aggregate is
//! then checked against all pairs of key and message.

use vstd::prelude::*;
use crate::bls::{
    bls_public_key, bls_verify_code, blst_verify, cipher_suite, generated, new_bls_key, verifies,
    verify_bls_sig, BlsPublicKey, BlsSecretKey, BlsSignature, BLST_SUCCESS, CIPHER_SUITE,
};
use crate::error::KeyError;

verus! {

/// The compressed sum of the signatures that `sigs` serialize, if all of them
/// deserialize and, where `groupcheck` is set, lie in the group; nothing for
/// an empty list.
pub uninterp spec fn bls_aggregate_signatures(sigs: Seq<Seq<u8>>, groupcheck: bool) -> Option<
    Seq<u8>,
>;

/// The compressed sum of the public keys that `pks` serialize, if all of them
/// deserialize and, where `validate` is set, are valid keys; nothing for an
/// empty list.
pub uninterp spec fn bls_aggregate_public_keys(pks: Seq<Seq<u8>>, validate: bool) -> Option<
    Seq<u8>,
>;

/// The status code of checking the serialized aggregate signature `sig`
/// against the pairs of `pks` and `msgs`.
pub uninterp spec fn bls_aggregate_verify_code(
    sig: Seq<u8>,
    sig_groupcheck: bool,
    msgs: Seq<Seq<u8>>,
    dst: Seq<u8>,
    pks: Seq<Seq<u8>>,
    pks_validate: bool,
) -> u32;

/// The sum of several BLS public keys, in compressed form.
#[derive(Debug, Clone, Copy)]
pub struct AggregatePublicKey {
    pub(crate) bytes: [u8; 48],
}

impl View for AggregatePublicKey {
    type V = Seq<u8>;

    closed spec fn view(&self) -> Seq<u8> {
        self.bytes@
    }
}

impl AggregatePublicKey {
    /// The aggregate of the one public key `pk`.
    pub fn from_public_key(pk: &BlsPublicKey) -> (agg_pk: AggregatePublicKey)
        ensures
            agg_pk@ == pk@,
    {
        AggregatePublicKey { bytes: pk.to_bytes() }
    }

    /// The aggregate as a public key to verify against.
    pub fn to_public_key(&self) -> (pk: BlsPublicKey)
        ensures
            pk@ == self@,
    {
        BlsPublicKey::from_compressed(self.bytes)
    }
}

/// The serialized forms of a list of signatures.
pub open spec fn signature_views(sigs: Seq<&BlsSignature>) -> Seq<Seq<u8>> {
    Seq::new(sigs.len(), |i: int| sigs[i]@)
}

/// The serialized forms of a list of public keys.
pub open spec fn public_key_views(pks: Seq<&BlsPublicKey>) -> Seq<Seq<u8>> {
    Seq::new(pks.len(), |i: int| pks[i]@)
}

/// The contents of a list of messages.
pub open spec fn message_views(msgs: Seq<&[u8]>) -> Seq<Seq<u8>> {
    Seq::new(msgs.len(), |i: int| msgs[i]@)
}

/// The public keys of a list of secret keys.
pub open spec fn public_keys_of(sks: Seq<BlsSecretKey>) -> Seq<Seq<u8>> {
    Seq::new(sks.len(), |i: int| bls_public_key(sks[i]@))
}

/// Calls `AggregateSignature::aggregate` on the signatures that `sigs`
/// serialize and compresses the sum. The call fails on an empty list.
#[verifier::external_body]
fn blst_aggregate_signatures(sigs: &Vec<&BlsSignature>, groupcheck: bool) -> (res: Result<
    [u8; 96],
    blst::BLST_ERROR,
>)
    ensures
        match res {
            Ok(agg) => bls_aggregate_signatures(signature_views(sigs@), groupcheck) == Some(agg@),
            Err(_) => bls_aggregate_signatures(signature_views(sigs@), groupcheck) is None,
        },
        sigs@.len() == 0 ==> res is Err,
{
    let mut points = Vec::with_capacity(sigs.len());
    for sig in sigs.iter() {
        points.push(blst::min_pk::Signature::from_bytes(&sig.bytes)?);
    }
    let refs: Vec<&blst::min_pk::Signature> = points.iter().collect();
    Ok(blst::min_pk::AggregateSignature::aggregate(&refs, groupcheck)?.to_signature().compress())
}

/// Calls `AggregatePublicKey::aggregate` on the keys that `pks` serialize and
/// compresses the sum. The call fails on an empty list.
#[verifier::external_body]
fn blst_aggregate_public_keys(pks: &Vec<&BlsPublicKey>, validate: bool) -> (res: Result<
    [u8; 48],
    blst::BLST_ERROR,
>)
    ensures
        match res {
            Ok(agg) => bls_aggregate_public_keys(public_key_views(pks@), validate) == Some(agg@),
            Err(_) => bls_aggregate_public_keys(public_key_views(pks@), validate) is None,
        },
        pks@.len() == 0 ==> res is Err,
{
    let mut points = Vec::with_capacity(pks.len());
    for pk in pks.iter() {
        points.push(blst::min_pk::PublicKey::from_bytes(&pk.bytes)?);
    }
    let refs: Vec<&blst::min_pk::PublicKey> = points.iter().collect();
    Ok(blst::min_pk::AggregatePublicKey::aggregate(&refs, validate)?.to_public_key().compress())
}

/// Calls `Signature::aggregate_verify` on the signature and public keys that
/// `sig` and `pks` serialize, and hands back its status code; where one of
/// them does not deserialize, the status code of that failure.
#[verifier::external_body]
fn blst_aggregate_verify(
    sig: &[u8],
    sig_groupcheck: bool,
    msgs: &Vec<&[u8]>,
    dst: &[u8],
    pks: &Vec<&BlsPublicKey>,
    pks_validate: bool,
) -> (code: u32)
    ensures
        code == bls_aggregate_verify_code(
            sig@,
            sig_groupcheck,
            message_views(msgs@),
            dst@,
            public_key_views(pks@),
            pks_validate,
        ),
{
    let sig = match blst::min_pk::Signature::from_bytes(sig) {
        Ok(sig) => sig,
        Err(e) => return e as u32,
    };
    let mut points = Vec::with_capacity(pks.len());
    for pk in pks.iter() {
        match blst::min_pk::PublicKey::from_bytes(&pk.bytes) {
            Ok(point) => points.push(point),
            Err(e) => return e as u32,
        }
    }
    let refs: Vec<&blst::min_pk::PublicKey> = points.iter().collect();
    sig.aggregate_verify(sig_groupcheck, msgs, dst, &refs, pks_validate) as u32
}

/// What `aggregate_uniform_bls_sigs` returns: the signatures are summed with
/// the group check on, and the sum is checked as one signature over `msg`
/// against `agg_pk`, with no further check of the two points.
pub open spec fn uniform_outcome(agg_pk: Seq<u8>, sigs: Seq<Seq<u8>>, msg: Seq<u8>) -> Result<
    (),
    KeyError,
> {
    if sigs.len() == 0 {
        Err(KeyError::EmptyInput)
    } else {
        match bls_aggregate_signatures(sigs, true) {
            None => Err(KeyError::AggregationFailure),
            Some(agg_sig) => if bls_verify_code(
                agg_sig,
                false,
                msg,
                cipher_suite(),
                Seq::empty(),
                agg_pk,
                false,
            ) == BLST_SUCCESS {
                Ok(())
            } else {
                Err(KeyError::SignatureInvalid { index: 0 })
            },
        }
    }
}

/// Checks an aggregate of signatures that were all made over the one message
/// `msg`, against the aggregate `agg_pk` of the signers' public keys.
///
/// That the signers did sign the same message is the caller's business: if
/// they did not, the check fails as it does for any wrong aggregate.
pub fn aggregate_uniform_bls_sigs(
    agg_pk: AggregatePublicKey,
    sigs: Vec<&BlsSignature>,
    msg: &[u8],
) -> (res: Result<(), KeyError>)
    ensures
        res == uniform_outcome(agg_pk@, signature_views(sigs@), msg@),
{
    if sigs.len() == 0 {
        return Err(KeyError::EmptyInput);
    }
    let agg_sig = match blst_aggregate_signatures(&sigs, true) {
        Ok(agg_sig) => agg_sig,
        Err(_) => {
            return Err(KeyError::AggregationFailure);
        },
    };
    let aug: [u8; 0] = [];
    let pk = agg_pk.to_public_key().to_bytes();
    let code = blst_verify(
        agg_sig.as_slice(),
        false,
        msg,
        CIPHER_SUITE.as_slice(),
        aug.as_slice(),
        pk.as_slice(),
        false,
    );
    assert(aug@ =~= Seq::<u8>::empty());
    if code == BLST_SUCCESS {
        Ok(())
    } else {
        Err(KeyError::SignatureInvalid { index: 0 })
    }
}

/// The least position from `start` on at which the signature does not verify
/// against the key and the message at the same position; the length of
/// `sigs` if there is none.
pub open spec fn first_invalid(
    sigs: Seq<Seq<u8>>,
    pks: Seq<Seq<u8>>,
    msgs: Seq<Seq<u8>>,
    start: int,
) -> int
    decreases sigs.len() - start,
{
    if start < 0 || start >= sigs.len() {
        sigs.len() as int
    } else if !verifies(sigs[start], pks[start], msgs[start]) {
        start
    } else {
        first_invalid(sigs, pks, msgs, start + 1)
    }
}

/// `first_invalid` from the first position on is the least position of a
/// signature that does not verify, and the length where all verify.
pub proof fn lemma_first_invalid(
    sigs: Seq<Seq<u8>>,
    pks: Seq<Seq<u8>>,
    msgs: Seq<Seq<u8>>,
    start: int,
)
    requires
        0 <= start <= sigs.len(),
    ensures
        start <= first_invalid(sigs, pks, msgs, start) <= sigs.len(),
        forall|j: int|
            start <= j < first_invalid(sigs, pks, msgs, start) ==> verifies(
                #[trigger] sigs[j],
                pks[j],
                msgs[j],
            ),
        first_invalid(sigs, pks, msgs, start) < sigs.len() ==> !verifies(
            sigs[first_invalid(sigs, pks, msgs, start)],
            pks[first_invalid(sigs, pks, msgs, start)],
            msgs[first_invalid(sigs, pks, msgs, start)],
        ),
    decreases sigs.len() - start,
{
    if start < sigs.len() && verifies(sigs[start], pks[start], msgs[start]) {
        lemma_first_invalid(sigs, pks, msgs, start + 1);
    }
}

/// If the signature at `index` does not verify alone while all before it
/// do, checking the set fails at the stage of the single signatures, and the
/// failure is reported against `index`, whatever comes after it.
pub proof fn lemma_invalid_signature_is_reported(
    sigs: Seq<Seq<u8>>,
    pks: Seq<Seq<u8>>,
    msgs: Seq<Seq<u8>>,
    index: int,
)
    requires
        sigs.len() == pks.len() == msgs.len(),
        sigs.len() <= usize::MAX,
        0 <= index < sigs.len(),
        !verifies(sigs[index], pks[index], msgs[index]),
        forall|j: int| 0 <= j < index ==> verifies(#[trigger] sigs[j], pks[j], msgs[j]),
    ensures
        non_uniform_outcome(sigs, pks, msgs) == Err::<(), KeyError>(
            KeyError::SignatureInvalid { index: index as usize },
        ),
{
    lemma_first_invalid(sigs, pks, msgs, 0);
}

/// Whether every signature of the set verifies alone against the key and
/// the message at its position.
pub open spec fn all_verify(sigs: Seq<Seq<u8>>, pks: Seq<Seq<u8>>, msgs: Seq<Seq<u8>>) -> bool {
    forall|j: int| 0 <= j < sigs.len() ==> verifies(#[trigger] sigs[j], pks[j], msgs[j])
}

/// In a set in which every signature verifies alone, replacing the
/// signature at `index` by one that does not verify there makes the check
/// fail at the stage of the single signatures, reported against `index`.
pub proof fn lemma_replaced_signature_is_reported(
    sigs: Seq<Seq<u8>>,
    pks: Seq<Seq<u8>>,
    msgs: Seq<Seq<u8>>,
    index: int,
    bad: Seq<u8>,
)
    requires
        sigs.len() == pks.len() == msgs.len(),
        sigs.len() <= usize::MAX,
        0 <= index < sigs.len(),
        all_verify(sigs, pks, msgs),
        !verifies(bad, pks[index], msgs[index]),
    ensures
        non_uniform_outcome(sigs.update(index, bad), pks, msgs) == Err::<(), KeyError>(
            KeyError::SignatureInvalid { index: index as usize },
        ),
{
    let replaced = sigs.update(index, bad);
    assert forall|j: int| 0 <= j < index implies verifies(#[trigger] replaced[j], pks[j], msgs[j]) by {
        assert(verifies(sigs[j], pks[j], msgs[j]));
    }
    lemma_invalid_signature_is_reported(replaced, pks, msgs, index);
}

/// In a set in which every signature verifies alone, putting another
/// message at `index`, over which the signature there does not verify, makes
/// the check fail at the stage of the single signatures, reported against
/// `index`.
pub proof fn lemma_substituted_message_is_reported(
    sigs: Seq<Seq<u8>>,
    pks: Seq<Seq<u8>>,
    msgs: Seq<Seq<u8>>,
    index: int,
    other: Seq<u8>,
)
    requires
        sigs.len() == pks.len() == msgs.len(),
        sigs.len() <= usize::MAX,
        0 <= index < sigs.len(),
        all_verify(sigs, pks, msgs),
        !verifies(sigs[index], pks[index], other),
    ensures
        non_uniform_outcome(sigs, pks, msgs.update(index, other)) == Err::<(), KeyError>(
            KeyError::SignatureInvalid { index: index as usize },
        ),
{
    let substituted = msgs.update(index, other);
    assert forall|j: int| 0 <= j < index implies verifies(
        #[trigger] sigs[j],
        pks[j],
        substituted[j],
    ) by {
        assert(verifies(sigs[j], pks[j], msgs[j]));
    }
    lemma_invalid_signature_is_reported(sigs, pks, substituted, index);
}

/// Checking a set succeeds only if every signature verifies alone, the
/// signatures can be summed, and the sum verifies against all pairs of key
/// and message.
pub proof fn lemma_non_uniform_success(sigs: Seq<Seq<u8>>, pks: Seq<Seq<u8>>, msgs: Seq<Seq<u8>>)
    ensures
        non_uniform_outcome(sigs, pks, msgs) is Ok <==> {
            &&& 0 < sigs.len() == pks.len() == msgs.len()
            &&& forall|j: int| 0 <= j < sigs.len() ==> verifies(#[trigger] sigs[j], pks[j], msgs[j])
            &&& bls_aggregate_signatures(sigs, true) matches Some(agg_sig)
            &&& bls_aggregate_verify_code(agg_sig, false, msgs, cipher_suite(), pks, false)
                == BLST_SUCCESS
        },
{
    lemma_first_invalid(sigs, pks, msgs, 0);
}

/// What `aggregate_non_uniform_bls_sigs` returns: the lengths are checked
/// before any signature is; the first signature that does not verify alone
/// is reported by its position; only when all verify are they summed and the
/// sum checked against all pairs of key and message.
pub open spec fn non_uniform_outcome(
    sigs: Seq<Seq<u8>>,
    pks: Seq<Seq<u8>>,
    msgs: Seq<Seq<u8>>,
) -> Result<(), KeyError> {
    if sigs.len() == 0 {
        Err(KeyError::EmptyInput)
    } else if pks.len() != sigs.len() || msgs.len() != sigs.len() {
        Err(KeyError::LengthMismatch)
    } else if first_invalid(sigs, pks, msgs, 0) < sigs.len() {
        Err(KeyError::SignatureInvalid { index: first_invalid(sigs, pks, msgs, 0) as usize })
    } else {
        match bls_aggregate_signatures(sigs, true) {
            None => Err(KeyError::AggregationFailure),
            Some(agg_sig) => if bls_aggregate_verify_code(
                agg_sig,
                false,
                msgs,
                cipher_suite(),
                pks,
                false,
            ) == BLST_SUCCESS {
                Ok(())
            } else {
                Err(KeyError::AggregateVerificationFailure)
            },
        }
    }
}

/// Checks signatures that were each made over a message of its own:
/// `sigs[i]` by the holder of `pks[i]` over `msgs[i]`.
pub fn aggregate_non_uniform_bls_sigs(
    sigs: Vec<&BlsSignature>,
    pks: Vec<&BlsPublicKey>,
    msgs: Vec<&[u8]>,
) -> (res: Result<(), KeyError>)
    ensures
        res == non_uniform_outcome(
            signature_views(sigs@),
            public_key_views(pks@),
            message_views(msgs@),
        ),
{
    let n = sigs.len();
    if n == 0 {
        return Err(KeyError::EmptyInput);
    }
    if pks.len() != n || msgs.len() != n {
        return Err(KeyError::LengthMismatch);
    }
    let ghost s = signature_views(sigs@);
    let ghost p = public_key_views(pks@);
    let ghost m = message_views(msgs@);
    let mut i: usize = 0;
    while i < n
        invariant
            i <= n,
            n == sigs@.len(),
            n == pks@.len(),
            n == msgs@.len(),
            s == signature_views(sigs@),
            p == public_key_views(pks@),
            m == message_views(msgs@),
            first_invalid(s, p, m, 0) == first_invalid(s, p, m, i as int),
        decreases n - i,
    {
        match verify_bls_sig(*sigs[i], *pks[i], msgs[i]) {
            Ok(()) => {},
            Err(_) => {
                return Err(KeyError::SignatureInvalid { index: i });
            },
        }
        i += 1;
    }
    let agg_sig = match blst_aggregate_signatures(&sigs, true) {
        Ok(agg_sig) => agg_sig,
        Err(_) => {
            return Err(KeyError::AggregationFailure);
        },
    };
    let code = blst_aggregate_verify(
        agg_sig.as_slice(),
        false,
        &msgs,
        CIPHER_SUITE.as_slice(),
        &pks,
        false,
    );
    if code == BLST_SUCCESS {
        Ok(())
    } else {
        Err(KeyError::AggregateVerificationFailure)
    }
}

/// What `aggregate_public_keys` returns: the validated sum of the public
/// keys of the given secret keys.
pub open spec fn aggregate_outcome(sks: Seq<BlsSecretKey>) -> Result<Seq<u8>, KeyError> {
    match bls_aggregate_public_keys(public_keys_of(sks), true) {
        Some(agg_pk) => Ok(agg_pk),
        None => Err(KeyError::AggregationFailure),
    }
}

/// Derives the public key of each secret key and aggregates them, validating
/// each public key on the way.
pub fn aggregate_public_keys(sks: &Vec<BlsSecretKey>) -> (res: Result<AggregatePublicKey, KeyError>)
    ensures
        match res {
            Ok(agg_pk) => aggregate_outcome(sks@) == Ok::<Seq<u8>, KeyError>(agg_pk@),
            Err(e) => aggregate_outcome(sks@) == Err::<Seq<u8>, KeyError>(e),
        },
        sks@.len() == 0 ==> res is Err,
{
    let mut pks: Vec<BlsPublicKey> = Vec::new();
    let mut i: usize = 0;
    while i < sks.len()
        invariant
            i <= sks@.len(),
            pks@.len() == i,
            forall|j: int| 0 <= j < i ==> (#[trigger] pks@[j])@ == bls_public_key(sks@[j]@),
        decreases sks@.len() - i,
    {
        pks.push(sks[i].sk_to_pk());
        i += 1;
    }
    let mut pks_refs: Vec<&BlsPublicKey> = Vec::new();
    let mut k: usize = 0;
    while k < pks.len()
        invariant
            k <= pks@.len(),
            pks_refs@.len() == k,
            forall|j: int| 0 <= j < k ==> *(#[trigger] pks_refs@[j]) == pks@[j],
        decreases pks@.len() - k,
    {
        pks_refs.push(&pks[k]);
        k += 1;
    }
    assert(public_key_views(pks_refs@) =~= public_keys_of(sks@));
    match blst_aggregate_public_keys(&pks_refs, true) {
        Ok(bytes) => Ok(AggregatePublicKey { bytes }),
        Err(_) => Err(KeyError::AggregationFailure),
    }
}

/// Whether `sks` are `n` secret keys, each made by key generation of 32
/// bytes of key material.
pub open spec fn generated_set(sks: Seq<BlsSecretKey>, n: nat) -> bool {
    &&& sks.len() == n
    &&& forall|i: int| 0 <= i < n ==> generated(#[trigger] sks[i]@)
}

/// Generates `n` independent BLS secret keys and the aggregate of their
/// public keys.
///
/// This is no threshold scheme: the keys share nothing, and a signature under
/// the aggregate takes all `n` of them. Generating the keys does not fail;
/// the whole fails where the public keys of the keys that were generated do
/// not aggregate, as none do.
pub fn dist_bls_key_gen(n: usize) -> (res: Result<(AggregatePublicKey, Vec<BlsSecretKey>), KeyError>)
    ensures
        match res {
            Ok((agg_pk, sks)) => generated_set(sks@, n as nat) && aggregate_outcome(sks@) == Ok::<
                Seq<u8>,
                KeyError,
            >(agg_pk@),
            Err(e) => e == KeyError::AggregationFailure && exists|sks: Seq<BlsSecretKey>|
                #[trigger] generated_set(sks, n as nat) && aggregate_outcome(sks) is Err,
        },
        n == 0 ==> res is Err,
{
    let mut sks: Vec<BlsSecretKey> = Vec::new();
    let mut i: usize = 0;
    while i < n
        invariant
            i <= n,
            sks@.len() == i,
            forall|j: int| 0 <= j < i ==> generated(#[trigger] sks@[j]@),
        decreases n - i,
    {
        match new_bls_key() {
            Ok(sk) => sks.push(sk),
            Err(_) => {
                return Err(KeyError::KeyGenFailure { index: i });
            },
        }
        i += 1;
    }
    assert(generated_set(sks@, n as nat));
    match aggregate_public_keys(&sks) {
        Ok(agg_pk) => Ok((agg_pk, sks)),
        Err(e) => Err(e),
    }
}

} // verus!
