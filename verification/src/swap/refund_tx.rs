use secp256k1::musig::{AggregatedNonce, KeyAggCache, PublicNonce, Session, SessionSecretRand};
use secp256k1::{Keypair, PublicKey, Scalar};
use vstd::prelude::*;

use super::claim_tx::prevout_views;
use super::privkey_provider::is_secret_key;
use super::swap_service::{Swap, SwapError};
use super::taproot::{
    aggregate_key, spec_aggregate_key, spec_public_key_of, spec_taproot_spend_info, taproot_spend_info,
};
use crate::chain::types::{OutPoint, TxOut, Txid};

verus! {

/// Names the taproot key-path signature hash (sighash type default) of one
/// input of an encoded transaction with the values and scripts of all its
/// prevouts; `None` where the transaction does not decode or the hash
/// cannot be computed.
pub uninterp spec fn spec_key_spend_sighash(
    tx: Seq<u8>,
    prevouts: Seq<(u64, Seq<u8>)>,
    input: int,
) -> Option<[u8; 32]>;

/// Names the outpoints that the inputs of the transaction at the start of
/// the bytes spend, in input order; `None` where no transaction decodes.
pub uninterp spec fn spec_tx_previous_outputs(tx: Seq<u8>) -> Option<Seq<OutPoint>>;

/// Names whether 66 bytes are a MuSig2 public nonce.
pub uninterp spec fn spec_is_pub_nonce(bytes: Seq<u8>) -> bool;

/// Names the server's MuSig2 partial signature and public nonce for a
/// digest: key aggregation of the claim key and the refund key, in that
/// order, x-only tweaked with `tweak`; nonces from `session_rand` and
/// `extra_rand`, aggregated with the user's nonce; `None` where a key, the
/// tweak or the user's nonce is refused.
pub uninterp spec fn spec_musig_partial_sign(
    claim_privkey: [u8; 32],
    claim_pubkey: [u8; 33],
    refund_pubkey: [u8; 33],
    tweak: [u8; 32],
    digest: [u8; 32],
    session_rand: [u8; 32],
    extra_rand: [u8; 32],
    their_nonce: [u8; 66],
) -> Option<([u8; 32], [u8; 66])>;

/// The bitcoin crate's `SighashCache::taproot_key_spend_signature_hash` of
/// one input of the transaction that the bytes begin with, for the default
/// sighash type. The hash is named, not stated.
#[verifier::external_body]
pub(crate) fn key_spend_sighash(tx: &Vec<u8>, prevouts: &Vec<TxOut>, input: usize) -> (r: Option<
    [u8; 32],
>)
    ensures
        r == spec_key_spend_sighash(tx@, prevout_views(prevouts@), input as int),
{
    let tx: bitcoin::Transaction = bitcoin::consensus::Decodable::consensus_decode(&mut tx.as_slice()).ok()?;
    let prevouts: Vec<bitcoin::TxOut> = prevouts.iter().map(|o| bitcoin::TxOut {
        value: bitcoin::Amount::from_sat(o.value_sat),
        script_pubkey: bitcoin::ScriptBuf::from_bytes(o.script_pubkey.clone()),
    }).collect();
    let mut cache = bitcoin::sighash::SighashCache::new(&tx);
    let all = bitcoin::sighash::Prevouts::All(&prevouts);
    let hash = cache.taproot_key_spend_signature_hash(input, &all, bitcoin::TapSighashType::Default);
    Some(bitcoin::hashes::Hash::to_byte_array(hash.ok()?))
}

/// Decodes a transaction from the start of the bytes with the bitcoin
/// crate's `Decodable::consensus_decode` and lists the outpoints its inputs
/// spend. The list is named, not stated.
#[verifier::external_body]
pub(crate) fn tx_previous_outputs(tx: &Vec<u8>) -> (r: Option<Vec<OutPoint>>)
    ensures
        match r {
            Some(outpoints) => spec_tx_previous_outputs(tx@) == Some(outpoints@),
            None => spec_tx_previous_outputs(tx@) is None,
        },
{
    let tx: bitcoin::Transaction = bitcoin::consensus::Decodable::consensus_decode(&mut tx.as_slice()).ok()?;
    Some(tx.input.iter().map(|i| OutPoint {
        txid: Txid { bytes: bitcoin::hashes::Hash::to_byte_array(i.previous_output.txid) },
        vout: i.previous_output.vout,
    }).collect())
}

/// Reads a MuSig2 public nonce with `secp256k1::musig::PublicNonce::from_byte_array`:
/// the same bytes back where they are 66 bytes that parse.
#[verifier::external_body]
pub(crate) fn pub_nonce_from_bytes(bytes: &Vec<u8>) -> (r: Option<[u8; 66]>)
    ensures
        r is Some <==> (bytes@.len() == 66 && spec_is_pub_nonce(bytes@)),
        r matches Some(n) ==> n@ == bytes@,
{
    let array: [u8; 66] = bytes.as_slice().try_into().ok()?;
    PublicNonce::from_byte_array(&array).ok()?;
    Some(array)
}

/// One MuSig2 signing round of secp256k1's `musig` module for the server's
/// key: `KeyAggCache::new` over the claim key and the refund key with
/// `pubkey_xonly_tweak_add` of the tweak, `nonce_gen_with_uniform_randomness`
/// with `SessionSecretRand::assume_uniformly_random` of the session
/// randomness, `AggregatedNonce::new` of the server's and the user's nonce,
/// `Session::new` and `partial_sign`. The partial signature and the
/// server's nonce are named, not stated. The session randomness must not be
/// all zeros, which that constructor refuses with a panic, and the claim
/// key must be the public key of a valid claim secret key, else
/// `partial_sign` panics; the crate also panics on events of negligible
/// probability (an aggregate nonce at infinity), which no clause excludes.
#[verifier::external_body]
pub(crate) fn musig_partial_sign(
    claim_privkey: &[u8; 32],
    claim_pubkey: &[u8; 33],
    refund_pubkey: &[u8; 33],
    tweak: &[u8; 32],
    digest: &[u8; 32],
    session_rand: &[u8; 32],
    extra_rand: &[u8; 32],
    their_nonce: &[u8; 66],
) -> (r: Option<([u8; 32], [u8; 66])>)
    requires
        session_rand@ != Seq::new(32, |i: int| 0u8),
        is_secret_key(claim_privkey@) ==> *claim_pubkey == spec_public_key_of(*claim_privkey),
    ensures
        r == spec_musig_partial_sign(
            *claim_privkey,
            *claim_pubkey,
            *refund_pubkey,
            *tweak,
            *digest,
            *session_rand,
            *extra_rand,
            *their_nonce,
        ),
{
    let keypair = Keypair::from_secret_bytes(*claim_privkey).ok()?;
    let claim = PublicKey::from_slice(claim_pubkey).ok()?;
    let refund = PublicKey::from_slice(refund_pubkey).ok()?;
    let theirs = PublicNonce::from_byte_array(their_nonce).ok()?;
    let mut cache = KeyAggCache::new(&[&claim, &refund]);
    cache.pubkey_xonly_tweak_add(&Scalar::from_be_bytes(*tweak).ok()?).ok()?;
    let rand = SessionSecretRand::assume_uniformly_random(*session_rand);
    let (secret, ours) = cache.nonce_gen_with_uniform_randomness(rand, claim, digest, *extra_rand);
    let session = Session::new(&cache, AggregatedNonce::new(&[&ours, &theirs]), digest);
    Some((session.partial_sign(secret, &keypair, &cache).serialize(), ours.serialize()))
}

/// The tap tweak of a swap's taproot tree.
pub open spec fn swap_tap_tweak(swap: Swap) -> Option<[u8; 32]> {
    match spec_aggregate_key(swap.public.claim_pubkey, swap.public.refund_pubkey) {
        None => None,
        Some(internal) => match spec_taproot_spend_info(
            internal,
            swap.public.claim_script@,
            swap.public.refund_script@,
        ) {
            None => None,
            Some(info) => Some(info.2),
        },
    }
}

/// The server's partial signature of the key-path spend of input `input`
/// of a refund transaction, with the given nonce randomness.
pub open spec fn refund_partial_signature(
    swap: Swap,
    tx: Seq<u8>,
    prevouts: Seq<(u64, Seq<u8>)>,
    input: int,
    their_nonce: [u8; 66],
    session_rand: [u8; 32],
    extra_rand: [u8; 32],
) -> Option<([u8; 32], [u8; 66])> {
    match swap_tap_tweak(swap) {
        None => None,
        Some(tweak) => match spec_key_spend_sighash(tx, prevouts, input) {
            None => None,
            Some(digest) => spec_musig_partial_sign(
                swap.private.claim_privkey,
                swap.public.claim_pubkey,
                swap.public.refund_pubkey,
                tweak,
                digest,
                session_rand,
                extra_rand,
                their_nonce,
            ),
        },
    }
}

/// The tap tweak of a swap, read from its taproot tree.
pub fn tap_tweak(swap: &Swap) -> (r: Option<[u8; 32]>)
    ensures
        r == swap_tap_tweak(*swap),
{
    let internal = aggregate_key(&swap.public.claim_pubkey, &swap.public.refund_pubkey)?;
    let (_, _, tweak) = taproot_spend_info(&internal, &swap.public.claim_script, &swap.public.refund_script)?;
    Some(tweak)
}

/// Partially signs input `input` of a refund transaction for the swap's
/// claim key, under the swap's tap tweak and with the given nonce
/// randomness, whose session part is not all zeros, for a swap whose claim
/// public key belongs to its claim secret key: refused where the sighash cannot be computed or the signing
/// round refuses.
pub fn sign_refund_input(
    swap: &Swap,
    tweak: &[u8; 32],
    tx: &Vec<u8>,
    prevouts: &Vec<TxOut>,
    input: usize,
    their_nonce: &[u8; 66],
    session_rand: &[u8; 32],
    extra_rand: &[u8; 32],
) -> (r: Result<([u8; 32], [u8; 66]), SwapError>)
    requires
        session_rand@ != Seq::new(32, |i: int| 0u8),
        is_secret_key(swap.private.claim_privkey@) ==> swap.public.claim_pubkey == spec_public_key_of(
            swap.private.claim_privkey,
        ),
    ensures
        match spec_key_spend_sighash(tx@, prevout_views(prevouts@), input as int) {
            None => r matches Err(e) && e is Taproot,
            Some(digest) => match spec_musig_partial_sign(
                swap.private.claim_privkey,
                swap.public.claim_pubkey,
                swap.public.refund_pubkey,
                *tweak,
                digest,
                *session_rand,
                *extra_rand,
                *their_nonce,
            ) {
                Some(signed) => r == Ok::<([u8; 32], [u8; 66]), SwapError>(signed),
                None => r matches Err(e) && e is Sign,
            },
        },
{
    let digest = match key_spend_sighash(tx, prevouts, input) {
        Some(d) => d,
        None => {
            return Err(SwapError::Taproot(String::from_str("could not compute the refund sighash")));
        },
    };
    match musig_partial_sign(
        &swap.private.claim_privkey,
        &swap.public.claim_pubkey,
        &swap.public.refund_pubkey,
        tweak,
        &digest,
        session_rand,
        extra_rand,
        their_nonce,
    ) {
        Some(signed) => Ok(signed),
        None => Err(SwapError::Sign(String::from_str("could not partially sign the refund"))),
    }
}

/// `signed` is the server's partial signature of the refund input with
/// some nonce randomness, each part a valid secret key as the key provider
/// makes them.
pub open spec fn refund_signed(
    swap: Swap,
    tx: Seq<u8>,
    prevouts: Seq<(u64, Seq<u8>)>,
    input: int,
    their_nonce: [u8; 66],
    signed: ([u8; 32], [u8; 66]),
) -> bool {
    exists|session_rand: [u8; 32], extra_rand: [u8; 32]|
        #![trigger refund_partial_signature(swap, tx, prevouts, input, their_nonce, session_rand, extra_rand)]
        is_secret_key(session_rand@) && is_secret_key(extra_rand@) && refund_partial_signature(
            swap,
            tx,
            prevouts,
            input,
            their_nonce,
            session_rand,
            extra_rand,
        ) == Some(signed)
}

} // verus!
