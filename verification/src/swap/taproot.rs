use vstd::prelude::*;

use super::privkey_provider::is_secret_key;
use crate::chain::types::Network;

verus! {

/// Names the compressed public key of a secret key.
pub uninterp spec fn spec_public_key_of(privkey: [u8; 32]) -> [u8; 33];

/// Names the x-only key that MuSig2 key aggregation makes of the claim key
/// and the refund key, in that order; `None` where a key does not parse.
pub uninterp spec fn spec_aggregate_key(claim_pubkey: [u8; 33], refund_pubkey: [u8; 33]) -> Option<
    [u8; 32],
>;

/// Names what the taproot tree of the two scripts, each a leaf at depth
/// one, over an internal key gives: its tweaked output key, the control
/// block that spends through the claim script, and the tap tweak; `None`
/// where the builder refuses.
pub uninterp spec fn spec_taproot_spend_info(
    internal_key: [u8; 32],
    claim_script: Seq<u8>,
    refund_script: Seq<u8>,
) -> Option<([u8; 32], Seq<u8>, [u8; 32])>;

/// Names the text of the pay-to-taproot address of an output key.
pub uninterp spec fn spec_p2tr_address(output_key: [u8; 32], network: Network) -> Option<Seq<char>>;

/// The public key of a secret key, with `SecretKey::from_slice` and
/// `PublicKey::from_secret_key` of secp256k1, serialized compressed. It
/// exists exactly for a valid secret key; which point it is, is named.
#[verifier::external_body]
pub(crate) fn public_key_of(privkey: &[u8; 32]) -> (r: Option<[u8; 33]>)
    ensures
        r is Some <==> is_secret_key(privkey@),
        r matches Some(k) ==> k == spec_public_key_of(*privkey),
{
    let key = bitcoin::secp256k1::SecretKey::from_slice(privkey).ok()?;
    let secp = bitcoin::secp256k1::Secp256k1::signing_only();
    Some(bitcoin::secp256k1::PublicKey::from_secret_key(&secp, &key).serialize())
}

/// Byte-wise equality of two compressed public keys.
pub fn same_public_key(a: &[u8; 33], b: &[u8; 33]) -> (r: bool)
    ensures
        r == (*a == *b),
{
    broadcast use vstd::array::group_array_axioms;
    let mut i: usize = 0;
    while i < 33
        invariant
            0 <= i <= 33,
            forall|k: int| 0 <= k < i ==> a[k] == b[k],
        decreases 33 - i,
    {
        if a[i] != b[i] {
            assert(a[i as int] != b[i as int]);
            return false;
        }
        i = i + 1;
    }
    assert(*a =~= *b);
    true
}

/// The MuSig2 aggregate of the claim key and the refund key, with
/// `secp256k1::musig::KeyAggCache::new` over the two keys in that order
/// and its `agg_pk`. The key is named, not stated.
#[verifier::external_body]
pub(crate) fn aggregate_key(claim_pubkey: &[u8; 33], refund_pubkey: &[u8; 33]) -> (r: Option<
    [u8; 32],
>)
    ensures
        r == spec_aggregate_key(*claim_pubkey, *refund_pubkey),
{
    let claim = secp256k1::PublicKey::from_slice(claim_pubkey).ok()?;
    let refund = secp256k1::PublicKey::from_slice(refund_pubkey).ok()?;
    Some(secp256k1::musig::KeyAggCache::new(&[&claim, &refund]).agg_pk().serialize())
}

/// The bitcoin crate's `TaprootBuilder` with the claim script and the
/// refund script as leaves at depth one, finalized over the internal key:
/// the output key of the spend info, its control block for the claim
/// script, serialized, and its tap tweak. All are named, not stated.
#[verifier::external_body]
pub(crate) fn taproot_spend_info(
    internal_key: &[u8; 32],
    claim_script: &Vec<u8>,
    refund_script: &Vec<u8>,
) -> (r: Option<([u8; 32], Vec<u8>, [u8; 32])>)
    ensures
        match r {
            Some((key, control, tweak)) => spec_taproot_spend_info(
                *internal_key,
                claim_script@,
                refund_script@,
            ) == Some((key, control@, tweak)),
            None => spec_taproot_spend_info(*internal_key, claim_script@, refund_script@) is None,
        },
{
    let key = bitcoin::key::XOnlyPublicKey::from_slice(internal_key).ok()?;
    let claim = bitcoin::ScriptBuf::from_bytes(claim_script.clone());
    let refund = bitcoin::ScriptBuf::from_bytes(refund_script.clone());
    let secp = bitcoin::secp256k1::Secp256k1::verification_only();
    let builder = bitcoin::taproot::TaprootBuilder::new().add_leaf(1, claim.clone()).ok()?;
    let info = builder.add_leaf(1, refund).ok()?.finalize(&secp, key).ok()?;
    let control = info.control_block(&(claim, bitcoin::taproot::LeafVersion::TapScript))?;
    let tweak = bitcoin::hashes::Hash::to_byte_array(info.tap_tweak());
    Some((info.output_key().to_inner().serialize(), control.serialize(), tweak))
}

/// The text of the bitcoin crate's `Address::p2tr_tweaked` for an output
/// key on a network. The text is named, not stated.
#[verifier::external_body]
pub(crate) fn p2tr_address(output_key: &[u8; 32], network: Network) -> (r: Option<String>)
    ensures
        match r {
            Some(a) => spec_p2tr_address(*output_key, network) == Some(a@),
            None => spec_p2tr_address(*output_key, network) is None,
        },
{
    let params = match network {
        Network::Bitcoin => bitcoin::Network::Bitcoin,
        Network::Testnet => bitcoin::Network::Testnet,
        Network::Testnet4 => bitcoin::Network::Testnet4,
        Network::Signet => bitcoin::Network::Signet,
        Network::Regtest => bitcoin::Network::Regtest,
    };
    let key = bitcoin::key::XOnlyPublicKey::from_slice(output_key).ok()?;
    let tweaked = bitcoin::key::TweakedPublicKey::dangerous_assume_tweaked(key);
    Some(bitcoin::Address::p2tr_tweaked(tweaked, params).to_string())
}

/// The address of a swap: the taproot output of the two scripts over the
/// aggregate of the claim key and the refund key.
pub open spec fn swap_address_spec(
    claim_pubkey: [u8; 33],
    refund_pubkey: [u8; 33],
    claim_script: Seq<u8>,
    refund_script: Seq<u8>,
    network: Network,
) -> Option<Seq<char>> {
    match spec_aggregate_key(claim_pubkey, refund_pubkey) {
        None => None,
        Some(internal) => match spec_taproot_spend_info(internal, claim_script, refund_script) {
            None => None,
            Some(info) => spec_p2tr_address(info.0, network),
        },
    }
}

/// The address of a swap with these keys and scripts.
pub fn swap_address(
    claim_pubkey: &[u8; 33],
    refund_pubkey: &[u8; 33],
    claim_script: &Vec<u8>,
    refund_script: &Vec<u8>,
    network: Network,
) -> (r: Option<String>)
    ensures
        match swap_address_spec(
            *claim_pubkey,
            *refund_pubkey,
            claim_script@,
            refund_script@,
            network,
        ) {
            Some(a) => r matches Some(s) && s@ == a,
            None => r is None,
        },
{
    let internal = aggregate_key(claim_pubkey, refund_pubkey)?;
    let (output, _, _) = taproot_spend_info(&internal, claim_script, refund_script)?;
    p2tr_address(&output, network)
}

} // verus!
