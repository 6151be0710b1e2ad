use bitcoin::absolute::LockTime;
use bitcoin::transaction::Version;
use bitcoin::{Amount, ScriptBuf, Sequence, Transaction, TxIn, Witness};
use vstd::prelude::*;

use super::privkey_provider::{is_secret_key, PrivateKeyProvider};
use super::swap_service::{
    claim_order_correct, holds_outpoint, law_claim_order_ignores_listing, ordered_outpoints,
    outpoints_distinct, ClaimableUtxo, SwapError,
};
use super::taproot::{aggregate_key, spec_aggregate_key, spec_taproot_spend_info, taproot_spend_info};
use crate::chain::types::{OutPoint, TxOut};

verus! {

/// Names the consensus encoding of a transaction without witnesses: its
/// version, lock time, inputs (each the outpoint it spends, its script and
/// its sequence) and outputs (each a value and a script).
pub uninterp spec fn spec_encode_tx(
    version: i32,
    lock_time: u32,
    inputs: Seq<(OutPoint, Seq<u8>, u32)>,
    outputs: Seq<(u64, Seq<u8>)>,
) -> Seq<u8>;

/// Names the taproot script-path signature hash (sighash type default) of
/// one input of an encoded transaction, spending through a leaf script,
/// with the values and scripts of all its prevouts; `None` where the
/// transaction does not decode or the hash cannot be computed.
pub uninterp spec fn spec_script_spend_sighash(
    tx: Seq<u8>,
    prevouts: Seq<(u64, Seq<u8>)>,
    input: int,
    leaf_script: Seq<u8>,
) -> Option<[u8; 32]>;

/// Names the BIP-340 signature of a message digest with a secret key and
/// auxiliary random bytes.
pub uninterp spec fn spec_schnorr_sign(digest: [u8; 32], privkey: [u8; 32], aux: [u8; 32]) -> [u8; 64];

/// Names the encoded transaction with the witness of one input replaced;
/// `None` where the transaction does not decode or has no such input.
pub uninterp spec fn spec_with_witness(tx: Seq<u8>, input: int, items: Seq<Seq<u8>>) -> Option<
    Seq<u8>,
>;

/// The values and scripts of outputs.
pub open spec fn prevout_views(outs: Seq<TxOut>) -> Seq<(u64, Seq<u8>)> {
    Seq::new(outs.len(), |i: int| (outs[i].value_sat, outs[i].script_pubkey@))
}

/// The views of byte strings.
pub open spec fn item_views(items: Seq<Vec<u8>>) -> Seq<Seq<u8>> {
    Seq::new(items.len(), |i: int| items[i]@)
}

/// An input of a transaction before it is signed.
pub struct TxInput {
    pub outpoint: OutPoint,
    pub script_sig: Vec<u8>,
    pub sequence: u32,
}

/// The outpoints, scripts and sequences of inputs.
pub open spec fn input_views(inputs: Seq<TxInput>) -> Seq<(OutPoint, Seq<u8>, u32)> {
    Seq::new(inputs.len(), |i: int| (inputs[i].outpoint, inputs[i].script_sig@, inputs[i].sequence))
}

/// Encodes a transaction without witnesses with the bitcoin crate's
/// consensus encoding. The bytes are named, not stated.
#[verifier::external_body]
pub(crate) fn encode_tx(version: i32, lock_time: u32, inputs: &Vec<TxInput>, outputs: &Vec<TxOut>) -> (r:
    Vec<u8>)
    ensures
        r@ == spec_encode_tx(version, lock_time, input_views(inputs@), prevout_views(outputs@)),
{
    let input = inputs.iter().map(|i| TxIn {
        previous_output: bitcoin::OutPoint::new(bitcoin::hashes::Hash::from_byte_array(i.outpoint.txid.bytes), i.outpoint.vout),
        script_sig: ScriptBuf::from_bytes(i.script_sig.clone()),
        sequence: Sequence(i.sequence),
        witness: Witness::new(),
    }).collect();
    let output = outputs.iter().map(|o| bitcoin::TxOut {
        value: Amount::from_sat(o.value_sat),
        script_pubkey: ScriptBuf::from_bytes(o.script_pubkey.clone()),
    }).collect();
    let tx = Transaction { version: Version(version), lock_time: LockTime::from_consensus(lock_time), input, output };
    bitcoin::consensus::serialize(&tx)
}

/// The version of a claim transaction.
pub const CLAIM_TX_VERSION: i32 = 2;

/// The sequence of each claim input: zero, so the lock time is enforced.
pub const CLAIM_INPUT_SEQUENCE: u32 = 0;

/// The inputs of a claim transaction: one per outpoint, in order, with an
/// empty script and sequence zero.
pub open spec fn claim_inputs(outpoints: Seq<OutPoint>) -> Seq<(OutPoint, Seq<u8>, u32)> {
    Seq::new(outpoints.len(), |i: int| (outpoints[i], Seq::<u8>::empty(), CLAIM_INPUT_SEQUENCE))
}

/// The encoding of a claim transaction without witnesses: version 2, the
/// claim inputs, one output of `value_sat` to `destination`, and the lock
/// time.
pub open spec fn unsigned_claim_tx_spec(
    outpoints: Seq<OutPoint>,
    destination: Seq<u8>,
    value_sat: u64,
    lock_time: u32,
) -> Seq<u8> {
    spec_encode_tx(CLAIM_TX_VERSION, lock_time, claim_inputs(outpoints), seq![(value_sat, destination)])
}

/// Encodes the claim transaction without witnesses.
pub fn unsigned_claim_tx(outpoints: &Vec<OutPoint>, destination: &Vec<u8>, value_sat: u64, lock_time: u32) -> (r:
    Vec<u8>)
    ensures
        r@ == unsigned_claim_tx_spec(outpoints@, destination@, value_sat, lock_time),
{
    let mut inputs: Vec<TxInput> = Vec::new();
    let mut i: usize = 0;
    while i < outpoints.len()
        invariant
            0 <= i <= outpoints@.len(),
            inputs@.len() == i,
            input_views(inputs@) == claim_inputs(outpoints@).subrange(0, i as int),
        decreases outpoints@.len() - i,
    {
        let ghost before = inputs@;
        inputs.push(TxInput { outpoint: outpoints[i], script_sig: Vec::new(), sequence: CLAIM_INPUT_SEQUENCE });
        proof {
            assert forall|j: int| 0 <= j <= i implies #[trigger] input_views(inputs@)[j] == claim_inputs(
                outpoints@,
            )[j] by {
                if j < i {
                    assert(inputs@[j] == before[j]);
                    assert(input_views(before)[j] == input_views(inputs@)[j]);
                }
            }
            assert(input_views(inputs@) =~= claim_inputs(outpoints@).subrange(0, i + 1));
        }
        i = i + 1;
    }
    assert(input_views(inputs@) =~= claim_inputs(outpoints@));
    let mut outputs: Vec<TxOut> = Vec::new();
    outputs.push(TxOut { value_sat, script_pubkey: destination.clone() });
    assert(prevout_views(outputs@) =~= seq![(value_sat, destination@)]);
    encode_tx(CLAIM_TX_VERSION, lock_time, &inputs, &outputs)
}

/// The bitcoin crate's `SighashCache::taproot_script_spend_signature_hash`
/// of one input of the decoded transaction, for the leaf hash of
/// `leaf_script` and the default sighash type. The hash is named, not
/// stated.
#[verifier::external_body]
pub(crate) fn script_spend_sighash(
    tx: &Vec<u8>,
    prevouts: &Vec<TxOut>,
    input: usize,
    leaf_script: &Vec<u8>,
) -> (r: Option<[u8; 32]>)
    ensures
        r == spec_script_spend_sighash(tx@, prevout_views(prevouts@), input as int, leaf_script@),
{
    let tx: bitcoin::Transaction = bitcoin::consensus::deserialize(tx).ok()?;
    let prevouts: Vec<bitcoin::TxOut> = prevouts.iter().map(|o| bitcoin::TxOut {
        value: bitcoin::Amount::from_sat(o.value_sat),
        script_pubkey: bitcoin::ScriptBuf::from_bytes(o.script_pubkey.clone()),
    }).collect();
    let leaf = bitcoin::taproot::TapLeafHash::from_script(
        bitcoin::Script::from_bytes(leaf_script),
        bitcoin::taproot::LeafVersion::TapScript,
    );
    let mut cache = bitcoin::sighash::SighashCache::new(&tx);
    let all = bitcoin::sighash::Prevouts::All(&prevouts);
    let hash = cache.taproot_script_spend_signature_hash(input, &all, leaf, bitcoin::TapSighashType::Default);
    Some(bitcoin::hashes::Hash::to_byte_array(hash.ok()?))
}

/// Signs a digest with `Secp256k1::sign_schnorr_with_aux_rand` of
/// secp256k1 under the key pair of a secret key. It signs exactly for a
/// valid secret key; the signature is named, not stated.
#[verifier::external_body]
pub(crate) fn schnorr_sign(digest: &[u8; 32], privkey: &[u8; 32], aux: &[u8; 32]) -> (r: Option<
    [u8; 64],
>)
    ensures
        r is Some <==> is_secret_key(privkey@),
        r matches Some(sig) ==> sig == spec_schnorr_sign(*digest, *privkey, *aux),
{
    let secp = bitcoin::secp256k1::Secp256k1::signing_only();
    let keypair = bitcoin::secp256k1::Keypair::from_seckey_slice(&secp, privkey).ok()?;
    let message = bitcoin::secp256k1::Message::from_digest(*digest);
    Some(secp.sign_schnorr_with_aux_rand(&message, &keypair, aux).serialize())
}

/// Decodes the transaction, sets the witness of one input to the items,
/// and encodes it again, with the bitcoin crate. The bytes are named, not
/// stated.
#[verifier::external_body]
pub(crate) fn with_witness(tx: &Vec<u8>, input: usize, items: &Vec<Vec<u8>>) -> (r: Option<Vec<u8>>)
    ensures
        match r {
            Some(t) => spec_with_witness(tx@, input as int, item_views(items@)) == Some(t@),
            None => spec_with_witness(tx@, input as int, item_views(items@)) is None,
        },
{
    let mut tx: bitcoin::Transaction = bitcoin::consensus::deserialize(tx).ok()?;
    tx.input.get_mut(input)?.witness = bitcoin::Witness::from_slice(items);
    Some(bitcoin::consensus::serialize(&tx))
}

/// The values and scripts of the claimed outputs, in input order.
pub open spec fn ordered_prevouts(cl: Seq<ClaimableUtxo>, order: Seq<usize>) -> Seq<(u64, Seq<u8>)> {
    Seq::new(
        order.len(),
        |k: int| (cl[order[k] as int].utxo.tx_out.value_sat, cl[order[k] as int].utxo.tx_out.script_pubkey@),
    )
}

/// The witness that spends input `n` of `tx` through the claim script of
/// `c`: the signature of the input's script-path sighash, the preimage,
/// the claim script and the control block of the swap's taproot tree.
pub open spec fn claim_input_witness(
    tx: Seq<u8>,
    prevouts: Seq<(u64, Seq<u8>)>,
    n: int,
    c: ClaimableUtxo,
    aux: [u8; 32],
) -> Option<Seq<Seq<u8>>> {
    let claim_script = c.swap.public.claim_script@;
    let refund_script = c.swap.public.refund_script@;
    match spec_script_spend_sighash(tx, prevouts, n, claim_script) {
        None => None,
        Some(sighash) => if !is_secret_key(c.swap.private.claim_privkey@) {
            None
        } else {
            match spec_aggregate_key(c.swap.public.claim_pubkey, c.swap.public.refund_pubkey) {
                None => None,
                Some(internal) => match spec_taproot_spend_info(internal, claim_script, refund_script) {
                    None => None,
                    Some(info) => Some(
                        seq![
                            spec_schnorr_sign(sighash, c.swap.private.claim_privkey, aux)@,
                            c.preimage@,
                            claim_script,
                            info.1,
                        ],
                    ),
                },
            }
        },
    }
}

/// The claim transaction with the witnesses of its first `k` inputs.
pub open spec fn signed_claim_prefix(
    cl: Seq<ClaimableUtxo>,
    order: Seq<usize>,
    destination: Seq<u8>,
    value_sat: u64,
    lock_time: u32,
    aux: Seq<[u8; 32]>,
    k: nat,
) -> Option<Seq<u8>>
    decreases k,
{
    if k == 0 {
        Some(unsigned_claim_tx_spec(ordered_outpoints(cl, order), destination, value_sat, lock_time))
    } else {
        match signed_claim_prefix(cl, order, destination, value_sat, lock_time, aux, (k - 1) as nat) {
            None => None,
            Some(tx) => match claim_input_witness(
                tx,
                ordered_prevouts(cl, order),
                k - 1,
                cl[order[k - 1] as int],
                aux[k - 1],
            ) {
                None => None,
                Some(items) => spec_with_witness(tx, k - 1, items),
            },
        }
    }
}

/// The claimable output at each input position is the same in both orders.
proof fn lemma_same_inputs(cl1: Seq<ClaimableUtxo>, r1: Seq<usize>, cl2: Seq<ClaimableUtxo>, r2: Seq<usize>)
    requires
        claim_order_correct(cl1, r1),
        claim_order_correct(cl2, r2),
        outpoints_distinct(cl2),
        cl1.len() == cl2.len(),
        ordered_outpoints(cl1, r1) == ordered_outpoints(cl2, r2),
        forall|x: ClaimableUtxo| cl1.contains(x) ==> cl2.contains(x),
    ensures
        forall|k: int| 0 <= k < r1.len() ==> #[trigger] cl1[r1[k] as int] == cl2[r2[k] as int],
{
    assert forall|k: int| 0 <= k < r1.len() implies #[trigger] cl1[r1[k] as int] == cl2[r2[k] as int] by {
        let x = cl1[r1[k] as int];
        assert(cl1.contains(x));
        let j = choose|j: int| 0 <= j < cl2.len() && cl2[j] == x;
        assert(r2.contains(j as usize));
        let kk = choose|kk: int| 0 <= kk < r2.len() && r2[kk] == j as usize;
        assert(ordered_outpoints(cl1, r1)[k] == x.utxo.outpoint);
        assert(ordered_outpoints(cl2, r2)[k] == cl2[r2[k] as int].utxo.outpoint);
        assert(r2[k] < cl2.len());
        if r2[k] as int != j {
            assert(cl2[r2[k] as int].utxo.outpoint != cl2[j].utxo.outpoint);
        }
    }
}

/// The claim transactions of two orders that put the same claimable output
/// at every position agree at every prefix.
proof fn lemma_same_prefix(
    cl1: Seq<ClaimableUtxo>,
    r1: Seq<usize>,
    cl2: Seq<ClaimableUtxo>,
    r2: Seq<usize>,
    destination: Seq<u8>,
    value_sat: u64,
    lock_time: u32,
    aux: Seq<[u8; 32]>,
    k: nat,
)
    requires
        r1.len() == r2.len(),
        k <= r1.len(),
        ordered_outpoints(cl1, r1) == ordered_outpoints(cl2, r2),
        ordered_prevouts(cl1, r1) == ordered_prevouts(cl2, r2),
        forall|j: int| 0 <= j < r1.len() ==> #[trigger] cl1[r1[j] as int] == cl2[r2[j] as int],
    ensures
        signed_claim_prefix(cl1, r1, destination, value_sat, lock_time, aux, k) == signed_claim_prefix(
            cl2,
            r2,
            destination,
            value_sat,
            lock_time,
            aux,
            k,
        ),
    decreases k,
{
    if k > 0 {
        lemma_same_prefix(cl1, r1, cl2, r2, destination, value_sat, lock_time, aux, (k - 1) as nat);
        assert(cl1[r1[k - 1] as int] == cl2[r2[k - 1] as int]);
    }
}

/// Sorting by outpoint crafts the same signed claim transaction whatever
/// order the same claimable outputs were listed in, for the same signing
/// bytes.
pub proof fn law_signed_claim_ignores_listing(
    cl1: Seq<ClaimableUtxo>,
    r1: Seq<usize>,
    cl2: Seq<ClaimableUtxo>,
    r2: Seq<usize>,
    destination: Seq<u8>,
    value_sat: u64,
    lock_time: u32,
    aux: Seq<[u8; 32]>,
)
    requires
        claim_order_correct(cl1, r1),
        claim_order_correct(cl2, r2),
        outpoints_distinct(cl1),
        outpoints_distinct(cl2),
        cl1.len() == cl2.len(),
        cl1.len() <= usize::MAX,
        forall|x: ClaimableUtxo| cl1.contains(x) <==> cl2.contains(x),
    ensures
        signed_claim_prefix(cl1, r1, destination, value_sat, lock_time, aux, cl1.len()) == signed_claim_prefix(
            cl2,
            r2,
            destination,
            value_sat,
            lock_time,
            aux,
            cl2.len(),
        ),
{
    assert forall|x: OutPoint| holds_outpoint(cl1, x) <==> holds_outpoint(cl2, x) by {
        if holds_outpoint(cl1, x) {
            let i = choose|i: int| 0 <= i < cl1.len() && #[trigger] cl1[i].utxo.outpoint == x;
            assert(cl1.contains(cl1[i]));
            let j = choose|j: int| 0 <= j < cl2.len() && cl2[j] == cl1[i];
            assert(cl2[j].utxo.outpoint == x);
        }
        if holds_outpoint(cl2, x) {
            let i = choose|i: int| 0 <= i < cl2.len() && #[trigger] cl2[i].utxo.outpoint == x;
            assert(cl2.contains(cl2[i]));
            let j = choose|j: int| 0 <= j < cl1.len() && cl1[j] == cl2[i];
            assert(cl1[j].utxo.outpoint == x);
        }
    }
    law_claim_order_ignores_listing(cl1, r1, cl2, r2);
    lemma_same_inputs(cl1, r1, cl2, r2);
    assert(ordered_prevouts(cl1, r1) =~= ordered_prevouts(cl2, r2));
    lemma_same_prefix(cl1, r1, cl2, r2, destination, value_sat, lock_time, aux, cl1.len());
}

/// The first `k` inputs of a claim transaction are signed with the first
/// `k` auxiliary random values alone.
proof fn lemma_prefix_same_aux(
    cl: Seq<ClaimableUtxo>,
    order: Seq<usize>,
    destination: Seq<u8>,
    value_sat: u64,
    lock_time: u32,
    a1: Seq<[u8; 32]>,
    a2: Seq<[u8; 32]>,
    k: nat,
)
    requires
        k <= a1.len(),
        k <= a2.len(),
        forall|j: int| 0 <= j < k ==> a1[j] == a2[j],
    ensures
        signed_claim_prefix(cl, order, destination, value_sat, lock_time, a1, k) == signed_claim_prefix(
            cl,
            order,
            destination,
            value_sat,
            lock_time,
            a2,
            k,
        ),
    decreases k,
{
    if k > 0 {
        lemma_prefix_same_aux(cl, order, destination, value_sat, lock_time, a1, a2, (k - 1) as nat);
    }
}

/// The bytes of an array as a vector.
fn bytes_vec(bytes: &[u8]) -> (r: Vec<u8>)
    ensures
        r@ == bytes@,
{
    let mut r: Vec<u8> = Vec::new();
    let mut i: usize = 0;
    while i < bytes.len()
        invariant
            0 <= i <= bytes@.len(),
            r@ == bytes@.subrange(0, i as int),
        decreases bytes.len() - i,
    {
        r.push(bytes[i]);
        assert(r@ =~= bytes@.subrange(0, i + 1));
        i = i + 1;
    }
    assert(bytes@.subrange(0, bytes@.len() as int) =~= bytes@);
    r
}

/// Signs the claim transaction of a plan: its inputs spend the claimable
/// outputs in `input_order`, each through its swap's claim script. Input
/// by input, its sighash is computed, fresh auxiliary random bytes are
/// drawn from the key provider, and the input is signed with them. A
/// failure to hash, draw, sign or build the taproot tree of an input
/// refuses the whole transaction.
pub fn sign_claim_tx<P: PrivateKeyProvider>(
    provider: &P,
    claimables: &Vec<ClaimableUtxo>,
    input_order: &Vec<usize>,
    destination: &Vec<u8>,
    value_sat: u64,
    lock_time: u32,
) -> (r: Result<Vec<u8>, SwapError>)
    requires
        forall|k: int| 0 <= k < input_order@.len() ==> #[trigger] input_order@[k] < claimables@.len(),
    ensures
        r matches Ok(tx) ==> exists|aux: Seq<[u8; 32]>|
            #![trigger signed_claim_prefix(claimables@, input_order@, destination@, value_sat, lock_time, aux, input_order@.len())]
            aux.len() == input_order@.len() && (forall|k: int|
                0 <= k < aux.len() ==> is_secret_key(#[trigger] aux[k]@)) && signed_claim_prefix(
                claimables@,
                input_order@,
                destination@,
                value_sat,
                lock_time,
                aux,
                input_order@.len(),
            ) == Some(tx@),
        r matches Err(e) ==> e is PrivateKey || e is Taproot || e is Sign,
{
    let ghost cl = claimables@;
    let ghost order = input_order@;
    let n = input_order.len();
    let mut outpoints: Vec<OutPoint> = Vec::new();
    let mut prevouts: Vec<TxOut> = Vec::new();
    let mut k: usize = 0;
    while k < n
        invariant
            n == order.len(),
            cl == claimables@,
            order == input_order@,
            forall|j: int| 0 <= j < order.len() ==> #[trigger] order[j] < cl.len(),
            0 <= k <= n,
            outpoints@ == ordered_outpoints(cl, order).subrange(0, k as int),
            prevouts@.len() == k,
            prevout_views(prevouts@) == ordered_prevouts(cl, order).subrange(0, k as int),
        decreases n - k,
    {
        let c = &claimables[input_order[k]];
        outpoints.push(c.utxo.outpoint);
        let out = c.utxo.tx_out.clone();
        assert(out.script_pubkey@ == cl[order[k as int] as int].utxo.tx_out.script_pubkey@);
        let ghost old_prevouts = prevouts@;
        prevouts.push(out);
        assert(outpoints@ =~= ordered_outpoints(cl, order).subrange(0, k + 1));
        assert forall|j: int| 0 <= j <= k implies #[trigger] prevout_views(prevouts@)[j]
            == ordered_prevouts(cl, order)[j] by {
            if j < k {
                assert(prevouts@[j] == old_prevouts[j]);
                assert(prevout_views(old_prevouts)[j] == ordered_prevouts(cl, order).subrange(0, k as int)[j]);
            } else {
                assert(prevouts@[j] == out);
            }
        }
        assert(prevout_views(prevouts@) =~= ordered_prevouts(cl, order).subrange(0, k + 1));
        k = k + 1;
    }
    assert(outpoints@ =~= ordered_outpoints(cl, order));
    assert(prevout_views(prevouts@) =~= ordered_prevouts(cl, order));
    let mut tx = unsigned_claim_tx(&outpoints, destination, value_sat, lock_time);
    let ghost mut aux: Seq<[u8; 32]> = Seq::empty();
    let mut i: usize = 0;
    while i < n
        invariant
            n == order.len(),
            cl == claimables@,
            order == input_order@,
            forall|j: int| 0 <= j < order.len() ==> #[trigger] order[j] < cl.len(),
            prevout_views(prevouts@) == ordered_prevouts(cl, order),
            0 <= i <= n,
            aux.len() == i,
            forall|k: int| 0 <= k < aux.len() ==> is_secret_key(#[trigger] aux[k]@),
            signed_claim_prefix(cl, order, destination@, value_sat, lock_time, aux, i as nat)
                == Some(tx@),
        decreases n - i,
    {
        let c = &claimables[input_order[i]];
        let ghost before = tx@;
        let sighash = match script_spend_sighash(&tx, &prevouts, i, &c.swap.public.claim_script) {
            Some(h) => h,
            None => {
                return Err(SwapError::Taproot(String::from_str("could not compute the claim sighash")));
            },
        };
        let rnd = match provider.new_private_key() {
            Ok(k) => k,
            Err(e) => {
                return Err(SwapError::PrivateKey(e));
            },
        };
        let signature = match schnorr_sign(&sighash, &c.swap.private.claim_privkey, &rnd) {
            Some(s) => s,
            None => {
                return Err(SwapError::Sign(String::from_str("invalid claim key")));
            },
        };
        let internal = match aggregate_key(&c.swap.public.claim_pubkey, &c.swap.public.refund_pubkey) {
            Some(k) => k,
            None => {
                return Err(SwapError::Taproot(String::from_str("invalid swap keys")));
            },
        };
        let control = match taproot_spend_info(&internal, &c.swap.public.claim_script, &c.swap.public.refund_script) {
            Some((_, control, _)) => control,
            None => {
                return Err(SwapError::Taproot(String::from_str("missing control block")));
            },
        };
        let mut items: Vec<Vec<u8>> = Vec::new();
        items.push(bytes_vec(signature.as_slice()));
        items.push(bytes_vec(c.preimage.as_slice()));
        items.push(c.swap.public.claim_script.clone());
        items.push(control);
        let ghost next_aux = aux.push(rnd);
        proof {
            lemma_prefix_same_aux(cl, order, destination@, value_sat, lock_time, aux, next_aux, i as nat);
            assert(item_views(items@) =~= claim_input_witness(before, ordered_prevouts(cl, order), i as int, cl[order[i as int] as int], next_aux[i as int])->0);
        }
        tx = match with_witness(&tx, i, &items) {
            Some(t) => t,
            None => {
                return Err(SwapError::Taproot(String::from_str("could not set the claim witness")));
            },
        };
        proof {
            aux = next_aux;
        }
        i = i + 1;
    }
    Ok(tx)
}

} // verus!
