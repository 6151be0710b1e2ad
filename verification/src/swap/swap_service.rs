use vstd::prelude::*;

use super::privkey_provider::{is_secret_key, PrivateKeyError, PrivateKeyProvider};
use super::claim_tx::{prevout_views, sign_claim_tx, signed_claim_prefix, unsigned_claim_tx_spec};
use super::refund_tx::{
    refund_partial_signature, refund_signed, sign_refund_input, spec_key_spend_sighash, swap_tap_tweak,
    tap_tweak,
};
use super::taproot::{public_key_of, same_public_key, spec_public_key_of, swap_address, swap_address_spec};
use crate::chain::types::{bytes32_eq, Network, OutPoint, TxOut, Txo};

verus! {

/// Witness bytes that one claim input adds to a claim transaction.
pub const CLAIM_INPUT_WITNESS_SIZE: u64 = 1 + 1 + 73 + 1 + 32 + 1 + 100;

/// Block heights at or above this value are timestamps in a lock time.
pub const LOCK_TIME_THRESHOLD: u32 = 500_000_000;

/// The sha256 payment hash that identifies a swap.
#[derive(Clone, Copy, Debug, PartialEq, Eq)]
pub struct PaymentHash {
    pub bytes: [u8; 32],
}

impl PaymentHash {
    pub fn same_as(&self, other: &PaymentHash) -> (r: bool)
        ensures
            r == (*self == *other),
    {
        bytes32_eq(&self.bytes, &other.bytes)
    }
}

/// The public part of a swap, shared with the user.
#[derive(Debug)]
pub struct SwapPublicData {
    pub address: String,
    pub claim_pubkey: [u8; 33],
    pub claim_script: Vec<u8>,
    pub hash: PaymentHash,
    /// Blocks after the confirmation of an output to the swap address
    /// until the user may spend it through the refund script.
    pub lock_time: u16,
    pub refund_pubkey: [u8; 33],
    pub refund_script: Vec<u8>,
}

/// The private part of a swap: the key that claims its outputs.
#[derive(Debug)]
pub struct SwapPrivateData {
    pub claim_privkey: [u8; 32],
}

/// A swap: a taproot address that the user pays to, claimable by the swap
/// server with the preimage of `hash` and refundable by the user once an
/// output has `lock_time` blocks on top of its own.
#[derive(Debug)]
pub struct Swap {
    /// Seconds since the unix epoch.
    pub creation_time: u64,
    pub public: SwapPublicData,
    pub private: SwapPrivateData,
}

/// The abstract value of a swap.
pub struct SwapView {
    pub creation_time: u64,
    pub address: String,
    pub claim_pubkey: [u8; 33],
    pub claim_script: Seq<u8>,
    pub hash: PaymentHash,
    pub lock_time: u16,
    pub refund_pubkey: [u8; 33],
    pub refund_script: Seq<u8>,
    pub claim_privkey: [u8; 32],
}

impl View for Swap {
    type V = SwapView;

    open spec fn view(&self) -> SwapView {
        SwapView {
            creation_time: self.creation_time,
            address: self.public.address,
            claim_pubkey: self.public.claim_pubkey,
            claim_script: self.public.claim_script@,
            hash: self.public.hash,
            lock_time: self.public.lock_time,
            refund_pubkey: self.public.refund_pubkey,
            refund_script: self.public.refund_script@,
            claim_privkey: self.private.claim_privkey,
        }
    }
}

impl Clone for Swap {
    fn clone(&self) -> (c: Self)
        ensures
            c@ == self@,
    {
        let claim_script = self.public.claim_script.clone();
        let refund_script = self.public.refund_script.clone();
        proof {
            assert(claim_script@ =~= self.public.claim_script@);
            assert(refund_script@ =~= self.public.refund_script@);
        }
        Swap {
            creation_time: self.creation_time,
            public: SwapPublicData {
                address: self.public.address.clone(),
                claim_pubkey: self.public.claim_pubkey,
                claim_script,
                hash: self.public.hash,
                lock_time: self.public.lock_time,
                refund_pubkey: self.public.refund_pubkey,
                refund_script,
            },
            private: SwapPrivateData { claim_privkey: self.private.claim_privkey },
        }
    }
}

/// Blocks from `current_height` until the refund path of an output
/// confirmed at `confirmation_height` opens, `lock_time` blocks later;
/// negative once it has opened, as the 32-bit truncation of the difference.
pub open spec fn blocks_left_at(lock_time: u16, confirmation_height: u64, current_height: u64) -> i32 {
    (confirmation_height + lock_time - current_height) as i32
}

/// Blocks left until the refund path of an output confirmed at
/// `confirmation_height` opens, cut to 32 bits.
pub fn blocks_left_from(lock_time: u16, confirmation_height: u64, current_height: u64) -> (r: i32)
    ensures
        r == blocks_left_at(lock_time, confirmation_height, current_height),
        i32::MIN <= confirmation_height + lock_time - current_height <= i32::MAX ==> r
            == confirmation_height + lock_time - current_height,
{
    let wide: i128 = confirmation_height as i128 + lock_time as i128 - current_height as i128;
    wide as i32
}

impl Swap {
    /// Blocks left until the user can take the refund path of an output
    /// confirmed at `confirmation_height`.
    pub fn blocks_left(&self, confirmation_height: u64, current_height: u64) -> (r: i32)
        ensures
            r == blocks_left_at(self.public.lock_time, confirmation_height, current_height),
    {
        blocks_left_from(self.public.lock_time, confirmation_height, current_height)
    }
}

/// A swap with its preimage, once the payment to the user succeeded.
pub struct SwapState {
    pub swap: Swap,
    pub preimage: Option<[u8; 32]>,
}

impl SwapState {
    pub fn blocks_left(&self, confirmation_height: u64, current_height: u64) -> (r: i32)
        ensures
            r == blocks_left_at(self.swap.public.lock_time, confirmation_height, current_height),
    {
        self.swap.blocks_left(confirmation_height, current_height)
    }
}

/// An output paid to a swap address that the server may claim.
pub struct ClaimableUtxo {
    pub swap: Swap,
    pub utxo: Txo,
    pub paid_with_request: Option<String>,
    pub preimage: [u8; 32],
}

impl ClaimableUtxo {
    /// Blocks left until the user can take this output back.
    pub fn blocks_left(&self, current_height: u64) -> (r: i32)
        ensures
            r == blocks_left_at(self.swap.public.lock_time, self.utxo.block_height, current_height),
    {
        self.swap.blocks_left(self.utxo.block_height, current_height)
    }
}

/// Errors of creating swaps and of crafting and signing their transactions.
#[derive(Debug)]
pub enum SwapError {
    PrivateKey(PrivateKeyError),
    InvalidBlockHeight(u32),
    InvalidLockTime(u32),
    FakeAddress,
    Taproot(String),
    InvalidWeight,
    AmountTooLow,
    Conversion,
    MusigTweak(String),
    NonceGen(String),
    Sign(String),
}

/// The lock time of a new swap. A relative lock in blocks holds 16 bits;
/// a longer lock time is refused.
pub fn swap_lock_time(lock_time: u32) -> (r: Result<u16, SwapError>)
    ensures
        lock_time <= u16::MAX <==> r is Ok,
        r matches Ok(l) ==> l == lock_time,
        r matches Err(e) ==> e == SwapError::InvalidLockTime(lock_time),
{
    if lock_time <= 0xffff {
        Ok(lock_time as u16)
    } else {
        Err(SwapError::InvalidLockTime(lock_time))
    }
}

/// Sum of a sequence of values.
pub open spec fn sum_values(s: Seq<u64>) -> int
    decreases s.len(),
{
    if s.len() == 0 {
        0
    } else {
        sum_values(s.drop_last()) + s.last()
    }
}

/// The total value of a set of outputs.
pub fn total_value(values: &Vec<u64>) -> (r: u64)
    requires
        sum_values(values@) <= u64::MAX,
    ensures
        r == sum_values(values@),
{
    let mut sum: u64 = 0;
    let mut i: usize = 0;
    while i < values.len()
        invariant
            0 <= i <= values@.len(),
            sum == sum_values(values@.subrange(0, i as int)),
            sum_values(values@) <= u64::MAX,
        decreases values@.len() - i,
    {
        proof {
            lemma_sum_values_prefix_bounded(values@, i as int + 1);
            assert(values@.subrange(0, i + 1).drop_last() =~= values@.subrange(0, i as int));
        }
        sum = sum + values[i];
        i = i + 1;
    }
    proof {
        assert(values@.subrange(0, values@.len() as int) =~= values@);
    }
    sum
}

/// A prefix of a sequence of values sums to no more than the whole.
pub proof fn lemma_sum_values_prefix_bounded(s: Seq<u64>, n: int)
    requires
        0 <= n <= s.len(),
    ensures
        sum_values(s.subrange(0, n)) <= sum_values(s),
    decreases s.len() - n,
{
    if n < s.len() {
        lemma_sum_values_prefix_bounded(s, n + 1);
        assert(s.subrange(0, n + 1).drop_last() =~= s.subrange(0, n));
    } else {
        assert(s.subrange(0, n) =~= s);
    }
}

/// Weight of a claim transaction: the weight of the transaction without
/// witnesses plus the witness of each input.
pub open spec fn claim_weight(base_weight: u64, n_inputs: u64) -> int {
    base_weight + CLAIM_INPUT_WITNESS_SIZE * n_inputs
}

/// Fee of a claim transaction of weight `weight` at `sat_per_kw` satoshi per
/// thousand weight units, rounded up.
pub open spec fn claim_fee_sat(weight: int, sat_per_kw: u32) -> int {
    (weight * sat_per_kw + 999) / 1000
}

/// The value left for the claim output of a transaction spending `total`
/// satoshi in `n_inputs` inputs, after the fee; refused when the weight
/// does not fit in 64 bits, or when what is left is below the dust limit.
pub fn claim_output_value(
    total: u64,
    base_weight: u64,
    n_inputs: u64,
    sat_per_kw: u32,
    dust_limit_sat: u64,
) -> (r: Result<u64, SwapError>)
    requires
        CLAIM_INPUT_WITNESS_SIZE * n_inputs <= u64::MAX,
        claim_weight(base_weight, n_inputs) <= u64::MAX ==> claim_weight(base_weight, n_inputs)
            * sat_per_kw + 999 <= u64::MAX,
    ensures
        claim_weight(base_weight, n_inputs) > u64::MAX ==> r == Err::<u64, SwapError>(
            SwapError::InvalidWeight,
        ),
        claim_weight(base_weight, n_inputs) <= u64::MAX ==> {
            let fee = claim_fee_sat(claim_weight(base_weight, n_inputs), sat_per_kw);
            let left: int = if total >= fee {
                total - fee
            } else {
                0
            };
            &&& left < dust_limit_sat ==> r == Err::<u64, SwapError>(SwapError::AmountTooLow)
            &&& left >= dust_limit_sat ==> r == Ok::<u64, SwapError>(left as u64)
        },
{
    let witness = CLAIM_INPUT_WITNESS_SIZE * n_inputs;
    let weight = match base_weight.checked_add(witness) {
        Some(w) => w,
        None => return Err(SwapError::InvalidWeight),
    };
    let fee_msat = weight * (sat_per_kw as u64);
    let fee_sat = (fee_msat + 999) / 1000;
    let value_after_fees_sat = total.saturating_sub(fee_sat);
    if value_after_fees_sat < dust_limit_sat {
        return Err(SwapError::AmountTooLow);
    }
    Ok(value_after_fees_sat)
}

/// The opcodes of the swap scripts.
pub const OP_0: u8 = 0x00;
pub const OP_PUSHNUM_BASE: u8 = 0x50;
pub const OP_EQUALVERIFY: u8 = 0x88;
pub const OP_HASH160: u8 = 0xa9;
pub const OP_CHECKSIG: u8 = 0xac;
pub const OP_CHECKSIGVERIFY: u8 = 0xad;
pub const OP_CSV: u8 = 0xb2;

/// The minimal little-endian encoding of a positive script number, with an
/// extra zero byte where the top bit of the last byte is set.
pub open spec fn script_num_bytes(n: nat) -> Seq<u8>
    decreases n,
{
    if n == 0 {
        Seq::empty()
    } else if n <= 0xff {
        if n >= 0x80 {
            seq![n as u8, 0u8]
        } else {
            seq![n as u8]
        }
    } else {
        seq![(n % 256) as u8] + script_num_bytes(n / 256)
    }
}

/// The instructions that push a non-negative number: `OP_0`, `OP_1` to
/// `OP_16`, or the number's bytes behind their length.
pub open spec fn push_number(n: nat) -> Seq<u8> {
    if n == 0 {
        seq![OP_0]
    } else if n <= 16 {
        seq![(OP_PUSHNUM_BASE + n) as u8]
    } else {
        seq![script_num_bytes(n).len() as u8] + script_num_bytes(n)
    }
}

/// The x coordinate of a public key in its 33-byte compressed encoding.
pub open spec fn x_only(pubkey: [u8; 33]) -> Seq<u8> {
    pubkey@.subrange(1, 33)
}

/// The claim script of a swap: `OP_HASH160 <hash160> OP_EQUALVERIFY
/// <claim key> OP_CHECKSIG`, spendable with the preimage and the server's
/// signature.
pub open spec fn claim_script_bytes(hash160: Seq<u8>, claim_pubkey: [u8; 33]) -> Seq<u8> {
    seq![OP_HASH160, 20u8] + hash160 + seq![OP_EQUALVERIFY, 32u8] + x_only(claim_pubkey) + seq![
        OP_CHECKSIG,
    ]
}

/// The refund script of a swap: `<refund key> OP_CHECKSIGVERIFY <lock
/// time> OP_CHECKSEQUENCEVERIFY`, spendable by the user once the output
/// has `lock_time` blocks on top of its own.
pub open spec fn refund_script_bytes(refund_pubkey: [u8; 33], lock_time: u16) -> Seq<u8> {
    seq![32u8] + x_only(refund_pubkey) + seq![OP_CHECKSIGVERIFY] + push_number(lock_time as nat)
        + seq![OP_CSV]
}

proof fn lemma_script_num_len(n: nat)
    requires
        n <= u32::MAX,
    ensures
        script_num_bytes(n).len() <= if n <= 0xff {
            2int
        } else if n <= 0xffff {
            3int
        } else if n <= 0xffffff {
            4int
        } else {
            5int
        },
        n > 0 ==> script_num_bytes(n).len() >= 1,
    decreases n,
{
    if n > 0xff {
        assert(n / 256 < n);
        assert(n <= 0xffff ==> n / 256 <= 0xff);
        assert(n <= 0xffffff ==> n / 256 <= 0xffff);
        assert(n / 256 <= 0xffffff);
        lemma_script_num_len(n / 256);
    }
}

fn push_bytes(v: &mut Vec<u8>, bytes: &[u8])
    ensures
        final(v)@ == old(v)@ + bytes@,
{
    let mut i: usize = 0;
    while i < bytes.len()
        invariant
            0 <= i <= bytes@.len(),
            v@ == old(v)@ + bytes@.subrange(0, i as int),
        decreases bytes.len() - i,
    {
        v.push(bytes[i]);
        assert(v@ =~= old(v)@ + bytes@.subrange(0, i + 1));
        i = i + 1;
    }
    assert(bytes@.subrange(0, bytes@.len() as int) =~= bytes@);
}

/// The encoding of a positive script number.
pub fn script_num(n: u32) -> (r: Vec<u8>)
    ensures
        r@ == script_num_bytes(n as nat),
    decreases n,
{
    if n == 0 {
        return Vec::new();
    }
    if n <= 0xff {
        let mut r = Vec::new();
        r.push(n as u8);
        if n >= 0x80 {
            r.push(0u8);
        }
        assert(r@ =~= script_num_bytes(n as nat));
        return r;
    }
    let mut r = Vec::new();
    r.push((n % 256) as u8);
    let rest = script_num(n / 256);
    push_bytes(&mut r, rest.as_slice());
    assert(r@ =~= script_num_bytes(n as nat));
    r
}

/// The claim script of a swap from the ripemd160 of its payment hash and the
/// server's claim key.
pub fn claim_script(hash160: &[u8; 20], claim_pubkey: &[u8; 33]) -> (r: Vec<u8>)
    ensures
        r@ == claim_script_bytes(hash160@, *claim_pubkey),
{
    let mut r: Vec<u8> = Vec::new();
    r.push(OP_HASH160);
    r.push(20u8);
    push_bytes(&mut r, hash160.as_slice());
    r.push(OP_EQUALVERIFY);
    r.push(32u8);
    push_bytes(&mut r, &claim_pubkey.as_slice()[1..33]);
    r.push(OP_CHECKSIG);
    assert(r@ =~= claim_script_bytes(hash160@, *claim_pubkey));
    r
}

/// The refund script of a swap for the user's key and the lock time.
pub fn refund_script(refund_pubkey: &[u8; 33], lock_time: u16) -> (r: Vec<u8>)
    ensures
        r@ == refund_script_bytes(*refund_pubkey, lock_time),
{
    let mut r: Vec<u8> = Vec::new();
    r.push(32u8);
    push_bytes(&mut r, &refund_pubkey.as_slice()[1..33]);
    r.push(OP_CHECKSIGVERIFY);
    let ghost before = r@;
    if lock_time == 0 {
        r.push(OP_0);
    } else if lock_time <= 16 {
        r.push(OP_PUSHNUM_BASE + lock_time as u8);
    } else {
        let bytes = script_num(lock_time as u32);
        proof {
            lemma_script_num_len(lock_time as nat);
        }
        r.push(bytes.len() as u8);
        push_bytes(&mut r, bytes.as_slice());
    }
    assert(r@ =~= before + push_number(lock_time as nat));
    r.push(OP_CSV);
    assert(r@ =~= refund_script_bytes(*refund_pubkey, lock_time));
    r
}

/// Names the RIPEMD-160 digest that the bitcoin crate's hashes compute.
pub uninterp spec fn spec_ripemd160(data: Seq<u8>) -> Seq<u8>;

/// Computes the RIPEMD-160 digest of 32 bytes with
/// `bitcoin::hashes::ripemd160::Hash::hash`. The digest is named, not
/// stated.
#[verifier::external_body]
fn ripemd160(data: &[u8; 32]) -> (r: [u8; 20])
    ensures
        r@ == spec_ripemd160(data@),
{
    let digest = <bitcoin::hashes::ripemd160::Hash as bitcoin::hashes::Hash>::hash(data);
    bitcoin::hashes::Hash::to_byte_array(digest)
}

/// The claim script of a swap with payment hash `hash`: it commits to the
/// RIPEMD-160 digest of the hash.
pub fn swap_claim_script(hash: &PaymentHash, claim_pubkey: &[u8; 33]) -> (r: Vec<u8>)
    ensures
        r@ == claim_script_bytes(spec_ripemd160(hash.bytes@), *claim_pubkey),
{
    let hash160 = ripemd160(&hash.bytes);
    claim_script(&hash160, claim_pubkey)
}

/// What a new swap is, for its claim key: refused where its lock time
/// does not fit a relative lock; else made of the claim script for the
/// payment hash, the refund script for the lock time and the taproot
/// address of both, refused where that address cannot be built.
pub open spec fn new_swap_outcome(
    claim_privkey: [u8; 32],
    refund_pubkey: [u8; 33],
    hash: PaymentHash,
    lock_time: u32,
    creation_time: u64,
    network: Network,
    r: Result<Swap, SwapError>,
) -> bool {
    let claim_pubkey = spec_public_key_of(claim_privkey);
    let claim_script = claim_script_bytes(spec_ripemd160(hash.bytes@), claim_pubkey);
    let refund_script = refund_script_bytes(refund_pubkey, lock_time as u16);
    if lock_time > u16::MAX {
        r == Err::<Swap, SwapError>(SwapError::InvalidLockTime(lock_time))
    } else {
        match swap_address_spec(claim_pubkey, refund_pubkey, claim_script, refund_script, network) {
            None => r matches Err(SwapError::Taproot(_)),
            Some(address) => r matches Ok(swap) && swap.public.address@ == address
                && swap.creation_time == creation_time && swap.public.claim_pubkey == claim_pubkey
                && swap.public.claim_script@ == claim_script && swap.public.hash == hash
                && swap.public.lock_time == lock_time && swap.public.refund_pubkey == refund_pubkey
                && swap.public.refund_script@ == refund_script && swap.private.claim_privkey
                == claim_privkey,
        }
    }
}

/// Builds a swap around the claim key that the key provider returned.
pub fn swap_with_claim_key(
    claim_privkey: Result<[u8; 32], PrivateKeyError>,
    refund_pubkey: [u8; 33],
    hash: PaymentHash,
    lock_time: u32,
    creation_time: u64,
    network: Network,
) -> (r: Result<Swap, SwapError>)
    requires
        claim_privkey matches Ok(k) ==> is_secret_key(k@),
    ensures
        match claim_privkey {
            Err(e) => r == Err::<Swap, SwapError>(SwapError::PrivateKey(e)),
            Ok(k) => new_swap_outcome(
                k,
                refund_pubkey,
                hash,
                lock_time,
                creation_time,
                network,
                r,
            ),
        },
{
    let claim_privkey = match claim_privkey {
        Ok(k) => k,
        Err(e) => {
            return Err(SwapError::PrivateKey(e));
        },
    };
    let claim_pubkey = match public_key_of(&claim_privkey) {
        Some(k) => k,
        None => {
            return Err(SwapError::PrivateKey(PrivateKeyError::General(String::from_str("malformed or out-of-range secret key"))));
        },
    };
    let claim_script = swap_claim_script(&hash, &claim_pubkey);
    let lock_time = swap_lock_time(lock_time)?;
    let refund_script = refund_script(&refund_pubkey, lock_time);
    let address = match swap_address(&claim_pubkey, &refund_pubkey, &claim_script, &refund_script, network) {
        Some(a) => a,
        None => {
            return Err(SwapError::Taproot(String::from_str("could not build the swap's taproot address")));
        },
    };
    Ok(
        Swap {
            creation_time,
            public: SwapPublicData {
                address,
                claim_pubkey,
                claim_script,
                hash,
                lock_time,
                refund_pubkey,
                refund_script,
            },
            private: SwapPrivateData { claim_privkey },
        },
    )
}

/// `tx` is a claim transaction of `cl`, signed with some valid auxiliary
/// random bytes, with its inputs in the order that `claim_order_correct`
/// describes.
pub open spec fn claim_tx_signed(
    cl: Seq<ClaimableUtxo>,
    destination: Seq<u8>,
    value_sat: u64,
    lock_time: u32,
    tx: Seq<u8>,
) -> bool {
    exists|order: Seq<usize>, aux: Seq<[u8; 32]>|
        #[trigger] claim_signed_with(cl, order, destination, value_sat, lock_time, aux, tx)
}

/// The value that a claim transaction of `cl` to `destination` pays after
/// its fee, or why there is none.
pub open spec fn claim_tx_value(
    cl: Seq<ClaimableUtxo>,
    destination: Seq<u8>,
    sat_per_kw: u32,
    dust_limit_sat: u64,
) -> Result<u64, SwapError> {
    match claim_output_value_spec(
        sum_values(claimable_values(cl)),
        unsigned_claim_weight(cl.len() as nat, destination.len()) as int,
        cl.len() as int,
        sat_per_kw,
        dust_limit_sat,
    ) {
        Ok(v) => Ok(v as u64),
        Err(e) => Err(e),
    }
}

/// `tx` is the claim transaction of `cl` with the inputs in `order`, one
/// output of `value_sat`, the lock time, and each input signed with the
/// auxiliary random bytes of its position, each of them a valid secret key
/// as the key provider makes them.
pub open spec fn claim_signed_with(
    cl: Seq<ClaimableUtxo>,
    order: Seq<usize>,
    destination: Seq<u8>,
    value_sat: u64,
    lock_time: u32,
    aux: Seq<[u8; 32]>,
    tx: Seq<u8>,
) -> bool {
    &&& claim_order_correct(cl, order)
    &&& aux.len() == cl.len()
    &&& forall|k: int| 0 <= k < aux.len() ==> is_secret_key(#[trigger] aux[k]@)
    &&& signed_claim_prefix(cl, order, destination, value_sat, lock_time, aux, cl.len()) == Some(tx)
}

/// Creates swaps: a new claim key from its provider for each, locked for
/// `lock_time` blocks, on its network.
pub struct SwapService<P> {
    pub dust_limit_sat: u64,
    pub network: Network,
    pub privkey_provider: P,
    pub lock_time: u32,
}

impl<P: PrivateKeyProvider> SwapService<P> {
    pub fn new(network: Network, privkey_provider: P, lock_time: u32, dust_limit_sat: u64) -> (s:
        Self)
        ensures
            s.network == network,
            s.privkey_provider == privkey_provider,
            s.lock_time == lock_time,
            s.dust_limit_sat == dust_limit_sat,
    {
        SwapService { dust_limit_sat, network, privkey_provider, lock_time }
    }

    /// A new swap for the user's refund key and payment hash, created at
    /// `creation_time` (seconds since the unix epoch). Its claim key is
    /// whatever valid key the provider returned. Its refund lock counts from
    /// the confirmation of each output, so the height at which the swap is
    /// made does not enter it.
    pub fn create_swap(
        &self,
        refund_pubkey: [u8; 33],
        hash: PaymentHash,
        current_height: u64,
        creation_time: u64,
    ) -> (r: Result<Swap, SwapError>)
        ensures
            r matches Ok(swap) ==> is_secret_key(swap.private.claim_privkey@) && new_swap_outcome(
                swap.private.claim_privkey,
                refund_pubkey,
                hash,
                self.lock_time,
                creation_time,
                self.network,
                r,
            ),
            r matches Err(e) && !(e is PrivateKey) ==> exists|k: [u8; 32]|
                #[trigger] is_secret_key(k@) && new_swap_outcome(
                    k,
                    refund_pubkey,
                    hash,
                    self.lock_time,
                    creation_time,
                    self.network,
                    r,
                ),
            r matches Err(e) ==> e is PrivateKey || e is Taproot || (e == SwapError::InvalidLockTime(
                self.lock_time,
            ) && self.lock_time > u16::MAX),
            self.lock_time > u16::MAX ==> r is Err,
    {
        let key = self.privkey_provider.new_private_key();
        let ghost drawn = key;
        let r = swap_with_claim_key(
            key,
            refund_pubkey,
            hash,
            self.lock_time,
            creation_time,
            self.network,
        );
        proof {
            if let Ok(k) = drawn {
                assert(is_secret_key(k@));
            }
        }
        r
    }

    /// `n` fresh random values from the key provider, each a valid secret
    /// key; the first failure of the provider stops. Asked for none, it
    /// asks the provider nothing and gives none.
    fn fresh_aux(&self, n: usize) -> (r: Result<Vec<[u8; 32]>, PrivateKeyError>)
        ensures
            n == 0 ==> (r matches Ok(aux) && aux@.len() == 0),
            r matches Ok(aux) ==> aux@.len() == n && forall|k: int|
                0 <= k < aux@.len() ==> is_secret_key(#[trigger] aux@[k]@),
    {
        let mut aux: Vec<[u8; 32]> = Vec::new();
        let mut i: usize = 0;
        while i < n
            invariant
                0 <= i <= n,
                aux@.len() == i,
                forall|k: int| 0 <= k < aux@.len() ==> is_secret_key(#[trigger] aux@[k]@),
            decreases n - i,
        {
            let key = self.privkey_provider.new_private_key()?;
            aux.push(key);
            i = i + 1;
        }
        Ok(aux)
    }

    /// The server's partial signature and public nonce for input
    /// `input_index` of a refund transaction of the swap that spends
    /// `prevouts`, over the key aggregate tweaked by the swap's taproot tree.
    /// The nonce randomness is fresh from the key provider.
    pub fn partial_sign_refund_tx(
        &self,
        swap: &Swap,
        tx: &Vec<u8>,
        prevouts: &Vec<TxOut>,
        input_index: usize,
        their_pub_nonce: &[u8; 66],
    ) -> (r: Result<([u8; 32], [u8; 66]), SwapError>)
        ensures
            swap_tap_tweak(*swap) is None ==> (r matches Err(e) && e is Taproot),
            r matches Ok(signed) ==> refund_signed(
                *swap,
                tx@,
                prevout_views(prevouts@),
                input_index as int,
                *their_pub_nonce,
                signed,
            ),
            r matches Err(e) ==> e is Taproot || e is PrivateKey || e is Sign,
            swap_tap_tweak(*swap) is Some && is_secret_key(swap.private.claim_privkey@)
                && swap.public.claim_pubkey != spec_public_key_of(swap.private.claim_privkey)
                ==> (r matches Err(e) && e is Sign),
            r matches Err(e) && e is Taproot ==> swap_tap_tweak(*swap) is None || spec_key_spend_sighash(
                tx@,
                prevout_views(prevouts@),
                input_index as int,
            ) is None,
            r matches Err(e) && e is Sign ==> (is_secret_key(swap.private.claim_privkey@)
                && swap.public.claim_pubkey != spec_public_key_of(swap.private.claim_privkey)) || exists|
                session_rand: [u8; 32],
                extra_rand: [u8; 32],
            |
                #![trigger refund_partial_signature(*swap, tx@, prevout_views(prevouts@), input_index as int, *their_pub_nonce, session_rand, extra_rand)]
                is_secret_key(session_rand@) && is_secret_key(extra_rand@) && refund_partial_signature(
                    *swap,
                    tx@,
                    prevout_views(prevouts@),
                    input_index as int,
                    *their_pub_nonce,
                    session_rand,
                    extra_rand,
                ) is None,
    {
        let tweak = match tap_tweak(swap) {
            Some(t) => t,
            None => {
                return Err(SwapError::Taproot(String::from_str("could not build the swap's taproot tree")));
            },
        };
        match public_key_of(&swap.private.claim_privkey) {
            Some(key) => {
                if !same_public_key(&key, &swap.public.claim_pubkey) {
                    return Err(SwapError::Sign(String::from_str("claim key does not match the swap")));
                }
            },
            None => {},
        }
        let rand = match self.fresh_aux(2) {
            Ok(r) => r,
            Err(e) => {
                return Err(SwapError::PrivateKey(e));
            },
        };
        let session_rand = rand[0];
        let extra_rand = rand[1];
        let r = sign_refund_input(
            swap,
            &tweak,
            tx,
            prevouts,
            input_index,
            their_pub_nonce,
            &session_rand,
            &extra_rand,
        );
        match r {
            Ok(signed) => {
                assert(is_secret_key(session_rand@) && is_secret_key(extra_rand@));
                assert(refund_partial_signature(
                    *swap,
                    tx@,
                    prevout_views(prevouts@),
                    input_index as int,
                    *their_pub_nonce,
                    session_rand,
                    extra_rand,
                ) == Some(signed));
                assert(refund_signed(
                    *swap,
                    tx@,
                    prevout_views(prevouts@),
                    input_index as int,
                    *their_pub_nonce,
                    signed,
                ));
                Ok(signed)
            },
            Err(e) => {
                proof {
                    assert(is_secret_key(session_rand@) && is_secret_key(extra_rand@));
                    if e is Sign {
                        assert(refund_partial_signature(
                            *swap,
                            tx@,
                            prevout_views(prevouts@),
                            input_index as int,
                            *their_pub_nonce,
                            session_rand,
                            extra_rand,
                        ) is None);
                    }
                }
                Err(e)
            },
        }
    }

    /// The signed claim transaction of claimable outputs: inputs sorted by
    /// outpoint, the current height as lock time, everything but the fee at
    /// `sat_per_kw` paid to `destination`, and each input signed through its
    /// swap's claim script with fresh random bytes from the key provider.
    pub fn create_claim_tx(
        &self,
        claimables: &Vec<ClaimableUtxo>,
        sat_per_kw: u32,
        current_height: u64,
        destination: &Vec<u8>,
    ) -> (r: Result<Vec<u8>, SwapError>)
        requires
            claimables@.len() <= u32::MAX,
            destination@.len() <= u32::MAX,
            unsigned_claim_weight(claimables@.len() as nat, destination@.len()) <= usize::MAX,
            sum_values(claimable_values(claimables@)) <= u64::MAX,
            claim_weight(
                unsigned_claim_weight(claimables@.len() as nat, destination@.len()) as u64,
                claimables@.len() as u64,
            ) <= u64::MAX ==> claim_weight(
                unsigned_claim_weight(claimables@.len() as nat, destination@.len()) as u64,
                claimables@.len() as u64,
            ) * sat_per_kw + 999 <= u64::MAX,
        ensures
            (current_height as u32) >= LOCK_TIME_THRESHOLD ==> r == Err::<Vec<u8>, SwapError>(
                SwapError::InvalidBlockHeight(current_height as u32),
            ),
            (current_height as u32) < LOCK_TIME_THRESHOLD ==> match claim_tx_value(
                claimables@,
                destination@,
                sat_per_kw,
                self.dust_limit_sat,
            ) {
                Err(e) => r == Err::<Vec<u8>, SwapError>(e),
                Ok(value) => r matches Ok(tx) ==> claim_tx_signed(
                    claimables@,
                    destination@,
                    value,
                    current_height as u32,
                    tx@,
                ),
            },
            (current_height as u32) < LOCK_TIME_THRESHOLD && claim_tx_value(
                claimables@,
                destination@,
                sat_per_kw,
                self.dust_limit_sat,
            ) is Ok ==> (r matches Err(e) ==> e is PrivateKey || e is Taproot || e is Sign),
            r matches Err(e) ==> e is PrivateKey || e is Taproot || e is Sign || e is InvalidBlockHeight
                || e is AmountTooLow || e is InvalidWeight,
    {
        let plan = claim_tx_plan(claimables, destination, sat_per_kw, current_height, self.dust_limit_sat)?;
        let r = sign_claim_tx(
            &self.privkey_provider,
            claimables,
            &plan.input_order,
            destination,
            plan.output_value_sat,
            plan.lock_time,
        );
        proof {
            assert(claim_tx_value(claimables@, destination@, sat_per_kw, self.dust_limit_sat)
                == Ok::<u64, SwapError>(plan.output_value_sat));
        }
        match r {
            Ok(tx) => {
                proof {
                    let aux = choose|aux: Seq<[u8; 32]>|
                        #![trigger signed_claim_prefix(claimables@, plan.input_order@, destination@, plan.output_value_sat, plan.lock_time, aux, plan.input_order@.len())]
                        aux.len() == plan.input_order@.len() && (forall|k: int|
                            0 <= k < aux.len() ==> is_secret_key(#[trigger] aux[k]@))
                            && signed_claim_prefix(
                            claimables@,
                            plan.input_order@,
                            destination@,
                            plan.output_value_sat,
                            plan.lock_time,
                            aux,
                            plan.input_order@.len(),
                        ) == Some(tx@);
                    assert(claim_signed_with(
                        claimables@,
                        plan.input_order@,
                        destination@,
                        plan.output_value_sat,
                        current_height as u32,
                        aux,
                        tx@,
                    ));
                    assert(claim_tx_signed(
                        claimables@,
                        destination@,
                        plan.output_value_sat,
                        current_height as u32,
                        tx@,
                    ));
                }
                Ok(tx)
            },
            Err(e) => Err(e),
        }
    }
}

/// Lexicographic order of two byte strings of equal length: they agree up
/// to a position where the first has the smaller byte.
pub open spec fn bytes_lt(a: Seq<u8>, b: Seq<u8>) -> bool {
    exists|k: int|
        0 <= k < a.len() && k < b.len() && a.subrange(0, k) == b.subrange(0, k) && #[trigger] a[k]
            < #[trigger] b[k]
}

/// The order of outpoints: by txid bytes, then by output index.
pub open spec fn outpoint_lt(a: OutPoint, b: OutPoint) -> bool {
    bytes_lt(a.txid.bytes@, b.txid.bytes@) || (a.txid.bytes@ == b.txid.bytes@ && a.vout < b.vout)
}

proof fn lemma_bytes_lt_irreflexive(a: Seq<u8>)
    ensures
        !bytes_lt(a, a),
{
}

proof fn lemma_bytes_lt_transitive(a: Seq<u8>, b: Seq<u8>, c: Seq<u8>)
    requires
        bytes_lt(a, b),
        bytes_lt(b, c),
    ensures
        bytes_lt(a, c),
{
    let k1 = choose|k: int|
        0 <= k < a.len() && k < b.len() && a.subrange(0, k) == b.subrange(0, k) && #[trigger] a[k]
            < #[trigger] b[k];
    let k2 = choose|k: int|
        0 <= k < b.len() && k < c.len() && b.subrange(0, k) == c.subrange(0, k) && #[trigger] b[k]
            < #[trigger] c[k];
    let k = if k1 < k2 {
        k1
    } else {
        k2
    };
    assert(a.subrange(0, k) =~= c.subrange(0, k)) by {
        assert forall|j: int| 0 <= j < k implies a[j] == c[j] by {
            assert(a.subrange(0, k1)[j] == b.subrange(0, k1)[j]);
            assert(b.subrange(0, k2)[j] == c.subrange(0, k2)[j]);
        }
    }
    if k1 < k2 {
        assert(b.subrange(0, k2)[k] == c.subrange(0, k2)[k]);
    } else if k2 < k1 {
        assert(a.subrange(0, k1)[k] == b.subrange(0, k1)[k]);
    }
    assert(a[k] < c[k]);
}

/// The order of outpoints is a strict order.
pub proof fn lemma_outpoint_lt_strict(a: OutPoint, b: OutPoint, c: OutPoint)
    ensures
        !outpoint_lt(a, a),
        outpoint_lt(a, b) && outpoint_lt(b, c) ==> outpoint_lt(a, c),
{
    lemma_bytes_lt_irreflexive(a.txid.bytes@);
    if outpoint_lt(a, b) && outpoint_lt(b, c) {
        if bytes_lt(a.txid.bytes@, b.txid.bytes@) && bytes_lt(b.txid.bytes@, c.txid.bytes@) {
            lemma_bytes_lt_transitive(a.txid.bytes@, b.txid.bytes@, c.txid.bytes@);
        }
    }
}

proof fn lemma_first_difference(a: Seq<u8>, b: Seq<u8>, i: int) -> (k: int)
    requires
        a.len() == b.len(),
        0 <= i <= a.len(),
        a.subrange(0, i) == b.subrange(0, i),
        exists|j: int| i <= j < a.len() && a[j] != b[j],
    ensures
        i <= k < a.len(),
        a.subrange(0, k) == b.subrange(0, k),
        a[k] != b[k],
    decreases a.len() - i,
{
    if a[i] != b[i] {
        i
    } else {
        assert(a.subrange(0, i + 1) =~= b.subrange(0, i + 1)) by {
            assert forall|t: int| 0 <= t < i + 1 implies #[trigger] a.subrange(0, i + 1)[t]
                == b.subrange(0, i + 1)[t] by {
                if t < i {
                    assert(a.subrange(0, i)[t] == b.subrange(0, i)[t]);
                }
            }
        }
        let j = choose|j: int| i <= j < a.len() && a[j] != b[j];
        assert(j != i);
        lemma_first_difference(a, b, i + 1)
    }
}

proof fn lemma_bytes_lt_total(a: Seq<u8>, b: Seq<u8>)
    requires
        a.len() == b.len(),
        a != b,
    ensures
        bytes_lt(a, b) || bytes_lt(b, a),
{
    if forall|j: int| 0 <= j < a.len() ==> a[j] == b[j] {
        assert(a =~= b);
    }
    assert(a.subrange(0, 0) =~= b.subrange(0, 0));
    let k = lemma_first_difference(a, b, 0);
    if a[k] < b[k] {
        assert(bytes_lt(a, b));
    } else {
        assert(b.subrange(0, k) == a.subrange(0, k));
        assert(bytes_lt(b, a));
    }
}

/// Any two different outpoints are ordered one way or the other.
pub proof fn lemma_outpoint_lt_total(x: OutPoint, y: OutPoint)
    requires
        x != y,
    ensures
        outpoint_lt(x, y) || outpoint_lt(y, x),
{
    broadcast use vstd::array::group_array_axioms;

    if x.txid.bytes@ == y.txid.bytes@ {
        assert(x.txid.bytes =~= y.txid.bytes) by {
            assert forall|i: int| 0 <= i < 32 implies x.txid.bytes[i] == y.txid.bytes[i] by {
                assert(x.txid.bytes@[i] == y.txid.bytes@[i]);
            }
        }
        assert(x.txid == y.txid);
        assert(x.vout != y.vout);
    } else {
        lemma_bytes_lt_total(x.txid.bytes@, y.txid.bytes@);
    }
}

/// Outpoints in ascending order.
pub open spec fn outpoints_sorted(s: Seq<OutPoint>) -> bool {
    forall|p: int, q: int| 0 <= p < q < s.len() ==> !outpoint_lt(#[trigger] s[q], #[trigger] s[p])
}

/// Ordering the inputs of a claim by outpoint makes their order a function
/// of the outputs alone: two ascending lists of the same distinct outpoints
/// are equal, whatever order the outputs were listed in.
pub proof fn law_sorted_outpoints_unique(a: Seq<OutPoint>, b: Seq<OutPoint>)
    requires
        a.len() == b.len(),
        a.no_duplicates(),
        b.no_duplicates(),
        forall|x: OutPoint| a.contains(x) <==> b.contains(x),
        outpoints_sorted(a),
        outpoints_sorted(b),
    ensures
        a == b,
    decreases a.len(),
{
    if a.len() == 0 {
        assert(a =~= b);
    } else {
        if a[0] != b[0] {
            assert(b.contains(a[0]));
            let k = choose|k: int| 0 <= k < b.len() && b[k] == a[0];
            assert(a.contains(b[0]));
            let j = choose|j: int| 0 <= j < a.len() && a[j] == b[0];
            assert(k != 0 && j != 0);
            assert(!outpoint_lt(a[j], a[0]));
            assert(!outpoint_lt(b[k], b[0]));
            lemma_outpoint_lt_total(a[0], b[0]);
        }
        let ta = a.drop_first();
        let tb = b.drop_first();
        assert forall|x: OutPoint| ta.contains(x) <==> tb.contains(x) by {
            if ta.contains(x) {
                let i = choose|i: int| 0 <= i < ta.len() && ta[i] == x;
                assert(a[i + 1] == x);
                assert(a.contains(x));
                let m = choose|m: int| 0 <= m < b.len() && b[m] == x;
                assert(m != 0);
                assert(tb[m - 1] == x);
            }
            if tb.contains(x) {
                let i = choose|i: int| 0 <= i < tb.len() && tb[i] == x;
                assert(b[i + 1] == x);
                assert(b.contains(x));
                let m = choose|m: int| 0 <= m < a.len() && a[m] == x;
                assert(m != 0);
                assert(ta[m - 1] == x);
            }
        }
        assert(outpoints_sorted(ta)) by {
            assert forall|p: int, q: int| 0 <= p < q < ta.len() implies !outpoint_lt(
                #[trigger] ta[q],
                #[trigger] ta[p],
            ) by {
                assert(ta[q] == a[q + 1] && ta[p] == a[p + 1]);
            }
        }
        assert(outpoints_sorted(tb)) by {
            assert forall|p: int, q: int| 0 <= p < q < tb.len() implies !outpoint_lt(
                #[trigger] tb[q],
                #[trigger] tb[p],
            ) by {
                assert(tb[q] == b[q + 1] && tb[p] == b[p + 1]);
            }
        }
        assert(ta.no_duplicates()) by {
            assert forall|p: int, q: int| 0 <= p < ta.len() && 0 <= q < ta.len() && p != q implies ta[p] != ta[q] by {
                assert(ta[p] == a[p + 1] && ta[q] == a[q + 1]);
            }
        }
        assert(tb.no_duplicates()) by {
            assert forall|p: int, q: int| 0 <= p < tb.len() && 0 <= q < tb.len() && p != q implies tb[p] != tb[q] by {
                assert(tb[p] == b[p + 1] && tb[q] == b[q + 1]);
            }
        }
        law_sorted_outpoints_unique(ta, tb);
        assert(a =~= b) by {
            assert forall|i: int| 0 <= i < a.len() implies a[i] == b[i] by {
                if i > 0 {
                    assert(a[i] == ta[i - 1] && b[i] == tb[i - 1]);
                }
            }
        }
    }
}

fn outpoint_less(a: &OutPoint, b: &OutPoint) -> (r: bool)
    ensures
        r == outpoint_lt(*a, *b),
{
    let ghost x = a.txid.bytes@;
    let ghost y = b.txid.bytes@;
    let mut i: usize = 0;
    while i < 32
        invariant
            0 <= i <= 32,
            x == a.txid.bytes@,
            y == b.txid.bytes@,
            x.len() == 32,
            y.len() == 32,
            x.subrange(0, i as int) == y.subrange(0, i as int),
        decreases 32 - i,
    {
        if a.txid.bytes[i] < b.txid.bytes[i] {
            assert(x[i as int] < y[i as int]);
            return true;
        }
        if a.txid.bytes[i] > b.txid.bytes[i] {
            assert(!bytes_lt(x, y)) by {
                if bytes_lt(x, y) {
                    let k = choose|k: int|
                        0 <= k < x.len() && k < y.len() && x.subrange(0, k) == y.subrange(0, k)
                            && #[trigger] x[k] < #[trigger] y[k];
                    if k < i {
                        assert(x.subrange(0, i as int)[k] == y.subrange(0, i as int)[k]);
                    } else if k > i {
                        assert(x.subrange(0, k)[i as int] == y.subrange(0, k)[i as int]);
                    }
                }
            }
            assert(x != y) by {
                assert(x[i as int] != y[i as int]);
            }
            return false;
        }
        assert(x.subrange(0, i + 1) =~= y.subrange(0, i + 1)) by {
            assert forall|j: int| 0 <= j < i + 1 implies x[j] == y[j] by {
                if j < i {
                    assert(x.subrange(0, i as int)[j] == y.subrange(0, i as int)[j]);
                }
            }
        }
        i = i + 1;
    }
    assert(x =~= y) by {
        assert(x.subrange(0, 32) =~= x);
        assert(y.subrange(0, 32) =~= y);
    }
    proof {
        lemma_bytes_lt_irreflexive(x);
    }
    a.vout < b.vout
}

/// The order in which a claim transaction spends its outputs: sorted by
/// outpoint, outputs at the same outpoint in their given order, so that
/// the same outputs always give the same transaction.
pub fn claim_input_order(claimables: &Vec<ClaimableUtxo>) -> (r: Vec<usize>)
    ensures
        claim_order_correct(claimables@, r@),
{
    let ghost c = claimables@;
    let n = claimables.len();
    let mut r: Vec<usize> = Vec::new();
    let mut i: usize = 0;
    while i < n
        invariant
            n == c.len(),
            c == claimables@,
            i <= n,
            r@.len() == i,
            forall|k: int| 0 <= k < r@.len() ==> #[trigger] r@[k] < i,
            forall|j: usize| j < i ==> #[trigger] r@.contains(j),
            forall|p: int, q: int| 0 <= p < q < r@.len() ==> #[trigger] r@[p] != #[trigger] r@[q],
            forall|p: int, q: int|
                0 <= p < q < r@.len() ==> !outpoint_lt(
                    c[#[trigger] r@[q] as int].utxo.outpoint,
                    c[#[trigger] r@[p] as int].utxo.outpoint,
                ),
            forall|p: int, q: int|
                0 <= p < q < r@.len() && c[#[trigger] r@[p] as int].utxo.outpoint
                    == c[#[trigger] r@[q] as int].utxo.outpoint ==> r@[p] < r@[q],
        decreases n - i,
    {
        let x = claimables[i].utxo.outpoint;
        let mut pos: usize = 0;
        while pos < r.len()
            invariant
                n == c.len(),
                c == claimables@,
                i < n,
                x == c[i as int].utxo.outpoint,
                pos <= r@.len(),
                forall|k: int| 0 <= k < r@.len() ==> #[trigger] r@[k] < i,
                forall|k: int| 0 <= k < pos ==> !outpoint_lt(x, c[#[trigger] r@[k] as int].utxo.outpoint),
            ensures
                pos <= r@.len(),
                forall|k: int| 0 <= k < pos ==> !outpoint_lt(x, c[#[trigger] r@[k] as int].utxo.outpoint),
                pos < r@.len() ==> outpoint_lt(x, c[r@[pos as int] as int].utxo.outpoint),
            decreases r@.len() - pos,
        {
            if outpoint_less(&x, &claimables[r[pos]].utxo.outpoint) {
                break;
            }
            pos = pos + 1;
        }
        let ghost old_r = r@;
        r.insert(pos, i);
        proof {
            assert(r@ == old_r.insert(pos as int, i));
            assert forall|p: int, q: int| 0 <= p < q < r@.len() implies !outpoint_lt(
                c[#[trigger] r@[q] as int].utxo.outpoint,
                c[#[trigger] r@[p] as int].utxo.outpoint,
            ) by {
                if q == pos {
                    assert(r@[p] == old_r[p]);
                } else if p == pos {
                    assert(r@[q] == old_r[q - 1]);
                    let y = c[old_r[pos as int] as int].utxo.outpoint;
                    let z = c[old_r[q - 1] as int].utxo.outpoint;
                    lemma_outpoint_lt_strict(z, x, y);
                    if q - 1 > pos {
                        assert(!outpoint_lt(z, y));
                    }
                } else {
                    let op = if p < pos { p } else { p - 1 };
                    let oq = if q < pos { q } else { q - 1 };
                    assert(r@[p] == old_r[op]);
                    assert(r@[q] == old_r[oq]);
                }
            }
            assert forall|p: int, q: int|
                0 <= p < q < r@.len() && c[#[trigger] r@[p] as int].utxo.outpoint
                    == c[#[trigger] r@[q] as int].utxo.outpoint implies r@[p] < r@[q] by {
                if q == pos {
                    assert(r@[p] == old_r[p]);
                } else if p == pos {
                    let y = c[old_r[pos as int] as int].utxo.outpoint;
                    assert(r@[q] == old_r[q - 1]);
                    lemma_outpoint_lt_strict(x, y, y);
                    if q - 1 > pos {
                        assert(!outpoint_lt(c[old_r[q - 1] as int].utxo.outpoint, y));
                    }
                } else {
                    let op = if p < pos { p } else { p - 1 };
                    let oq = if q < pos { q } else { q - 1 };
                    assert(r@[p] == old_r[op]);
                    assert(r@[q] == old_r[oq]);
                }
            }
            assert forall|p: int, q: int| 0 <= p < q < r@.len() implies #[trigger] r@[p]
                != #[trigger] r@[q] by {
                if p != pos && q != pos {
                    let op = if p < pos { p } else { p - 1 };
                    let oq = if q < pos { q } else { q - 1 };
                    assert(r@[p] == old_r[op]);
                    assert(r@[q] == old_r[oq]);
                } else if p == pos {
                    assert(r@[q] == old_r[q - 1]);
                } else {
                    assert(r@[p] == old_r[p]);
                }
            }
            assert forall|k: int| 0 <= k < r@.len() implies #[trigger] r@[k] < i + 1 by {
                if k < pos {
                    assert(r@[k] == old_r[k]);
                } else if k > pos {
                    assert(r@[k] == old_r[k - 1]);
                }
            }
            assert forall|j: usize| j < i + 1 implies #[trigger] r@.contains(j) by {
                if j == i {
                    assert(r@[pos as int] == i);
                } else {
                    assert(old_r.contains(j));
                    let k = choose|k: int| 0 <= k < old_r.len() && old_r[k] == j;
                    if k < pos {
                        assert(r@[k] == old_r[k]);
                    } else {
                        assert(r@[k + 1] == old_r[k]);
                    }
                }
            }
        }
        i = i + 1;
    }
    r
}

/// Bytes of the compact size encoding of a count.
pub open spec fn varint_size(n: nat) -> nat {
    if n <= 0xfc {
        1
    } else if n <= 0xffff {
        3
    } else if n <= 0xffff_ffff {
        5
    } else {
        9
    }
}

/// Weight of a claim transaction before its witnesses are added: version,
/// `n_inputs` inputs of an outpoint, an empty script and a sequence, one
/// output paying to a script of `script_len` bytes, and the lock time, each
/// byte counting four times. A transaction without inputs is weighed in the
/// witness encoding, which adds its two marker bytes once.
pub open spec fn unsigned_claim_weight(n_inputs: nat, script_len: nat) -> nat {
    let base = 4 + varint_size(n_inputs) + 41 * n_inputs + 1 + 8 + varint_size(script_len)
        + script_len + 4;
    4 * base + if n_inputs == 0 {
        2nat
    } else {
        0nat
    }
}

/// Weighs a claim transaction without witnesses with the bitcoin crate's
/// `Transaction::weight`: version 2, `n_inputs` inputs with empty scripts
/// and witnesses, one output to `destination`. The weight depends only on
/// the number of inputs and the length of the output script.
#[verifier::external_body]
pub(crate) fn unsigned_tx_weight(n_inputs: usize, destination: &Vec<u8>) -> (w: u64)
    requires
        n_inputs <= u32::MAX,
        destination@.len() <= u32::MAX,
        unsigned_claim_weight(n_inputs as nat, destination@.len()) <= usize::MAX,
    ensures
        w == unsigned_claim_weight(n_inputs as nat, destination@.len()),
{
    let input = bitcoin::TxIn { sequence: bitcoin::Sequence::ZERO, ..Default::default() };
    let output = bitcoin::TxOut {
        value: bitcoin::Amount::ZERO,
        script_pubkey: bitcoin::ScriptBuf::from_bytes(destination.clone()),
    };
    let tx = bitcoin::Transaction {
        version: bitcoin::transaction::Version::TWO,
        lock_time: bitcoin::absolute::LockTime::ZERO,
        input: vec![input; n_inputs],
        output: vec![output],
    };
    tx.weight().to_wu()
}

/// The lock time of a claim transaction: the current height, truncated to
/// 32 bits, which must stay a block height.
pub fn claim_lock_time(current_height: u64) -> (r: Result<u32, SwapError>)
    ensures
        (current_height as u32) < LOCK_TIME_THRESHOLD ==> r == Ok::<u32, SwapError>(
            current_height as u32,
        ),
        (current_height as u32) >= LOCK_TIME_THRESHOLD ==> r == Err::<u32, SwapError>(
            SwapError::InvalidBlockHeight(current_height as u32),
        ),
{
    let height = current_height as u32;
    if height < LOCK_TIME_THRESHOLD {
        Ok(height)
    } else {
        Err(SwapError::InvalidBlockHeight(height))
    }
}

/// The values of the claimable outputs, in order.
pub open spec fn claimable_values(cl: Seq<ClaimableUtxo>) -> Seq<u64> {
    Seq::new(cl.len(), |i: int| cl[i].utxo.tx_out.value_sat)
}

/// What a claim transaction is made of, before it is signed.
#[derive(Debug)]
pub struct ClaimTxPlan {
    /// The claimable outputs in input order.
    pub input_order: Vec<usize>,
    pub lock_time: u32,
    /// The value of the single output, after the fee.
    pub output_value_sat: u64,
}

/// Plans the claim transaction of a set of claimable outputs: inputs sorted
/// by outpoint, the current height as lock time, and everything but the fee
/// paid to the destination; refused when the height is no block height, the
/// weight overflows, or what is left is below the dust limit.
pub fn claim_tx_plan(
    claimables: &Vec<ClaimableUtxo>,
    destination: &Vec<u8>,
    sat_per_kw: u32,
    current_height: u64,
    dust_limit_sat: u64,
) -> (r: Result<ClaimTxPlan, SwapError>)
    requires
        claimables@.len() <= u32::MAX,
        destination@.len() <= u32::MAX,
        unsigned_claim_weight(claimables@.len() as nat, destination@.len()) <= usize::MAX,
        sum_values(claimable_values(claimables@)) <= u64::MAX,
        claim_weight(
            unsigned_claim_weight(claimables@.len() as nat, destination@.len()) as u64,
            claimables@.len() as u64,
        ) <= u64::MAX ==> claim_weight(
            unsigned_claim_weight(claimables@.len() as nat, destination@.len()) as u64,
            claimables@.len() as u64,
        ) * sat_per_kw + 999 <= u64::MAX,
    ensures
        (current_height as u32) >= LOCK_TIME_THRESHOLD ==> r == Err::<ClaimTxPlan, SwapError>(
            SwapError::InvalidBlockHeight(current_height as u32),
        ),
        (current_height as u32) < LOCK_TIME_THRESHOLD ==> {
            let outcome = claim_output_value_spec(
                sum_values(claimable_values(claimables@)),
                unsigned_claim_weight(claimables@.len() as nat, destination@.len()) as int,
                claimables@.len() as int,
                sat_per_kw,
                dust_limit_sat,
            );
            match r {
                Ok(plan) => outcome == Ok::<int, SwapError>(plan.output_value_sat as int)
                    && plan.lock_time == current_height as u32 && claim_order_correct(
                    claimables@,
                    plan.input_order@,
                ),
                Err(e) => outcome == Err::<int, SwapError>(e),
            }
        },
{
    let input_order = claim_input_order(claimables);
    let mut total: u64 = 0;
    let mut i: usize = 0;
    while i < claimables.len()
        invariant
            0 <= i <= claimables@.len(),
            sum_values(claimable_values(claimables@)) <= u64::MAX,
            total == sum_values(claimable_values(claimables@).subrange(0, i as int)),
        decreases claimables@.len() - i,
    {
        proof {
            let v = claimable_values(claimables@);
            lemma_sum_values_prefix_bounded(v, i as int + 1);
            assert(v.subrange(0, i + 1).drop_last() =~= v.subrange(0, i as int));
        }
        total = total + claimables[i].utxo.tx_out.value_sat;
        i = i + 1;
    }
    proof {
        assert(claimable_values(claimables@).subrange(0, claimables@.len() as int)
            =~= claimable_values(claimables@));
    }
    let lock_time = claim_lock_time(current_height)?;
    let base_weight = unsigned_tx_weight(claimables.len(), destination);
    let n = claimables.len() as u64;
    assert(CLAIM_INPUT_WITNESS_SIZE * n <= u64::MAX) by (nonlinear_arith)
        requires
            n <= u32::MAX,
            CLAIM_INPUT_WITNESS_SIZE == 209,
    ;
    let output_value_sat = claim_output_value(total, base_weight, n, sat_per_kw, dust_limit_sat)?;
    Ok(ClaimTxPlan { input_order, lock_time, output_value_sat })
}

/// The outcome of paying `total` satoshi, less the fee of a transaction of
/// `base_weight` plus `n_inputs` claim witnesses, to one output.
pub open spec fn claim_output_value_spec(
    total: int,
    base_weight: int,
    n_inputs: int,
    sat_per_kw: u32,
    dust_limit_sat: u64,
) -> Result<int, SwapError> {
    let weight = base_weight + CLAIM_INPUT_WITNESS_SIZE * n_inputs;
    if weight > u64::MAX {
        Err(SwapError::InvalidWeight)
    } else {
        let fee = claim_fee_sat(weight, sat_per_kw);
        let left: int = if total >= fee {
            total - fee
        } else {
            0
        };
        if left < dust_limit_sat {
            Err(SwapError::AmountTooLow)
        } else {
            Ok(left)
        }
    }
}

/// The input order that `claim_input_order` promises: every output once,
/// sorted by outpoint, outputs at one outpoint in their given order.
pub open spec fn claim_order_correct(cl: Seq<ClaimableUtxo>, r: Seq<usize>) -> bool {
    &&& r.len() == cl.len()
    &&& forall|k: int| 0 <= k < r.len() ==> #[trigger] r[k] < cl.len()
    &&& forall|j: usize| j < cl.len() ==> #[trigger] r.contains(j)
    &&& forall|p: int, q: int| 0 <= p < q < r.len() ==> #[trigger] r[p] != #[trigger] r[q]
    &&& forall|p: int, q: int|
        0 <= p < q < r.len() ==> !outpoint_lt(
            cl[#[trigger] r[q] as int].utxo.outpoint,
            cl[#[trigger] r[p] as int].utxo.outpoint,
        )
    &&& forall|p: int, q: int|
        0 <= p < q < r.len() && cl[#[trigger] r[p] as int].utxo.outpoint
            == cl[#[trigger] r[q] as int].utxo.outpoint ==> r[p] < r[q]
}

/// The outpoints of a claim's inputs, in input order.
pub open spec fn ordered_outpoints(cl: Seq<ClaimableUtxo>, r: Seq<usize>) -> Seq<OutPoint> {
    Seq::new(r.len(), |k: int| cl[r[k] as int].utxo.outpoint)
}

/// No two claimable outputs share an outpoint.
pub open spec fn outpoints_distinct(cl: Seq<ClaimableUtxo>) -> bool {
    forall|i: int, j: int|
        0 <= i < cl.len() && 0 <= j < cl.len() && i != j ==> #[trigger] cl[i].utxo.outpoint
            != #[trigger] cl[j].utxo.outpoint
}

/// Some claimable output is at `op`.
pub open spec fn holds_outpoint(cl: Seq<ClaimableUtxo>, op: OutPoint) -> bool {
    exists|i: int| 0 <= i < cl.len() && #[trigger] cl[i].utxo.outpoint == op
}

proof fn lemma_ordered_outpoints(cl: Seq<ClaimableUtxo>, r: Seq<usize>)
    requires
        claim_order_correct(cl, r),
        outpoints_distinct(cl),
        cl.len() <= usize::MAX,
    ensures
        outpoints_sorted(ordered_outpoints(cl, r)),
        ordered_outpoints(cl, r).no_duplicates(),
        forall|x: OutPoint| ordered_outpoints(cl, r).contains(x) <==> holds_outpoint(cl, x),
{
    let m = ordered_outpoints(cl, r);
    assert forall|p: int, q: int| 0 <= p < q < m.len() implies !outpoint_lt(
        #[trigger] m[q],
        #[trigger] m[p],
    ) by {
        assert(m[q] == cl[r[q] as int].utxo.outpoint && m[p] == cl[r[p] as int].utxo.outpoint);
    }
    assert forall|p: int, q: int| 0 <= p < m.len() && 0 <= q < m.len() && p != q implies m[p]
        != m[q] by {
        let (a, b) = if p < q { (p, q) } else { (q, p) };
        assert(r[a] != r[b]);
        assert(cl[r[a] as int].utxo.outpoint != cl[r[b] as int].utxo.outpoint);
    }
    assert forall|x: OutPoint| m.contains(x) <==> holds_outpoint(cl, x) by {
        if m.contains(x) {
            let k = choose|k: int| 0 <= k < m.len() && m[k] == x;
            assert(cl[r[k] as int].utxo.outpoint == x);
        }
        if holds_outpoint(cl, x) {
            let i = choose|i: int| 0 <= i < cl.len() && #[trigger] cl[i].utxo.outpoint == x;
            assert(r.contains(i as usize));
            let k = choose|k: int| 0 <= k < r.len() && r[k] == i as usize;
            assert(m[k] == x);
        }
    }
}

/// Sorting by outpoint crafts the same claim transaction whatever order
/// the outputs were listed in: two listings of the same distinct outputs
/// give the inputs the same outpoints in the same order, and so the same
/// unsigned transaction.
pub proof fn law_claim_order_ignores_listing(
    cl1: Seq<ClaimableUtxo>,
    r1: Seq<usize>,
    cl2: Seq<ClaimableUtxo>,
    r2: Seq<usize>,
)
    requires
        claim_order_correct(cl1, r1),
        claim_order_correct(cl2, r2),
        outpoints_distinct(cl1),
        outpoints_distinct(cl2),
        cl1.len() == cl2.len(),
        cl1.len() <= usize::MAX,
        forall|x: OutPoint| holds_outpoint(cl1, x) <==> holds_outpoint(cl2, x),
    ensures
        ordered_outpoints(cl1, r1) == ordered_outpoints(cl2, r2),
        forall|destination: Seq<u8>, value_sat: u64, lock_time: u32|
            #[trigger] unsigned_claim_tx_spec(ordered_outpoints(cl1, r1), destination, value_sat, lock_time)
                == unsigned_claim_tx_spec(ordered_outpoints(cl2, r2), destination, value_sat, lock_time),
{
    lemma_ordered_outpoints(cl1, r1);
    lemma_ordered_outpoints(cl2, r2);
    let m1 = ordered_outpoints(cl1, r1);
    let m2 = ordered_outpoints(cl2, r2);
    assert forall|x: OutPoint| m1.contains(x) <==> m2.contains(x) by {
        assert(m1.contains(x) <==> holds_outpoint(cl1, x));
        assert(m2.contains(x) <==> holds_outpoint(cl2, x));
    }
    law_sorted_outpoints_unique(ordered_outpoints(cl1, r1), ordered_outpoints(cl2, r2));
}

} // verus!
