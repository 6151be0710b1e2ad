use vstd::prelude::*;

use crate::chain::types::{bytes32_from_slice, Network};
use crate::internal_server::{parse_address, spec_parse_address};
use crate::lightning::PaymentResult;
use crate::public_server::{parse_public_key, spec_parse_public_key};
use crate::swap::privkey_provider::{is_secret_key, secret_key_from_bytes};
use crate::swap::swap_repository::GetSwapsError;
use crate::swap::swap_service::{PaymentHash, Swap, SwapPrivateData, SwapPublicData, SwapState};

verus! {

/// The columns of a swap's state in the `swaps` table, each behind the
/// table alias `prefix`, one per line.
pub open spec fn swap_state_fields_text(prefix: Seq<char>) -> Seq<char> {
    prefix + ".address\n         , "@ + prefix + ".claim_privkey\n         , "@ + prefix
        + ".claim_pubkey\n         , "@ + prefix + ".claim_script\n         , "@ + prefix
        + ".creation_time\n         , "@ + prefix + ".lock_time\n         , "@ + prefix
        + ".payment_hash\n         , "@ + prefix + ".preimage\n         , "@ + prefix
        + ".refund_pubkey\n         , "@ + prefix + ".refund_script\n         "@
}

/// The select list of a swap's state, with the columns behind the table
/// alias `prefix`.
pub fn swap_state_fields(prefix: &str) -> (r: String)
    ensures
        r@ == swap_state_fields_text(prefix@),
{
    let mut r = String::from_str(prefix);
    r.append(".address\n         , ");
    r.append(prefix);
    r.append(".claim_privkey\n         , ");
    r.append(prefix);
    r.append(".claim_pubkey\n         , ");
    r.append(prefix);
    r.append(".claim_script\n         , ");
    r.append(prefix);
    r.append(".creation_time\n         , ");
    r.append(prefix);
    r.append(".lock_time\n         , ");
    r.append(prefix);
    r.append(".payment_hash\n         , ");
    r.append(prefix);
    r.append(".preimage\n         , ");
    r.append(prefix);
    r.append(".refund_pubkey\n         , ");
    r.append(prefix);
    r.append(".refund_script\n         ");
    r
}

/// The columns of a swap's row in the `swaps` table, as read.
pub struct SwapColumns {
    pub address: String,
    pub claim_privkey: Vec<u8>,
    pub claim_pubkey: Vec<u8>,
    pub claim_script: Vec<u8>,
    /// Seconds since the unix epoch.
    pub creation_time: i64,
    /// The swap's lock height.
    pub lock_time: i32,
    pub payment_hash: Vec<u8>,
    pub preimage: Option<Vec<u8>>,
    pub refund_pubkey: Vec<u8>,
    pub refund_script: Vec<u8>,
}

/// The columns hold a swap: a creation time after the epoch, an address of
/// the network, two curve points, a 32-byte hash and a valid secret key.
pub open spec fn swap_columns_valid(c: SwapColumns, network: Network) -> bool {
    &&& c.creation_time >= 0
    &&& spec_parse_address(c.address@, network) matches Some(Some(_))
    &&& spec_parse_public_key(c.claim_pubkey@) is Some
    &&& c.payment_hash@.len() == 32
    &&& spec_parse_public_key(c.refund_pubkey@) is Some
    &&& c.claim_privkey@.len() == 32
    &&& is_secret_key(c.claim_privkey@)
}

/// Reads a swap's state from its row: each column must hold what the swap
/// needs, and the preimage, where there is one, must be 32 bytes.
pub fn swap_state_from_columns(c: SwapColumns, network: Network) -> (r: Result<SwapState, GetSwapsError>)
    ensures
        !swap_columns_valid(c, network) ==> (r matches Err(e) && e is General),
        swap_columns_valid(c, network) && (c.preimage matches Some(p) && p@.len() != 32) ==> (r matches Err(e)
            && e is InvalidPreimage),
        r matches Ok(state) ==> {
            &&& swap_columns_valid(c, network)
            &&& state.swap.creation_time == c.creation_time
            &&& Some(Some(state.swap.public.address@)) == spec_parse_address(c.address@, network)
            &&& Some(state.swap.public.claim_pubkey@) == spec_parse_public_key(c.claim_pubkey@)
            &&& state.swap.public.claim_script@ == c.claim_script@
            &&& state.swap.public.hash.bytes@ == c.payment_hash@
            &&& state.swap.public.lock_time == c.lock_time as u16
            &&& Some(state.swap.public.refund_pubkey@) == spec_parse_public_key(c.refund_pubkey@)
            &&& state.swap.public.refund_script@ == c.refund_script@
            &&& state.swap.private.claim_privkey@ == c.claim_privkey@
            &&& match c.preimage {
                None => state.preimage is None,
                Some(p) => state.preimage matches Some(q) && q@ == p@,
            }
        },
        swap_columns_valid(c, network) && !(c.preimage matches Some(p) && p@.len() != 32) ==> r is Ok,
{
    if c.creation_time < 0 {
        return Err(GetSwapsError::General(String::from_str("invalid timestamp")));
    }
    let address = match parse_address(&c.address, network) {
        Ok(a) => a,
        Err(_) => {
            return Err(GetSwapsError::General(String::from_str("invalid address")));
        },
    };
    let claim_pubkey = match parse_public_key(&c.claim_pubkey) {
        Some(k) => k,
        None => {
            return Err(GetSwapsError::General(String::from_str("invalid claim pubkey")));
        },
    };
    let hash = match bytes32_from_slice(&c.payment_hash) {
        Some(h) => PaymentHash { bytes: h },
        None => {
            return Err(GetSwapsError::General(String::from_str("invalid payment hash")));
        },
    };
    let refund_pubkey = match parse_public_key(&c.refund_pubkey) {
        Some(k) => k,
        None => {
            return Err(GetSwapsError::General(String::from_str("invalid refund pubkey")));
        },
    };
    let claim_privkey = match bytes32_from_slice(&c.claim_privkey) {
        Some(bytes) => match secret_key_from_bytes(&bytes) {
            Some(k) => k,
            None => {
                return Err(GetSwapsError::General(String::from_str("invalid claim privkey")));
            },
        },
        None => {
            return Err(GetSwapsError::General(String::from_str("invalid claim privkey")));
        },
    };
    let preimage = preimage_column(c.preimage)?;
    let swap = Swap {
        creation_time: c.creation_time as u64,
        public: SwapPublicData {
            address,
            claim_pubkey,
            claim_script: c.claim_script,
            hash,
            lock_time: c.lock_time as u16,
            refund_pubkey,
            refund_script: c.refund_script,
        },
        private: SwapPrivateData { claim_privkey },
    };
    Ok(SwapState { swap, preimage })
}

/// The preimage column of a swap: absent, or exactly 32 bytes
/// (`InvalidPreimage` otherwise).
pub fn preimage_column(column: Option<Vec<u8>>) -> (r: Result<Option<[u8; 32]>, GetSwapsError>)
    ensures
        match column {
            None => r matches Ok(None),
            Some(bytes) => match r {
                Ok(Some(p)) => bytes@.len() == 32 && p@ == bytes@,
                Ok(None) => false,
                Err(e) => bytes@.len() != 32 && e is InvalidPreimage,
            },
        },
{
    match column {
        None => Ok(None),
        Some(bytes) => match crate::lightning::preimage_from_bytes(&bytes) {
            Ok(p) => Ok(Some(p)),
            Err(_) => Err(GetSwapsError::InvalidPreimage),
        },
    }
}

/// Errors of reading the payment attempts of a swap.
#[derive(Debug)]
pub enum GetPaymentAttemptsError {
    InvalidPreimage,
    General(String),
}

/// The result of a payment attempt from its columns: none while `success`
/// is unset; a success needs a preimage of exactly 32 bytes; a failure
/// carries its error, or `unknown error` where none was stored.
pub fn payment_result_columns(
    success: Option<bool>,
    preimage: Option<Vec<u8>>,
    error: Option<String>,
) -> (r: Result<Option<PaymentResult>, GetPaymentAttemptsError>)
    ensures
        match success {
            None => r matches Ok(None),
            Some(true) => match preimage {
                Some(bytes) => if bytes@.len() == 32 {
                    r matches Ok(Some(PaymentResult::Success { preimage: p })) && p@ == bytes@
                } else {
                    r matches Err(GetPaymentAttemptsError::InvalidPreimage)
                },
                None => r matches Err(GetPaymentAttemptsError::InvalidPreimage),
            },
            Some(false) => r matches Ok(Some(PaymentResult::Failure { error: e })) && e@ == match error {
                Some(text) => text@,
                None => "unknown error"@,
            },
        },
{
    match success {
        None => Ok(None),
        Some(true) => match preimage {
            Some(bytes) => match crate::chain::types::bytes32_from_slice(&bytes) {
                Some(p) => Ok(Some(PaymentResult::Success { preimage: p })),
                None => Err(GetPaymentAttemptsError::InvalidPreimage),
            },
            None => Err(GetPaymentAttemptsError::InvalidPreimage),
        },
        Some(false) => {
            let e = match error {
                Some(text) => text,
                None => String::from_str("unknown error"),
            };
            Ok(Some(PaymentResult::Failure { error: e }))
        },
    }
}

} // verus!
