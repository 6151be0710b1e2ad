use vstd::prelude::*;

use crate::chain::client::BroadcastError;

verus! {

/// Answer of `getbestblockhash`.
#[derive(Debug)]
pub struct GetBestBlockHashResponse {
    pub hex: String,
}

/// Answer of `getblockheader`.
#[derive(Debug)]
pub struct GetBlockHeaderResponse {
    pub hash: String,
    pub height: u64,
    pub previousblockhash: String,
}

/// Answer of `getblock` at verbosity 0.
#[derive(Debug)]
pub struct GetBlockResponse {
    pub hex: String,
}

/// Answer of `getblockcount`.
#[derive(Debug)]
pub struct GetBlockCountResponse {
    pub n: u64,
}

/// Answer of `getrawtransaction`.
#[derive(Debug)]
pub struct GetRawTransactionResponse {
    pub str: String,
}

/// Answer of `sendrawtransaction`.
#[derive(Debug)]
pub struct SendRawTransactionResponse {
    pub hex: String,
}

/// The confirmation target that bitcoind's `estimatesmartfee` accepts: the
/// requested target clamped to 1..=1008 blocks.
pub fn clamp_conf_target(conf_target: i32) -> (r: u32)
    ensures
        conf_target < 1 ==> r == 1,
        conf_target > 1008 ==> r == 1008,
        1 <= conf_target <= 1008 ==> r == conf_target,
{
    if conf_target < 1 {
        1
    } else if conf_target > 1008 {
        1008
    } else {
        conf_target as u32
    }
}

/// Whether `needle` occurs in `hay` at position `k`.
pub open spec fn occurs_at(hay: Seq<char>, needle: Seq<char>, k: int) -> bool {
    0 <= k && k + needle.len() <= hay.len() && hay.subrange(k, k + needle.len()) == needle
}

/// Whether `needle` occurs somewhere in `hay`, as `str::contains` finds it.
pub open spec fn contains_text(hay: Seq<char>, needle: Seq<char>) -> bool {
    exists|k: int| occurs_at(hay, needle, k)
}

fn occurs(hay: &str, needle: &str, k: usize, n: usize, m: usize) -> (r: bool)
    requires
        n == hay@.len(),
        m == needle@.len(),
        k + m <= n,
    ensures
        r == occurs_at(hay@, needle@, k as int),
{
    let mut j: usize = 0;
    while j < m
        invariant
            n == hay@.len(),
            m == needle@.len(),
            k + m <= n,
            j <= m,
            hay@.subrange(k as int, k + j) == needle@.subrange(0, j as int),
        decreases m - j,
    {
        if hay.get_char(k + j) != needle.get_char(j) {
            assert(hay@.subrange(k as int, k + m)[j as int] != needle@[j as int]);
            return false;
        }
        assert(hay@.subrange(k as int, k + j + 1) =~= needle@.subrange(0, j + 1)) by {
            assert forall|t: int| 0 <= t < j + 1 implies #[trigger] hay@.subrange(k as int, k + j + 1)[t]
                == needle@.subrange(0, j + 1)[t] by {
                if t < j {
                    assert(hay@.subrange(k as int, k + j)[t] == needle@.subrange(0, j as int)[t]);
                }
            }
        }
        j = j + 1;
    }
    assert(needle@.subrange(0, m as int) =~= needle@);
    true
}

/// Whether `needle` occurs in `hay`.
pub fn contains(hay: &str, needle: &str) -> (r: bool)
    ensures
        r == contains_text(hay@, needle@),
{
    let n = hay.unicode_len();
    let m = needle.unicode_len();
    if m > n {
        assert(!contains_text(hay@, needle@));
        return false;
    }
    let last = n - m;
    let mut k: usize = 0;
    loop
        invariant
            n == hay@.len(),
            m == needle@.len(),
            m <= n,
            last == n - m,
            k <= last,
            forall|t: int| 0 <= t < k ==> !occurs_at(hay@, needle@, t),
        ensures
            forall|t: int| 0 <= t <= last ==> !occurs_at(hay@, needle@, t),
        decreases last - k,
    {
        if occurs(hay, needle, k, n, m) {
            return true;
        }
        if k == last {
            break;
        }
        k = k + 1;
    }
    assert(!contains_text(hay@, needle@)) by {
        if contains_text(hay@, needle@) {
            let t = choose|t: int| occurs_at(hay@, needle@, t);
            assert(t <= last);
        }
    }
    false
}

/// The message with which bitcoind refuses a replacement whose fee is too
/// low.
pub open spec fn replacement_fee_refusal() -> Seq<char> {
    "insufficient fee, rejecting replacement"@
}

/// The broadcast error for an error message of bitcoind: a refused
/// replacement when the message says so, else an unknown error; both carry
/// the message.
pub fn broadcast_error_of(message: String) -> (r: BroadcastError)
    ensures
        contains_text(message@, replacement_fee_refusal()) ==> (r matches BroadcastError::InsufficientFeeRejectingReplacement(m) && m == message),
        !contains_text(message@, replacement_fee_refusal()) ==> (r matches BroadcastError::UnknownError(m) && m == message),
{
    if contains(message.as_str(), "insufficient fee, rejecting replacement") {
        BroadcastError::InsufficientFeeRejectingReplacement(message)
    } else {
        BroadcastError::UnknownError(message)
    }
}

} // verus!
