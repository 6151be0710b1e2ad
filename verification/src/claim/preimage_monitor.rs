use vstd::prelude::*;

use crate::swap::swap_service::{PaymentHash, SwapState};

verus! {

/// The payment hashes of the swaps that have no preimage yet, in order.
pub open spec fn hashes_without_preimage_spec(swaps: Seq<SwapState>) -> Seq<PaymentHash>
    decreases swaps.len(),
{
    if swaps.len() == 0 {
        Seq::empty()
    } else {
        let rest = hashes_without_preimage_spec(swaps.drop_last());
        if swaps.last().preimage is None {
            rest.push(swaps.last().swap.public.hash)
        } else {
            rest
        }
    }
}

/// The payment hashes whose preimage the lightning node is asked for: those
/// of the swaps that have none yet.
pub fn hashes_without_preimage(swaps: &Vec<SwapState>) -> (r: Vec<PaymentHash>)
    ensures
        r@ == hashes_without_preimage_spec(swaps@),
{
    let mut r: Vec<PaymentHash> = Vec::new();
    let mut i: usize = 0;
    while i < swaps.len()
        invariant
            0 <= i <= swaps@.len(),
            r@ == hashes_without_preimage_spec(swaps@.subrange(0, i as int)),
        decreases swaps.len() - i,
    {
        proof {
            assert(swaps@.subrange(0, i as int + 1).drop_last() =~= swaps@.subrange(0, i as int));
        }
        if swaps[i].preimage.is_none() {
            r.push(swaps[i].swap.public.hash);
        }
        i = i + 1;
    }
    assert(swaps@.subrange(0, swaps@.len() as int) =~= swaps@);
    r
}

} // verus!
