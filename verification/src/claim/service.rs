use vstd::prelude::*;

use crate::chain::repository::{AddressUtxo, ChainRepositoryError};
use crate::chain::types::OutPoint;
use crate::swap::swap_repository::{GetSwapsError, PaidOutpoint, SwapStatePaidOutpoints};
use crate::swap::swap_service::ClaimableUtxo;

verus! {

/// Errors of listing claimable outputs.
#[derive(Debug)]
pub enum ClaimServiceError {
    ChainRepository(ChainRepositoryError),
    GetSwaps(GetSwapsError),
}

/// Errors of claiming outputs.
#[derive(Debug)]
pub enum ClaimError {
    General(String),
}

/// The position of the first swap whose address is `address`, or -1.
pub open spec fn swap_index_for(swaps: Seq<SwapStatePaidOutpoints>, address: String) -> int
    decreases swaps.len(),
{
    if swaps.len() == 0 {
        -1
    } else if swap_index_for(swaps.drop_last(), address) >= 0 {
        swap_index_for(swaps.drop_last(), address)
    } else if swaps.last().swap_state.swap.public.address@ == address@ {
        swaps.len() - 1
    } else {
        -1
    }
}

/// The payment request of the first paid output equal to `outpoint`.
pub open spec fn paid_request_for(paid: Seq<PaidOutpoint>, outpoint: OutPoint) -> Option<String>
    decreases paid.len(),
{
    if paid.len() == 0 {
        None
    } else if paid_request_for(paid.drop_last(), outpoint) is Some {
        paid_request_for(paid.drop_last(), outpoint)
    } else if paid.last().outpoint == outpoint {
        Some(paid.last().payment_request)
    } else {
        None
    }
}

/// The payment request that an output was paid out with comes from a paid
/// outpoint equal to that output's outpoint, transaction id and index both,
/// and from the first such one; an output that no paid outpoint names has
/// none.
pub proof fn law_paid_request_names_the_outpoint(paid: Seq<PaidOutpoint>, outpoint: OutPoint)
    ensures
        paid_request_for(paid, outpoint) matches Some(r) ==> exists|k: int|
            0 <= k < paid.len() && (#[trigger] paid[k]).outpoint == outpoint && paid[k].payment_request == r
                && forall|j: int| 0 <= j < k ==> (#[trigger] paid[j]).outpoint != outpoint,
        paid_request_for(paid, outpoint) is None <==> forall|k: int|
            0 <= k < paid.len() ==> (#[trigger] paid[k]).outpoint != outpoint,
    decreases paid.len(),
{
    if paid.len() > 0 {
        let prev = paid.drop_last();
        law_paid_request_names_the_outpoint(prev, outpoint);
        assert forall|k: int| 0 <= k < prev.len() implies #[trigger] prev[k] == paid[k] by {}
        if paid_request_for(prev, outpoint) is Some {
            let k = choose|k: int|
                0 <= k < prev.len() && (#[trigger] prev[k]).outpoint == outpoint && prev[k].payment_request
                    == paid_request_for(prev, outpoint)->0 && forall|j: int|
                    0 <= j < k ==> (#[trigger] prev[j]).outpoint != outpoint;
            assert(paid[k] == prev[k]);
            assert forall|j: int| 0 <= j < k implies (#[trigger] paid[j]).outpoint != outpoint by {
                assert(paid[j] == prev[j]);
            }
        } else {
            assert forall|j: int| 0 <= j < paid.len() - 1 implies (#[trigger] paid[j]).outpoint != outpoint by {
                assert(paid[j] == prev[j]);
            }
            if paid.last().outpoint == outpoint {
                assert(paid[paid.len() - 1] == paid.last());
            } else {
                assert forall|j: int| 0 <= j < paid.len() implies (#[trigger] paid[j]).outpoint != outpoint by {
                    if j < paid.len() - 1 {
                        assert(paid[j] == prev[j]);
                    }
                }
            }
        }
    }
}

/// An output is claimable when a swap has its address and that swap has a
/// preimage.
pub open spec fn is_claimable(utxo: AddressUtxo, swaps: Seq<SwapStatePaidOutpoints>) -> bool {
    let j = swap_index_for(swaps, utxo.address);
    j >= 0 && swaps[j].swap_state.preimage is Some
}

/// The positions of the claimable outputs among the first `n` outputs.
pub open spec fn claimable_positions(
    utxos: Seq<AddressUtxo>,
    swaps: Seq<SwapStatePaidOutpoints>,
    n: int,
) -> Seq<int>
    decreases n,
{
    if n <= 0 {
        Seq::empty()
    } else if is_claimable(utxos[n - 1], swaps) {
        claimable_positions(utxos, swaps, n - 1).push(n - 1)
    } else {
        claimable_positions(utxos, swaps, n - 1)
    }
}

/// `c` is the claimable output that `utxo` gives with `swaps`.
pub open spec fn claimable_matches(
    c: ClaimableUtxo,
    utxo: AddressUtxo,
    swaps: Seq<SwapStatePaidOutpoints>,
) -> bool {
    let j = swap_index_for(swaps, utxo.address);
    &&& c.utxo == utxo.utxo
    &&& c.swap@ == swaps[j].swap_state.swap@
    &&& Some(c.preimage) == swaps[j].swap_state.preimage
    &&& c.paid_with_request == paid_request_for(swaps[j].paid_outputs_spec(), utxo.utxo.outpoint)
}

/// A listed claimable output carries a payment request only where a paid
/// outpoint of its swap is exactly the output's outpoint, and then that
/// outpoint's request; an output that its swap never paid out carries none,
/// so the claim monitor leaves it alone.
pub proof fn law_claimable_paid_only_for_its_outpoint(
    c: ClaimableUtxo,
    utxo: AddressUtxo,
    swaps: Seq<SwapStatePaidOutpoints>,
)
    requires
        claimable_matches(c, utxo, swaps),
    ensures
        ({
            let paid = swaps[swap_index_for(swaps, utxo.address)].paid_outputs_spec();
            &&& c.paid_with_request matches Some(r) ==> exists|k: int|
                0 <= k < paid.len() && (#[trigger] paid[k]).outpoint == c.utxo.outpoint
                    && paid[k].payment_request == r
            &&& c.paid_with_request is None <==> forall|k: int|
                0 <= k < paid.len() ==> (#[trigger] paid[k]).outpoint != c.utxo.outpoint
        }),
{
    let paid = swaps[swap_index_for(swaps, utxo.address)].paid_outputs_spec();
    law_paid_request_names_the_outpoint(paid, utxo.utxo.outpoint);
}

impl SwapStatePaidOutpoints {
    pub open spec fn paid_outputs_spec(&self) -> Seq<PaidOutpoint> {
        self.paid_outpoints@
    }
}

fn find_swap(swaps: &Vec<SwapStatePaidOutpoints>, address: &String) -> (r: Option<usize>)
    ensures
        match r {
            Some(j) => j < swaps@.len() && j == swap_index_for(swaps@, *address),
            None => swap_index_for(swaps@, *address) == -1,
        },
{
    let mut j: usize = 0;
    while j < swaps.len()
        invariant
            0 <= j <= swaps@.len(),
            swap_index_for(swaps@.subrange(0, j as int), *address) == -1,
        decreases swaps@.len() - j,
    {
        proof {
            assert(swaps@.subrange(0, j + 1).drop_last() =~= swaps@.subrange(0, j as int));
        }
        if swaps[j].swap_state.swap.public.address == *address {
            proof {
                assert(swap_index_for(swaps@.subrange(0, j + 1), *address) == j);
                lemma_swap_index_prefix_general(swaps@, j + 1, *address);
            }
            return Some(j);
        }
        j = j + 1;
    }
    proof {
        assert(swaps@.subrange(0, swaps@.len() as int) =~= swaps@);
    }
    None
}

proof fn lemma_swap_index_extend(swaps: Seq<SwapStatePaidOutpoints>, n: int, a: String)
    requires
        0 < n < swaps.len(),
        swap_index_for(swaps.subrange(0, n), a) >= 0,
    ensures
        swap_index_for(swaps.subrange(0, n + 1), a) == swap_index_for(swaps.subrange(0, n), a),
{
    assert(swaps.subrange(0, n + 1).drop_last() =~= swaps.subrange(0, n));
}

proof fn lemma_swap_index_prefix_general(swaps: Seq<SwapStatePaidOutpoints>, n: int, a: String)
    requires
        0 < n <= swaps.len(),
        swap_index_for(swaps.subrange(0, n), a) >= 0,
    ensures
        swap_index_for(swaps, a) == swap_index_for(swaps.subrange(0, n), a),
    decreases swaps.len() - n,
{
    if n < swaps.len() {
        lemma_swap_index_extend(swaps, n, a);
        lemma_swap_index_prefix_general(swaps, n + 1, a);
    } else {
        assert(swaps.subrange(0, n) =~= swaps);
    }
}

fn find_paid_request(paid: &Vec<PaidOutpoint>, outpoint: &OutPoint) -> (r: Option<String>)
    ensures
        r == paid_request_for(paid@, *outpoint),
        r matches Some(req) ==> exists|k: int|
            0 <= k < paid@.len() && (#[trigger] paid@[k]).outpoint == *outpoint && paid@[k].payment_request
                == req,
        r is None <==> forall|k: int| 0 <= k < paid@.len() ==> (#[trigger] paid@[k]).outpoint != *outpoint,
{
    proof {
        law_paid_request_names_the_outpoint(paid@, *outpoint);
    }
    let mut k: usize = 0;
    while k < paid.len()
        invariant
            0 <= k <= paid@.len(),
            paid_request_for(paid@.subrange(0, k as int), *outpoint) is None,
        decreases paid@.len() - k,
    {
        proof {
            assert(paid@.subrange(0, k + 1).drop_last() =~= paid@.subrange(0, k as int));
        }
        if paid[k].outpoint.same_as(outpoint) {
            let r = paid[k].payment_request.clone();
            proof {
                lemma_paid_request_prefix(paid@, k as int + 1, *outpoint);
            }
            return Some(r);
        }
        k = k + 1;
    }
    proof {
        assert(paid@.subrange(0, paid@.len() as int) =~= paid@);
    }
    None
}

proof fn lemma_paid_request_prefix(paid: Seq<PaidOutpoint>, n: int, outpoint: OutPoint)
    requires
        0 < n <= paid.len(),
        paid_request_for(paid.subrange(0, n), outpoint) is Some,
    ensures
        paid_request_for(paid, outpoint) == paid_request_for(paid.subrange(0, n), outpoint),
    decreases paid.len() - n,
{
    if n < paid.len() {
        assert(paid.subrange(0, n + 1).drop_last() =~= paid.subrange(0, n));
        lemma_paid_request_prefix(paid, n + 1, outpoint);
    } else {
        assert(paid.subrange(0, n) =~= paid);
    }
}

/// The claimable outputs among `utxos`: those paid to the address of a swap
/// that has its preimage, each with the payment request that paid it out,
/// if one did.
pub fn list_claimable(utxos: Vec<AddressUtxo>, swaps: &Vec<SwapStatePaidOutpoints>) -> (r: Vec<
    ClaimableUtxo,
>)
    ensures
        r@.len() == claimable_positions(utxos@, swaps@, utxos@.len() as int).len(),
        forall|k: int|
            0 <= k < r@.len() ==> claimable_matches(
                #[trigger] r@[k],
                utxos@[claimable_positions(utxos@, swaps@, utxos@.len() as int)[k]],
                swaps@,
            ),
{
    let ghost us = utxos@;
    let mut rest = utxos;
    let n = rest.len();
    let mut claimable_utxos: Vec<ClaimableUtxo> = Vec::new();
    let mut i: usize = 0;
    while rest.len() > 0
        invariant
            0 <= i <= us.len(),
            us.len() == n,
            rest@ == us.subrange(i as int, us.len() as int),
            claimable_utxos@.len() == claimable_positions(us, swaps@, i as int).len(),
            forall|k: int|
                0 <= k < claimable_utxos@.len() ==> claimable_matches(
                    #[trigger] claimable_utxos@[k],
                    us[claimable_positions(us, swaps@, i as int)[k]],
                    swaps@,
                ),
            forall|k: int|
                0 <= k < claimable_positions(us, swaps@, i as int).len() ==> 0
                    <= #[trigger] claimable_positions(us, swaps@, i as int)[k] < i,
        decreases rest@.len(),
    {
        let utxo = rest.remove(0);
        proof {
            assert(utxo == us[i as int]);
            assert(rest@ =~= us.subrange(i + 1, us.len() as int));
        }
        let ghost before = claimable_utxos@;
        match find_swap(swaps, &utxo.address) {
            None => {},
            Some(j) => {
                match swaps[j].swap_state.preimage {
                    None => {},
                    Some(preimage) => {
                        let paid_with_request = find_paid_request(
                            &swaps[j].paid_outpoints,
                            &utxo.utxo.outpoint,
                        );
                        let swap = swaps[j].swap_state.swap.clone();
                        claimable_utxos.push(
                            ClaimableUtxo { utxo: utxo.utxo, paid_with_request, preimage, swap },
                        );
                    },
                }
            },
        }
        proof {
            let p = claimable_positions(us, swaps@, i + 1);
            assert forall|k: int| 0 <= k < claimable_utxos@.len() implies claimable_matches(
                #[trigger] claimable_utxos@[k],
                us[p[k]],
                swaps@,
            ) by {
                if k < before.len() {
                    assert(claimable_utxos@[k] == before[k]);
                }
            }
        }
        i = i + 1;
    }
    proof {
        assert(us.subrange(i as int, us.len() as int).len() == 0);
    }
    claimable_utxos
}

} // verus!
