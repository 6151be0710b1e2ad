use vstd::prelude::*;

use super::repository::Claim;
use crate::chain::client::BroadcastError;
use crate::chain::types::OutPoint;
use crate::swap::swap_service::{blocks_left_at, ClaimableUtxo, PaymentHash};

verus! {

/// A claim transaction is only replaced when the fee estimate exceeds its
/// fee rate by at least this many satoshi per thousand weight units.
pub const MIN_REPLACEMENT_DIFF_SAT_PER_KW: u32 = 250;

/// The outpoints of the claimable outputs, in order.
pub open spec fn outpoints_of(cl: Seq<ClaimableUtxo>) -> Seq<OutPoint> {
    Seq::new(cl.len(), |i: int| cl[i].utxo.outpoint)
}

/// The input outpoints of each claim, in order.
pub open spec fn claim_inputs_of(claims: Seq<Claim>) -> Seq<Seq<OutPoint>> {
    Seq::new(claims.len(), |c: int| claims[c].inputs@)
}

/// The last position of `op` in `ops`, or -1. Keyed by outpoint, the
/// claimable outputs keep the last entry of an outpoint that occurs twice.
pub open spec fn last_index_of(ops: Seq<OutPoint>, op: OutPoint) -> int
    decreases ops.len(),
{
    if ops.len() == 0 {
        -1
    } else if ops.last() == op {
        ops.len() - 1
    } else {
        last_index_of(ops.drop_last(), op)
    }
}

/// A claim is current when every output that it spends is still claimable.
pub open spec fn claim_is_current(ops: Seq<OutPoint>, inputs: Seq<OutPoint>) -> bool {
    forall|k: int| 0 <= k < inputs.len() ==> last_index_of(ops, #[trigger] inputs[k]) >= 0
}

/// Some current claim spends `op`.
pub open spec fn spent_by_current_claim(
    ops: Seq<OutPoint>,
    claims: Seq<Seq<OutPoint>>,
    op: OutPoint,
) -> bool {
    exists|c: int, k: int|
        0 <= c < claims.len() && claim_is_current(ops, claims[c]) && 0 <= k < claims[c].len()
            && #[trigger] claims[c][k] == op
}

/// Output `i` gets a new claim: it is the entry kept for its outpoint, no
/// current claim spends it, and it was paid out over lightning. Outputs that
/// were not paid out over lightning are left alone.
pub open spec fn needs_new_claim(cl: Seq<ClaimableUtxo>, claims: Seq<Claim>, i: int) -> bool {
    let ops = outpoints_of(cl);
    &&& 0 <= i < cl.len()
    &&& last_index_of(ops, ops[i]) == i
    &&& !spent_by_current_claim(ops, claim_inputs_of(claims), ops[i])
    &&& cl[i].paid_with_request is Some
}

/// The swap hash of claimable output `i`.
pub open spec fn hash_of(cl: Seq<ClaimableUtxo>, i: int) -> PaymentHash {
    cl[i].swap.public.hash
}

/// An existing claim to check again, with the claimable outputs that it spends.
pub struct RecheckClaim {
    pub claim_index: usize,
    /// Positions in the claimable outputs of the claim's inputs, in input order.
    pub claimables: Vec<usize>,
}

/// What one round of the claim monitor does.
pub struct ClaimPlan {
    /// The current claims, in the order given.
    pub recheck: Vec<RecheckClaim>,
    /// The outputs to claim anew, grouped by swap.
    pub new_claims: Vec<Vec<usize>>,
}

/// The recheck list is exactly the current claims, in order, each with the
/// positions of the outputs that it spends.
pub open spec fn recheck_correct(
    cl: Seq<ClaimableUtxo>,
    claims: Seq<Claim>,
    recheck: Seq<RecheckClaim>,
) -> bool {
    let ops = outpoints_of(cl);
    let inputs = claim_inputs_of(claims);
    &&& forall|k: int|
        #![trigger recheck[k]]
        0 <= k < recheck.len() ==> {
            let ci = recheck[k].claim_index as int;
            &&& 0 <= ci < claims.len()
            &&& claim_is_current(ops, inputs[ci])
            &&& recheck[k].claimables@.len() == inputs[ci].len()
            &&& forall|m: int|
                0 <= m < inputs[ci].len() ==> #[trigger] recheck[k].claimables@[m]
                    == last_index_of(ops, inputs[ci][m])
        }
    &&& forall|a: int, b: int|
        0 <= a < b < recheck.len() ==> #[trigger] recheck[a].claim_index
            < #[trigger] recheck[b].claim_index
    &&& forall|c: int|
        0 <= c < claims.len() && claim_is_current(ops, #[trigger] inputs[c]) ==> exists|k: int|
            0 <= k < recheck.len() && #[trigger] recheck[k].claim_index == c
}

/// The groups of new claims partition the outputs that need one by swap
/// hash: each group is non-empty and ascending, shares one hash, groups
/// carry different hashes and are ordered by their first output, and every
/// output that needs a new claim is in a group.
pub open spec fn groups_correct(
    cl: Seq<ClaimableUtxo>,
    claims: Seq<Claim>,
    groups: Seq<Vec<usize>>,
) -> bool {
    &&& forall|g: int|
        #![trigger groups[g]]
        0 <= g < groups.len() ==> {
            &&& groups[g]@.len() > 0
            &&& forall|m: int|
                0 <= m < groups[g]@.len() ==> needs_new_claim(
                    cl,
                    claims,
                    #[trigger] groups[g]@[m] as int,
                ) && hash_of(cl, groups[g]@[m] as int) == hash_of(cl, groups[g]@[0] as int)
            &&& forall|m1: int, m2: int|
                0 <= m1 < m2 < groups[g]@.len() ==> #[trigger] groups[g]@[m1]
                    < #[trigger] groups[g]@[m2]
        }
    &&& forall|g1: int, g2: int|
        0 <= g1 < g2 < groups.len() ==> #[trigger] groups[g1]@[0] < #[trigger] groups[g2]@[0]
            && hash_of(cl, groups[g1]@[0] as int) != hash_of(cl, groups[g2]@[0] as int)
    &&& forall|i: int|
        #![trigger needs_new_claim(cl, claims, i)]
        needs_new_claim(cl, claims, i) ==> exists|g: int, m: int|
            0 <= g < groups.len() && 0 <= m < groups[g]@.len() && #[trigger] groups[g]@[m] == i
}

proof fn lemma_last_index_bounds(ops: Seq<OutPoint>, op: OutPoint)
    ensures
        -1 <= last_index_of(ops, op) < ops.len(),
        last_index_of(ops, op) >= 0 ==> ops[last_index_of(ops, op)] == op,
        forall|j: int| 0 <= j < ops.len() && ops[j] == op ==> j <= last_index_of(ops, op),
    decreases ops.len(),
{
    if ops.len() > 0 && ops.last() != op {
        lemma_last_index_bounds(ops.drop_last(), op);
        assert forall|j: int| 0 <= j < ops.len() && ops[j] == op implies j <= last_index_of(
            ops,
            op,
        ) by {
            assert(j < ops.len() - 1);
            assert(ops.drop_last()[j] == op);
        }
    }
}

fn last_index(claimables: &Vec<ClaimableUtxo>, op: &OutPoint) -> (r: Option<usize>)
    ensures
        match r {
            Some(i) => i == last_index_of(outpoints_of(claimables@), *op),
            None => last_index_of(outpoints_of(claimables@), *op) == -1,
        },
{
    let ghost ops = outpoints_of(claimables@);
    let mut n = claimables.len();
    proof {
        assert(ops.subrange(0, n as int) =~= ops);
    }
    while n > 0
        invariant
            n <= claimables@.len(),
            ops == outpoints_of(claimables@),
            last_index_of(ops, *op) == last_index_of(ops.subrange(0, n as int), *op),
        decreases n,
    {
        proof {
            assert(ops.subrange(0, n as int).drop_last() =~= ops.subrange(0, n - 1));
        }
        if claimables[n - 1].utxo.outpoint.same_as(op) {
            return Some(n - 1);
        }
        n = n - 1;
    }
    None
}

/// Whether `cl[i]` is spent by a current claim among the first `c` claims,
/// through an input whose last position is `i`.
pub open spec fn spent_within(
    ops: Seq<OutPoint>,
    inputs: Seq<Seq<OutPoint>>,
    c: int,
    i: int,
) -> bool {
    exists|c2: int, k: int|
        0 <= c2 < c && claim_is_current(ops, inputs[c2]) && 0 <= k < inputs[c2].len()
            && #[trigger] last_index_of(ops, inputs[c2][k]) == i
}

/// The groups built from the first `i` outputs.
pub open spec fn groups_upto(
    cl: Seq<ClaimableUtxo>,
    claims: Seq<Claim>,
    groups: Seq<Vec<usize>>,
    i: int,
) -> bool {
    &&& forall|g: int|
        #![trigger groups[g]]
        0 <= g < groups.len() ==> {
            &&& groups[g]@.len() > 0
            &&& forall|m: int|
                0 <= m < groups[g]@.len() ==> needs_new_claim(
                    cl,
                    claims,
                    #[trigger] groups[g]@[m] as int,
                ) && groups[g]@[m] < i && hash_of(cl, groups[g]@[m] as int) == hash_of(
                    cl,
                    groups[g]@[0] as int,
                )
            &&& forall|m1: int, m2: int|
                0 <= m1 < m2 < groups[g]@.len() ==> #[trigger] groups[g]@[m1]
                    < #[trigger] groups[g]@[m2]
        }
    &&& forall|g1: int, g2: int|
        0 <= g1 < g2 < groups.len() ==> #[trigger] groups[g1]@[0] < #[trigger] groups[g2]@[0]
            && hash_of(cl, groups[g1]@[0] as int) != hash_of(cl, groups[g2]@[0] as int)
    &&& forall|j: int|
        #![trigger needs_new_claim(cl, claims, j)]
        0 <= j < i && needs_new_claim(cl, claims, j) ==> exists|g: int, m: int|
            0 <= g < groups.len() && 0 <= m < groups[g]@.len() && #[trigger] groups[g]@[m] == j
}

proof fn lemma_spent_matches(
    ops: Seq<OutPoint>,
    inputs: Seq<Seq<OutPoint>>,
    i: int,
    op: OutPoint,
    spent: bool,
)
    requires
        0 <= i < ops.len(),
        ops[i] == op,
        last_index_of(ops, op) == i,
        spent == spent_within(ops, inputs, inputs.len() as int, i),
    ensures
        spent == spent_by_current_claim(ops, inputs, op),
{
    if spent {
        let (c2, k2) = choose|c2: int, k2: int|
            0 <= c2 < inputs.len() && claim_is_current(ops, inputs[c2]) && 0 <= k2 < inputs[c2].len()
                && #[trigger] last_index_of(ops, inputs[c2][k2]) == i;
        lemma_last_index_bounds(ops, inputs[c2][k2]);
        assert(inputs[c2][k2] == op);
    }
    if spent_by_current_claim(ops, inputs, op) {
        let (c2, k2) = choose|c2: int, k2: int|
            0 <= c2 < inputs.len() && claim_is_current(ops, inputs[c2]) && 0 <= k2 < inputs[c2].len()
                && #[trigger] inputs[c2][k2] == op;
        assert(last_index_of(ops, inputs[c2][k2]) == i);
    }
}

/// Adds output `i` to the group whose first output has the same swap hash,
/// giving that group's position, or starts a new group and gives `None`.
fn add_to_group(groups: &mut Vec<Vec<usize>>, claimables: &Vec<ClaimableUtxo>, i: usize) -> (r:
    Option<usize>)
    requires
        i < claimables@.len(),
        forall|g: int|
            0 <= g < old(groups)@.len() ==> #[trigger] old(groups)@[g]@.len() > 0
                && old(groups)@[g]@[0] < claimables@.len(),
    ensures
        match r {
            Some(g) => {
                &&& g < old(groups)@.len()
                &&& final(groups)@.len() == old(groups)@.len()
                &&& hash_of(claimables@, old(groups)@[g as int]@[0] as int) == hash_of(
                    claimables@,
                    i as int,
                )
                &&& final(groups)@[g as int]@ == old(groups)@[g as int]@.push(i)
                &&& forall|x: int|
                    0 <= x < old(groups)@.len() && x != g ==> #[trigger] final(groups)@[x] == old(
                        groups,
                    )@[x]
            },
            None => {
                &&& final(groups)@.len() == old(groups)@.len() + 1
                &&& final(groups)@[old(groups)@.len() as int]@ == seq![i]
                &&& forall|x: int|
                    0 <= x < old(groups)@.len() ==> #[trigger] final(groups)@[x] == old(groups)@[x]
                &&& forall|x: int|
                    0 <= x < old(groups)@.len() ==> hash_of(
                        claimables@,
                        #[trigger] old(groups)@[x]@[0] as int,
                    ) != hash_of(claimables@, i as int)
            },
        },
{
    let hash = claimables[i].swap.public.hash;
    let mut g: usize = 0;
    while g < groups.len()
        invariant
            groups@ == old(groups)@,
            g <= groups@.len(),
            hash == hash_of(claimables@, i as int),
            forall|g1: int|
                0 <= g1 < groups@.len() ==> #[trigger] groups@[g1]@.len() > 0 && groups@[g1]@[0]
                    < claimables@.len(),
            forall|g2: int|
                0 <= g2 < g ==> hash_of(claimables@, #[trigger] groups@[g2]@[0] as int) != hash,
        decreases groups@.len() - g,
    {
        if claimables[groups[g][0]].swap.public.hash.same_as(&hash) {
            let mut members = groups[g].clone();
            proof {
                assert(members@ =~= groups@[g as int]@);
            }
            members.push(i);
            groups.set(g, members);
            return Some(g);
        }
        g = g + 1;
    }
    let mut members: Vec<usize> = Vec::new();
    members.push(i);
    groups.push(members);
    proof {
        assert(groups@[old(groups)@.len() as int]@ =~= seq![i]);
    }
    None
}

proof fn lemma_groups_add_existing(
    cl: Seq<ClaimableUtxo>,
    claims: Seq<Claim>,
    old_groups: Seq<Vec<usize>>,
    groups: Seq<Vec<usize>>,
    i: usize,
    g: int,
)
    requires
        0 <= i < cl.len(),
        groups_upto(cl, claims, old_groups, i as int),
        needs_new_claim(cl, claims, i as int),
        0 <= g < old_groups.len(),
        groups.len() == old_groups.len(),
        hash_of(cl, old_groups[g]@[0] as int) == hash_of(cl, i as int),
        groups[g]@ == old_groups[g]@.push(i),
        forall|x: int| 0 <= x < old_groups.len() && x != g ==> #[trigger] groups[x] == old_groups[x],
    ensures
        groups_upto(cl, claims, groups, i + 1),
{
    let old_g = old_groups[g]@;
    assert(groups[g]@[0] == old_g[0]);
    assert forall|x: int| 0 <= x < old_groups.len() implies #[trigger] groups[x]@[0]
        == old_groups[x]@[0] by {
        if x != g {
            assert(groups[x] == old_groups[x]);
        }
    }
    assert forall|gg: int|
        #![trigger groups[gg]]
        0 <= gg < groups.len() implies {
        &&& groups[gg]@.len() > 0
        &&& forall|m: int|
            0 <= m < groups[gg]@.len() ==> needs_new_claim(
                cl,
                claims,
                #[trigger] groups[gg]@[m] as int,
            ) && groups[gg]@[m] < i + 1 && hash_of(cl, groups[gg]@[m] as int) == hash_of(
                cl,
                groups[gg]@[0] as int,
            )
        &&& forall|m1: int, m2: int|
            0 <= m1 < m2 < groups[gg]@.len() ==> #[trigger] groups[gg]@[m1]
                < #[trigger] groups[gg]@[m2]
    } by {
        if gg != g {
            assert(groups[gg] == old_groups[gg]);
        } else {
            assert forall|m: int|
                0 <= m < groups[gg]@.len() implies needs_new_claim(
                cl,
                claims,
                #[trigger] groups[gg]@[m] as int,
            ) && groups[gg]@[m] < i + 1 && hash_of(cl, groups[gg]@[m] as int) == hash_of(
                cl,
                groups[gg]@[0] as int,
            ) by {
                if m < old_g.len() {
                    assert(groups[gg]@[m] == old_g[m]);
                }
            }
            assert forall|m1: int, m2: int|
                0 <= m1 < m2 < groups[gg]@.len() implies #[trigger] groups[gg]@[m1]
                < #[trigger] groups[gg]@[m2] by {
                if m2 < old_g.len() {
                    assert(old_g[m1] < old_g[m2]);
                } else {
                    assert(old_g[m1] < i);
                }
            }
        }
    }
    assert forall|j: int|
        #![trigger needs_new_claim(cl, claims, j)]
        0 <= j < i + 1 && needs_new_claim(cl, claims, j) implies exists|g3: int, m: int|
        0 <= g3 < groups.len() && 0 <= m < groups[g3]@.len() && #[trigger] groups[g3]@[m] == j by {
        if j < i {
            let (g3, m) = choose|g3: int, m: int|
                0 <= g3 < old_groups.len() && 0 <= m < old_groups[g3]@.len()
                    && #[trigger] old_groups[g3]@[m] == j;
            if g3 == g {
                assert(groups[g3]@[m] == j);
            } else {
                assert(groups[g3] == old_groups[g3]);
            }
        } else {
            assert(groups[g]@[old_g.len() as int] == j);
        }
    }
}

proof fn lemma_groups_add_new(
    cl: Seq<ClaimableUtxo>,
    claims: Seq<Claim>,
    old_groups: Seq<Vec<usize>>,
    groups: Seq<Vec<usize>>,
    i: usize,
)
    requires
        0 <= i < cl.len(),
        groups_upto(cl, claims, old_groups, i as int),
        needs_new_claim(cl, claims, i as int),
        groups.len() == old_groups.len() + 1,
        groups[old_groups.len() as int]@ == seq![i],
        forall|x: int| 0 <= x < old_groups.len() ==> #[trigger] groups[x] == old_groups[x],
        forall|x: int|
            0 <= x < old_groups.len() ==> hash_of(cl, #[trigger] old_groups[x]@[0] as int)
                != hash_of(cl, i as int),
    ensures
        groups_upto(cl, claims, groups, i + 1),
{
    let last = old_groups.len() as int;
    assert(groups[last]@[0] == i);
    assert forall|gg: int|
        #![trigger groups[gg]]
        0 <= gg < groups.len() implies {
        &&& groups[gg]@.len() > 0
        &&& forall|m: int|
            0 <= m < groups[gg]@.len() ==> needs_new_claim(
                cl,
                claims,
                #[trigger] groups[gg]@[m] as int,
            ) && groups[gg]@[m] < i + 1 && hash_of(cl, groups[gg]@[m] as int) == hash_of(
                cl,
                groups[gg]@[0] as int,
            )
        &&& forall|m1: int, m2: int|
            0 <= m1 < m2 < groups[gg]@.len() ==> #[trigger] groups[gg]@[m1]
                < #[trigger] groups[gg]@[m2]
    } by {
        if gg < last {
            assert(groups[gg] == old_groups[gg]);
        }
    }
    assert forall|g1: int, g2: int|
        0 <= g1 < g2 < groups.len() implies #[trigger] groups[g1]@[0] < #[trigger] groups[g2]@[0]
        && hash_of(cl, groups[g1]@[0] as int) != hash_of(cl, groups[g2]@[0] as int) by {
        assert(groups[g1] == old_groups[g1]);
        if g2 < last {
            assert(groups[g2] == old_groups[g2]);
        } else {
            assert(old_groups[g1]@[0] < i);
        }
    }
    assert forall|j: int|
        #![trigger needs_new_claim(cl, claims, j)]
        0 <= j < i + 1 && needs_new_claim(cl, claims, j) implies exists|g3: int, m: int|
        0 <= g3 < groups.len() && 0 <= m < groups[g3]@.len() && #[trigger] groups[g3]@[m] == j by {
        if j < i {
            let (g3, m) = choose|g3: int, m: int|
                0 <= g3 < old_groups.len() && 0 <= m < old_groups[g3]@.len()
                    && #[trigger] old_groups[g3]@[m] == j;
            assert(groups[g3] == old_groups[g3]);
        } else {
            assert(groups[last]@[0] == j);
        }
    }
}

proof fn lemma_groups_skip(cl: Seq<ClaimableUtxo>, claims: Seq<Claim>, groups: Seq<Vec<usize>>, i: int)
    requires
        groups_upto(cl, claims, groups, i),
        !needs_new_claim(cl, claims, i),
    ensures
        groups_upto(cl, claims, groups, i + 1),
{
}

proof fn lemma_groups_done(cl: Seq<ClaimableUtxo>, claims: Seq<Claim>, groups: Seq<Vec<usize>>)
    requires
        groups_upto(cl, claims, groups, cl.len() as int),
    ensures
        groups_correct(cl, claims, groups),
{
}

/// Splits one round of claim work: the claims whose outputs are all still
/// claimable are checked again, and the remaining outputs that were paid
/// out over lightning are grouped by swap into new claims.
pub fn plan_claims(claimables: &Vec<ClaimableUtxo>, claims: &Vec<Claim>) -> (plan: ClaimPlan)
    ensures
        recheck_correct(claimables@, claims@, plan.recheck@),
        groups_correct(claimables@, claims@, plan.new_claims@),
{
    let ghost cl = claimables@;
    let ghost ops = outpoints_of(cl);
    let ghost inputs = claim_inputs_of(claims@);
    let n = claimables.len();
    let mut spent: Vec<bool> = Vec::new();
    let mut z: usize = 0;
    while z < n
        invariant
            z <= n,
            spent@.len() == z,
            forall|i: int| 0 <= i < z ==> !#[trigger] spent@[i],
        decreases n - z,
    {
        spent.push(false);
        z = z + 1;
    }
    let mut recheck: Vec<RecheckClaim> = Vec::new();
    let mut c: usize = 0;
    while c < claims.len()
        invariant
            n == cl.len(),
            cl == claimables@,
            ops == outpoints_of(cl),
            inputs == claim_inputs_of(claims@),
            c <= claims@.len(),
            spent@.len() == n,
            forall|i: int| 0 <= i < n ==> #[trigger] spent@[i] == spent_within(ops, inputs, c as int, i),
            forall|k: int|
                #![trigger recheck@[k]]
                0 <= k < recheck@.len() ==> {
                    let ci = recheck@[k].claim_index as int;
                    &&& 0 <= ci < c
                    &&& claim_is_current(ops, inputs[ci])
                    &&& recheck@[k].claimables@.len() == inputs[ci].len()
                    &&& forall|m: int|
                        0 <= m < inputs[ci].len() ==> #[trigger] recheck@[k].claimables@[m]
                            == last_index_of(ops, inputs[ci][m])
                },
            forall|a: int, b: int|
                0 <= a < b < recheck@.len() ==> #[trigger] recheck@[a].claim_index
                    < #[trigger] recheck@[b].claim_index,
            forall|c2: int|
                0 <= c2 < c && claim_is_current(ops, #[trigger] inputs[c2]) ==> exists|k: int|
                    0 <= k < recheck@.len() && #[trigger] recheck@[k].claim_index == c2,
        decreases claims@.len() - c,
    {
        let claim_inputs = &claims[c].inputs;
        let ghost ins = inputs[c as int];
        assert(ins == claim_inputs@);
        let mut positions: Vec<usize> = Vec::new();
        let mut current = true;
        let mut k: usize = 0;
        while k < claim_inputs.len() && current
            invariant
                ins == claim_inputs@,
                ops == outpoints_of(claimables@),
                k <= ins.len(),
                current ==> positions@.len() == k,
                current ==> forall|m: int|
                    0 <= m < k ==> #[trigger] positions@[m] == last_index_of(ops, ins[m]) && 0
                        <= last_index_of(ops, ins[m]),
                !current ==> !claim_is_current(ops, ins),
            decreases ins.len() - k + (if current {
                1int
            } else {
                0int
            }),
        {
            match last_index(claimables, &claim_inputs[k]) {
                Some(i) => {
                    positions.push(i);
                },
                None => {
                    current = false;
                },
            }
            if current {
                k = k + 1;
            }
        }
        let ghost old_spent = spent@;
        let ghost old_recheck = recheck@;
        if current {
            proof {
                assert(claim_is_current(ops, ins)) by {
                    assert forall|m: int| 0 <= m < ins.len() implies last_index_of(
                        ops,
                        #[trigger] ins[m],
                    ) >= 0 by {
                        assert(positions@[m] == last_index_of(ops, ins[m]));
                    }
                }
            }
            proof {
                assert forall|q: int| 0 <= q < ins.len() implies last_index_of(ops, ins[q]) < n by {
                    lemma_last_index_bounds(ops, ins[q]);
                }
            }
            let mut m: usize = 0;
            while m < positions.len()
                invariant
                    n == cl.len(),
                    ops == outpoints_of(cl),
                    positions@.len() == ins.len(),
                    forall|q: int|
                        0 <= q < ins.len() ==> #[trigger] positions@[q] == last_index_of(ops, ins[q])
                            && 0 <= last_index_of(ops, ins[q]) < n,
                    m <= positions@.len(),
                    spent@.len() == n,
                    forall|i: int|
                        0 <= i < n ==> #[trigger] spent@[i] == (old_spent[i] || exists|q: int|
                            0 <= q < m && positions@[q] == i),
                decreases positions@.len() - m,
            {
                proof {
                    lemma_last_index_bounds(ops, ins[m as int]);
                }
                let p = positions[m];
                spent.set(p, true);
                proof {
                    assert forall|i: int| 0 <= i < n implies #[trigger] spent@[i] == (old_spent[i]
                        || exists|q: int| 0 <= q < m + 1 && positions@[q] == i) by {
                        if i == p as int {
                            assert(positions@[m as int] == i);
                        } else if exists|q: int| 0 <= q < m + 1 && positions@[q] == i {
                            let q = choose|q: int| 0 <= q < m + 1 && positions@[q] == i;
                            assert(q < m);
                        }
                    }
                }
                m = m + 1;
            }
            let ghost pos_view = positions@;
            recheck.push(RecheckClaim { claim_index: c, claimables: positions });
            proof {
                assert forall|i: int| 0 <= i < n implies #[trigger] spent@[i] == spent_within(
                    ops,
                    inputs,
                    c + 1,
                    i,
                ) by {
                    if spent@[i] {
                        if old_spent[i] {
                            let (c2, k2) = choose|c2: int, k2: int|
                                0 <= c2 < c && claim_is_current(ops, inputs[c2]) && 0 <= k2
                                    < inputs[c2].len() && #[trigger] last_index_of(
                                    ops,
                                    inputs[c2][k2],
                                ) == i;
                            assert(last_index_of(ops, inputs[c2][k2]) == i);
                        } else {
                            let q = choose|q: int| 0 <= q < pos_view.len() && pos_view[q] == i;
                            assert(pos_view[q] == last_index_of(ops, ins[q]));
                            assert(inputs[c as int][q] == ins[q]);
                            assert(last_index_of(ops, inputs[c as int][q]) == i);
                        }
                    }
                    if spent_within(ops, inputs, c + 1, i) {
                        let (c2, k2) = choose|c2: int, k2: int|
                            0 <= c2 < c + 1 && claim_is_current(ops, inputs[c2]) && 0 <= k2
                                < inputs[c2].len() && #[trigger] last_index_of(
                                ops,
                                inputs[c2][k2],
                            ) == i;
                        if c2 < c {
                            assert(spent_within(ops, inputs, c as int, i));
                        } else {
                            assert(pos_view[k2] == i);
                        }
                    }
                }
                assert forall|c2: int|
                    0 <= c2 < c + 1 && claim_is_current(ops, #[trigger] inputs[c2]) implies exists|
                    k: int,
                | 0 <= k < recheck@.len() && #[trigger] recheck@[k].claim_index == c2 by {
                    if c2 < c {
                        let k = choose|k: int|
                            0 <= k < old_recheck.len() && #[trigger] old_recheck[k].claim_index
                                == c2;
                        assert(recheck@[k] == old_recheck[k]);
                    } else {
                        assert(recheck@[old_recheck.len() as int].claim_index == c2);
                    }
                }
                assert forall|k: int|
                    #![trigger recheck@[k]]
                    0 <= k < recheck@.len() implies {
                    let ci = recheck@[k].claim_index as int;
                    &&& 0 <= ci < c + 1
                    &&& claim_is_current(ops, inputs[ci])
                    &&& recheck@[k].claimables@.len() == inputs[ci].len()
                    &&& forall|m: int|
                        0 <= m < inputs[ci].len() ==> #[trigger] recheck@[k].claimables@[m]
                            == last_index_of(ops, inputs[ci][m])
                } by {
                    if k < old_recheck.len() {
                        assert(recheck@[k] == old_recheck[k]);
                    }
                }
            }
        } else {
            proof {
                assert forall|i: int| 0 <= i < n implies #[trigger] spent@[i] == spent_within(
                    ops,
                    inputs,
                    c + 1,
                    i,
                ) by {
                    if spent_within(ops, inputs, c + 1, i) {
                        let (c2, k2) = choose|c2: int, k2: int|
                            0 <= c2 < c + 1 && claim_is_current(ops, inputs[c2]) && 0 <= k2
                                < inputs[c2].len() && #[trigger] last_index_of(
                                ops,
                                inputs[c2][k2],
                            ) == i;
                        assert(c2 < c);
                        assert(spent_within(ops, inputs, c as int, i));
                    }
                }
            }
        }
        c = c + 1;
    }
    let mut groups: Vec<Vec<usize>> = Vec::new();
    let mut i: usize = 0;
    while i < n
        invariant
            n == cl.len(),
            cl == claimables@,
            ops == outpoints_of(cl),
            inputs == claim_inputs_of(claims@),
            i <= n,
            spent@.len() == n,
            forall|j: int|
                0 <= j < n ==> #[trigger] spent@[j] == spent_within(
                    ops,
                    inputs,
                    claims@.len() as int,
                    j,
                ),
            groups_upto(cl, claims@, groups@, i as int),
        decreases n - i,
    {
        let op = claimables[i].utxo.outpoint;
        let is_last = match last_index(claimables, &op) {
            Some(l) => l == i,
            None => false,
        };
        proof {
            assert(ops[i as int] == op);
            lemma_last_index_bounds(ops, op);
            if is_last {
                lemma_spent_matches(ops, inputs, i as int, op, spent@[i as int]);
            }
        }
        let wanted = is_last && !spent[i] && claimables[i].paid_with_request.is_some();
        assert(wanted == needs_new_claim(cl, claims@, i as int));
        let ghost old_groups = groups@;
        if wanted {
            let r = add_to_group(&mut groups, claimables, i);
            proof {
                match r {
                    Some(g) => {
                        lemma_groups_add_existing(cl, claims@, old_groups, groups@, i, g as int);
                    },
                    None => {
                        lemma_groups_add_new(cl, claims@, old_groups, groups@, i);
                    },
                }
            }
        } else {
            proof {
                lemma_groups_skip(cl, claims@, groups@, i as int);
            }
        }
        i = i + 1;
    }
    proof {
        lemma_groups_done(cl, claims@, groups@);
    }
    ClaimPlan { recheck, new_claims: groups }
}

/// A new claim only takes outputs that were paid out over lightning, and
/// groups outputs of one swap: funds sent to a swap address without a
/// payout are left to the user.
pub proof fn law_new_claims_only_paid_outputs(
    cl: Seq<ClaimableUtxo>,
    claims: Seq<Claim>,
    groups: Seq<Vec<usize>>,
)
    requires
        groups_correct(cl, claims, groups),
    ensures
        forall|g: int, m: int|
            0 <= g < groups.len() && 0 <= m < groups[g]@.len() ==> {
                let i = #[trigger] groups[g]@[m] as int;
                &&& 0 <= i < cl.len()
                &&& cl[i].paid_with_request is Some
                &&& cl[i].swap.public.hash == cl[groups[g]@[0] as int].swap.public.hash
            },
{
    assert forall|g: int, m: int| 0 <= g < groups.len() && 0 <= m < groups[g]@.len() implies {
        let i = #[trigger] groups[g]@[m] as int;
        &&& 0 <= i < cl.len()
        &&& cl[i].paid_with_request is Some
        &&& cl[i].swap.public.hash == cl[groups[g]@[0] as int].swap.public.hash
    } by {
        assert(needs_new_claim(cl, claims, groups[g]@[m] as int));
    }
}

/// One round of claims spends no output twice: no output that is claimed
/// anew is an input of a claim that is checked again.
pub proof fn law_new_claims_avoid_rechecked(
    cl: Seq<ClaimableUtxo>,
    claims: Seq<Claim>,
    recheck: Seq<RecheckClaim>,
    groups: Seq<Vec<usize>>,
)
    requires
        recheck_correct(cl, claims, recheck),
        groups_correct(cl, claims, groups),
    ensures
        forall|g: int, m: int, k: int, j: int|
            0 <= g < groups.len() && 0 <= m < groups[g]@.len() && 0 <= k < recheck.len() && 0 <= j
                < recheck[k].claimables@.len() ==> #[trigger] groups[g]@[m]
                != #[trigger] recheck[k].claimables@[j],
{
    let ops = outpoints_of(cl);
    let inputs = claim_inputs_of(claims);
    assert forall|g: int, m: int, k: int, j: int|
        0 <= g < groups.len() && 0 <= m < groups[g]@.len() && 0 <= k < recheck.len() && 0 <= j
            < recheck[k].claimables@.len() implies #[trigger] groups[g]@[m]
        != #[trigger] recheck[k].claimables@[j] by {
        let i = groups[g]@[m] as int;
        assert(needs_new_claim(cl, claims, i));
        let ci = recheck[k].claim_index as int;
        assert(recheck[k].claimables@[j] == last_index_of(ops, inputs[ci][j]));
        if i == recheck[k].claimables@[j] {
            lemma_last_index_bounds(ops, inputs[ci][j]);
            assert(ops[i] == inputs[ci][j]);
            assert(spent_by_current_claim(ops, inputs, ops[i]));
        }
    }
}

/// Blocks left until the user can take back a claimable output.
pub open spec fn claimable_blocks_left(c: ClaimableUtxo, current_height: u64) -> i32 {
    blocks_left_at(c.swap.public.lock_time, c.utxo.block_height, current_height)
}

/// The smallest number of blocks left among the given claimable outputs.
pub open spec fn min_blocks_left_spec(
    cl: Seq<ClaimableUtxo>,
    idx: Seq<usize>,
    current_height: u64,
) -> Option<i32>
    decreases idx.len(),
{
    if idx.len() == 0 {
        None
    } else {
        let b = claimable_blocks_left(cl[idx.last() as int], current_height);
        match min_blocks_left_spec(cl, idx.drop_last(), current_height) {
            None => Some(b),
            Some(m) => Some(
                if b < m {
                    b
                } else {
                    m
                },
            ),
        }
    }
}

/// The smallest number of blocks left among the outputs at positions `idx`;
/// `None` when there are none.
pub fn min_blocks_left(claimables: &Vec<ClaimableUtxo>, idx: &Vec<usize>, current_height: u64) -> (r:
    Option<i32>)
    requires
        forall|k: int| 0 <= k < idx@.len() ==> #[trigger] idx@[k] < claimables@.len(),
    ensures
        r == min_blocks_left_spec(claimables@, idx@, current_height),
        r is None <==> idx@.len() == 0,
        r matches Some(m) ==> (forall|k: int|
            0 <= k < idx@.len() ==> m <= claimable_blocks_left(claimables@[#[trigger] idx@[k] as int], current_height)) && (exists|k: int|
            0 <= k < idx@.len() && m == claimable_blocks_left(claimables@[#[trigger] idx@[k] as int], current_height)),
{
    let mut result: Option<i32> = None;
    let mut k: usize = 0;
    while k < idx.len()
        invariant
            k <= idx@.len(),
            forall|q: int| 0 <= q < idx@.len() ==> #[trigger] idx@[q] < claimables@.len(),
            result == min_blocks_left_spec(claimables@, idx@.subrange(0, k as int), current_height),
            result is None <==> k == 0,
            result matches Some(m) ==> (forall|q: int|
                0 <= q < k ==> m <= claimable_blocks_left(claimables@[#[trigger] idx@[q] as int], current_height)) && (exists|q: int|
                0 <= q < k && m == claimable_blocks_left(claimables@[#[trigger] idx@[q] as int], current_height)),
        decreases idx@.len() - k,
    {
        proof {
            assert(idx@.subrange(0, k + 1).drop_last() =~= idx@.subrange(0, k as int));
        }
        let b = claimables[idx[k]].blocks_left(current_height);
        result = match result {
            None => Some(b),
            Some(m) => Some(
                if b < m {
                    b
                } else {
                    m
                },
            ),
        };
        k = k + 1;
    }
    proof {
        assert(idx@.subrange(0, idx@.len() as int) =~= idx@);
    }
    result
}

/// Whether a published claim at `claim_fee_per_kw` is kept and broadcast
/// again: its fee rate plus the minimal replacement difference still
/// exceeds the estimate. Otherwise it is replaced.
pub fn keeps_claim_fee(claim_fee_per_kw: u32, estimate_sat_per_kw: u32) -> (r: bool)
    requires
        claim_fee_per_kw + MIN_REPLACEMENT_DIFF_SAT_PER_KW <= u32::MAX,
    ensures
        r == (claim_fee_per_kw + MIN_REPLACEMENT_DIFF_SAT_PER_KW > estimate_sat_per_kw),
{
    claim_fee_per_kw + MIN_REPLACEMENT_DIFF_SAT_PER_KW > estimate_sat_per_kw
}

/// The outcome of broadcasting a published claim again: a refusal of the
/// transaction as an under-paying replacement is expected, since the node
/// already holds it; any other refusal is an error.
pub fn rebroadcast_outcome(broadcast: Result<(), BroadcastError>) -> (r: Result<(), BroadcastError>)
    ensures
        match broadcast {
            Ok(()) => r is Ok,
            Err(BroadcastError::InsufficientFeeRejectingReplacement(_)) => r is Ok,
            Err(e) => r == Err::<(), BroadcastError>(e),
        },
{
    match broadcast {
        Ok(()) => Ok(()),
        Err(BroadcastError::InsufficientFeeRejectingReplacement(_)) => Ok(()),
        Err(e) => Err(e),
    }
}

} // verus!
