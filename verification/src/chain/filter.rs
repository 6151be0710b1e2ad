use vstd::prelude::*;

use super::types::Txo;

verus! {

/// The outputs among the first `n` whose check found no filtered sender, in
/// their order.
pub open spec fn unflagged(txos: Seq<Txo>, flagged: Seq<Result<bool, ()>>, n: int) -> Seq<Txo>
    decreases n,
{
    if n <= 0 {
        Seq::empty()
    } else if flagged[n - 1] == Ok::<bool, ()>(false) {
        unflagged(txos, flagged, n - 1).push(txos[n - 1])
    } else {
        unflagged(txos, flagged, n - 1)
    }
}

/// Drops the outputs whose senders are filtered, given for each output
/// whether a filtered address sent it; where any of those checks failed,
/// the whole filtering fails.
pub fn filter_txos(txos: Vec<Txo>, flagged: &Vec<Result<bool, ()>>) -> (r: Result<Vec<Txo>, ()>)
    requires
        txos@.len() == flagged@.len(),
    ensures
        (exists|i: int| 0 <= i < flagged@.len() && #[trigger] flagged@[i] is Err) <==> r is Err,
        r matches Ok(kept) ==> kept@ == unflagged(txos@, flagged@, txos@.len() as int),
{
    let ghost all = txos@;
    let mut kept: Vec<Txo> = Vec::new();
    let mut i: usize = 0;
    let mut rest = txos;
    while i < flagged.len()
        invariant
            all.len() == flagged@.len(),
            0 <= i <= flagged@.len(),
            rest@ == all.subrange(i as int, all.len() as int),
            forall|j: int| 0 <= j < i ==> !(#[trigger] flagged@[j] is Err),
            kept@ == unflagged(all, flagged@, i as int),
        decreases flagged@.len() - i,
    {
        let txo = rest.remove(0);
        assert(txo == all[i as int]);
        assert(rest@ =~= all.subrange(i + 1, all.len() as int));
        match flagged[i] {
            Err(()) => {
                return Err(());
            },
            Ok(true) => {},
            Ok(false) => {
                kept.push(txo);
            },
        }
        i = i + 1;
    }
    Ok(kept)
}

/// What the payout pays from after the chain filter: the outputs whose
/// check found no filtered sender, or all of them where any check failed.
pub open spec fn filtered_or_all(txos: Seq<Txo>, flagged: Seq<Result<bool, ()>>) -> Seq<Txo> {
    if exists|i: int| 0 <= i < flagged.len() && #[trigger] flagged[i] is Err {
        txos
    } else {
        unflagged(txos, flagged, txos.len() as int)
    }
}

/// Filters the outputs by their senders; where the filtering fails, the
/// outputs are kept unfiltered.
pub fn filter_or_keep(txos: Vec<Txo>, flagged: &Vec<Result<bool, ()>>) -> (r: Vec<Txo>)
    requires
        txos@.len() == flagged@.len(),
    ensures
        r@ == filtered_or_all(txos@, flagged@),
{
    let mut i: usize = 0;
    while i < flagged.len()
        invariant
            0 <= i <= flagged@.len(),
            forall|j: int| 0 <= j < i ==> !(#[trigger] flagged@[j] is Err),
        decreases flagged@.len() - i,
    {
        if flagged[i].is_err() {
            return txos;
        }
        i = i + 1;
    }
    match filter_txos(txos, flagged) {
        Ok(kept) => kept,
        Err(()) => Vec::new(),
    }
}

} // verus!
