use vstd::prelude::*;

use super::fee_estimator::FeeEstimateError;

verus! {

/// Age in seconds after which a downloaded fee table is no longer used.
pub const STALE_SECONDS: u64 = 720;

/// Seconds over which downloads of the fee table share one cache key.
pub const CACHE_BUST_SECONDS: u64 = 300;

/// The distance of a row of the fee table to a confirmation target.
pub open spec fn row_distance(row: i32, conf_target: i32) -> int {
    let d = row - conf_target;
    if d < 0 {
        -d
    } else {
        d
    }
}

/// Whether `r` is the first of the rows nearest to the confirmation target.
pub open spec fn is_nearest_row(index: Seq<i32>, conf_target: i32, r: int) -> bool {
    &&& 0 <= r < index.len()
    &&& forall|j: int|
        0 <= j < r ==> row_distance(#[trigger] index[j], conf_target) > row_distance(
            index[r],
            conf_target,
        )
    &&& forall|j: int|
        r <= j < index.len() ==> row_distance(#[trigger] index[j], conf_target) >= row_distance(
            index[r],
            conf_target,
        )
}

/// Whether every row's distance to the target can be computed in an `i32`.
pub open spec fn distances_fit(index: Seq<i32>, conf_target: i32) -> bool {
    forall|i: int|
        0 <= i < index.len() ==> i32::MIN < #[trigger] index[i] - conf_target <= i32::MAX
}

fn distance(row: i32, conf_target: i32) -> (d: i32)
    requires
        i32::MIN < row - conf_target <= i32::MAX,
    ensures
        d == row_distance(row, conf_target),
{
    let diff = row - conf_target;
    if diff < 0 {
        -diff
    } else {
        diff
    }
}

/// The index of the row of the fee table nearest to a confirmation target
/// (the first such row); `None` for a table without rows.
pub fn nearest_row_index(index: &Vec<i32>, conf_target: i32) -> (r: Option<usize>)
    requires
        distances_fit(index@, conf_target),
    ensures
        r is None <==> index@.len() == 0,
        r matches Some(k) ==> is_nearest_row(index@, conf_target, k as int),
{
    if index.len() == 0 {
        return None;
    }
    let mut row_index: usize = 0;
    let mut prev = distance(index[0], conf_target);
    let mut i: usize = 1;
    while i < index.len()
        invariant
            1 <= i <= index@.len(),
            distances_fit(index@, conf_target),
            row_index < i,
            prev == row_distance(index@[row_index as int], conf_target),
            forall|j: int|
                0 <= j < row_index ==> row_distance(#[trigger] index@[j], conf_target) > prev,
            forall|j: int|
                row_index <= j < i ==> row_distance(#[trigger] index@[j], conf_target) >= prev,
        decreases index.len() - i,
    {
        let current = distance(index[i], conf_target);
        if current < prev {
            row_index = i;
            prev = current;
        }
        i = i + 1;
    }
    Some(row_index)
}

/// The rate of the fee table for a confirmation target: the cell in the
/// nearest row and the chosen column, for a table no older than
/// `STALE_SECONDS`. `Unavailable` where the table is stale, has no rows, no
/// usable column, or no such cell.
pub fn fee_table_rate(
    response_age_secs: u64,
    index: &Vec<i32>,
    data: &Vec<Vec<i32>>,
    conf_target: i32,
    column: Option<usize>,
) -> (r: Result<i32, FeeEstimateError>)
    requires
        distances_fit(index@, conf_target),
    ensures
        match r {
            Ok(rate) => response_age_secs <= STALE_SECONDS && exists|k: int, c: int|
                is_nearest_row(index@, conf_target, k) && column == Some(c as usize) && k
                    < data@.len() && c < data@[k]@.len() && rate == data@[k]@[c],
            Err(e) => e is Unavailable && (response_age_secs > STALE_SECONDS || index@.len() == 0
                || column is None || forall|k: int|
                is_nearest_row(index@, conf_target, k) ==> (k >= data@.len() || column->0
                    >= data@[k]@.len())),
        },
{
    if response_age_secs > STALE_SECONDS {
        return Err(FeeEstimateError::Unavailable);
    }
    let row_index = match nearest_row_index(index, conf_target) {
        Some(k) => k,
        None => return Err(FeeEstimateError::Unavailable),
    };
    let column_index = match column {
        Some(c) => c,
        None => return Err(FeeEstimateError::Unavailable),
    };
    proof {
        assert forall|k: int| is_nearest_row(index@, conf_target, k) implies k == row_index by {
            if k < row_index {
                assert(row_distance(index@[k], conf_target) > row_distance(
                    index@[row_index as int],
                    conf_target,
                ));
            } else if k > row_index {
                assert(row_distance(index@[row_index as int], conf_target) > row_distance(
                    index@[k],
                    conf_target,
                ));
            }
        }
    }
    if row_index >= data.len() {
        return Err(FeeEstimateError::Unavailable);
    }
    let row = &data[row_index];
    if column_index >= row.len() {
        return Err(FeeEstimateError::Unavailable);
    }
    Ok(row[column_index])
}

/// The cache key of a download of the fee table: the time rounded down to a
/// multiple of `CACHE_BUST_SECONDS`.
pub fn cache_bust(timestamp_secs: u64) -> (r: u64)
    ensures
        r == timestamp_secs - timestamp_secs % CACHE_BUST_SECONDS,
{
    timestamp_secs / CACHE_BUST_SECONDS * CACHE_BUST_SECONDS
}

} // verus!
