//! The inner join of two tables.

use vstd::prelude::*;

verus! {

/// The rows of `right` that go with `row`, each paired with it.
pub open spec fn partners<L, R, O>(
    row: L,
    right: Seq<R>,
    on: spec_fn(L, R) -> bool,
    pair: spec_fn(L, R) -> O,
) -> Seq<O> {
    right.filter(|other: R| on(row, other)).map_values(|other: R| pair(row, other))
}

/// The inner join of `left` and `right`: a row for each row of `left` and each
/// row of `right` that goes with it, made by `pair`. The rows come in the order
/// of `left`, and for one row of `left` in the order of `right`. A row of either
/// table that goes with none of the other gives no row.
pub open spec fn inner_join<L, R, O>(
    left: Seq<L>,
    right: Seq<R>,
    on: spec_fn(L, R) -> bool,
    pair: spec_fn(L, R) -> O,
) -> Seq<O> {
    left.flat_map(|row: L| partners(row, right, on, pair))
}

} // verus!
