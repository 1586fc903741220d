//! Bounded histories: what is kept when a record is added, and which records
//! a query for the newest ones returns.

use vstd::prelude::*;

verus! {

/// The history after `item` was added to `items` under a bound of `most`
/// records: the newest `most` records of the longer history.
pub open spec fn appended<T>(items: Seq<T>, item: T, most: nat) -> Seq<T> {
    let all = items.push(item);
    if all.len() > most {
        all.skip(all.len() - most)
    } else {
        all
    }
}

/// The records of `items` that `keep` holds of, the newest first.
pub open spec fn newest_first<T>(items: Seq<T>, keep: spec_fn(T) -> bool) -> Seq<T>
    decreases items.len(),
{
    if items.len() == 0 {
        Seq::empty()
    } else if keep(items.last()) {
        seq![items.last()] + newest_first(items.drop_last(), keep)
    } else {
        newest_first(items.drop_last(), keep)
    }
}

/// The first `limit` of the records of `items` that `keep` holds of, the
/// newest first; all of them where there are fewer.
pub open spec fn newest<T>(items: Seq<T>, keep: spec_fn(T) -> bool, limit: nat) -> Seq<T> {
    let all = newest_first(items, keep);
    if limit < all.len() {
        all.take(limit as int)
    } else {
        all
    }
}

} // verus!
