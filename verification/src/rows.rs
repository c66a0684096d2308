//! Filtering, converting and searching lists of rows.

use vstd::prelude::*;

verus! {

/// The rows a test holds for, in order.
pub(crate) fn keep<T, F: Fn(&T) -> bool>(
    rows: Vec<T>,
    test: F,
    Ghost(pred): Ghost<spec_fn(T) -> bool>,
) -> (kept: Vec<T>)
    requires
        forall|row: T| #[trigger] test.requires((&row,)),
        forall|row: T, answer: bool| test.ensures((&row,), answer) ==> answer == pred(row),
    ensures
        kept@ == rows@.filter(pred),
{
    let ghost all = rows@;
    let mut kept: Vec<T> = Vec::new();
    proof {
        reveal(Seq::filter);
        assert(kept@ =~= all.take(0).filter(pred));
    }
    for row in it: rows
        invariant
            it.seq() == all,
            forall|row: T| #[trigger] test.requires((&row,)),
            forall|row: T, answer: bool| test.ensures((&row,), answer) ==> answer == pred(row),
            kept@ == all.take(it.index() as int).filter(pred),
    {
        let ghost done = it.index() as int;
        proof {
            reveal(Seq::filter);
            assert(all.take(done + 1).drop_last() =~= all.take(done));
            assert(all.take(done + 1).last() == row);
        }
        if test(&row) {
            kept.push(row);
        }
    }
    assert(all.take(all.len() as int) =~= all);
    kept
}

/// The rows converted one by one.
pub(crate) fn convert<T, U, F: Fn(T) -> U>(rows: Vec<T>, conversion: F) -> (converted: Vec<U>)
    requires
        forall|row: T| #[trigger] conversion.requires((row,)),
    ensures
        converted@.len() == rows@.len(),
        forall|i: int|
            0 <= i < rows@.len() ==> conversion.ensures((rows@[i],), #[trigger] converted@[i]),
{
    let ghost all = rows@;
    let mut converted: Vec<U> = Vec::new();
    for row in it: rows
        invariant
            it.seq() == all,
            forall|row: T| #[trigger] conversion.requires((row,)),
            converted@.len() == it.index(),
            forall|i: int|
                0 <= i < it.index() ==> conversion.ensures((all[i],), #[trigger] converted@[i]),
    {
        let ghost done = it.index() as int;
        assert(row == all[done]);
        converted.push(conversion(row));
    }
    converted
}

/// Whether a test holds for some row.
pub(crate) fn any<T, F: Fn(&T) -> bool>(
    rows: &Vec<T>,
    test: F,
    Ghost(pred): Ghost<spec_fn(T) -> bool>,
) -> (found: bool)
    requires
        forall|row: T| #[trigger] test.requires((&row,)),
        forall|row: T, answer: bool| test.ensures((&row,), answer) ==> answer == pred(row),
    ensures
        found == exists|i: int| 0 <= i < rows@.len() && pred(#[trigger] rows@[i]),
{
    let mut i: usize = 0;
    while i < rows.len()
        invariant
            i <= rows@.len(),
            forall|row: T| #[trigger] test.requires((&row,)),
            forall|row: T, answer: bool| test.ensures((&row,), answer) ==> answer == pred(row),
            forall|k: int| 0 <= k < i ==> !pred(#[trigger] rows@[k]),
        decreases rows@.len() - i,
    {
        if test(&rows[i]) {
            assert(pred(rows@[i as int]));
            return true;
        }
        i += 1;
    }
    false
}

/// How many rows a test holds for.
pub(crate) fn count<T, F: Fn(&T) -> bool>(
    rows: &Vec<T>,
    test: F,
    Ghost(pred): Ghost<spec_fn(T) -> bool>,
) -> (total: usize)
    requires
        forall|row: T| #[trigger] test.requires((&row,)),
        forall|row: T, answer: bool| test.ensures((&row,), answer) ==> answer == pred(row),
    ensures
        total == rows@.filter(pred).len(),
        total <= rows@.len(),
{
    let mut total: usize = 0;
    let mut i: usize = 0;
    proof {
        reveal(Seq::filter);
        assert(rows@.take(0).filter(pred).len() == 0);
    }
    while i < rows.len()
        invariant
            i <= rows@.len(),
            total <= i,
            forall|row: T| #[trigger] test.requires((&row,)),
            forall|row: T, answer: bool| test.ensures((&row,), answer) ==> answer == pred(row),
            total == rows@.take(i as int).filter(pred).len(),
        decreases rows@.len() - i,
    {
        proof {
            reveal(Seq::filter);
            assert(rows@.take(i + 1).drop_last() =~= rows@.take(i as int));
            assert(rows@.take(i + 1).last() == rows@[i as int]);
        }
        if test(&rows[i]) {
            total += 1;
        }
        i += 1;
    }
    assert(rows@.take(i as int) =~= rows@);
    total
}

/// The first row a test holds for.
pub open spec fn first_where<T>(rows: Seq<T>, pred: spec_fn(T) -> bool) -> Option<T>
    decreases rows.len(),
{
    if rows.len() == 0 {
        None
    } else if pred(rows[0]) {
        Some(rows[0])
    } else {
        first_where(rows.drop_first(), pred)
    }
}

/// Where the first row stands that a test holds for.
pub(crate) fn find<T, F: Fn(&T) -> bool>(
    rows: &Vec<T>,
    test: F,
    Ghost(pred): Ghost<spec_fn(T) -> bool>,
) -> (at: Option<usize>)
    requires
        forall|row: T| #[trigger] test.requires((&row,)),
        forall|row: T, answer: bool| test.ensures((&row,), answer) ==> answer == pred(row),
    ensures
        match at {
            Some(i) => i < rows@.len() && first_where(rows@, pred) == Some(rows@[i as int]),
            None => first_where(rows@, pred) is None,
        },
{
    let mut i: usize = 0;
    assert(rows@.skip(0) =~= rows@);
    while i < rows.len()
        invariant
            i <= rows@.len(),
            forall|row: T| #[trigger] test.requires((&row,)),
            forall|row: T, answer: bool| test.ensures((&row,), answer) ==> answer == pred(row),
            first_where(rows@, pred) == first_where(rows@.skip(i as int), pred),
        decreases rows@.len() - i,
    {
        assert(rows@.skip(i as int)[0] == rows@[i as int]);
        if test(&rows[i]) {
            return Some(i);
        }
        assert(rows@.skip(i as int).drop_first() =~= rows@.skip(i + 1));
        i += 1;
    }
    None
}

/// An optional reference as an optional value.
pub open spec fn owned<T>(value: Option<&T>) -> Option<T> {
    match value {
        Some(inner) => Some(*inner),
        None => None,
    }
}

/// A flag that is shown only when it is set.
pub open spec fn shown_if(flag: bool) -> Option<bool> {
    if flag {
        Some(true)
    } else {
        None
    }
}

/// A flag that is shown only when it is set.
pub fn flag_if(flag: bool) -> (shown: Option<bool>)
    ensures
        shown == shown_if(flag),
{
    if flag {
        Some(true)
    } else {
        None
    }
}

/// A filtered list holds exactly the rows that meet the test.
pub proof fn lemma_filter_contains<T>(rows: Seq<T>, pred: spec_fn(T) -> bool, row: T)
    ensures
        rows.filter(pred).contains(row) <==> rows.contains(row) && pred(row),
    decreases rows.len(),
{
    reveal(Seq::filter);
    if rows.len() > 0 {
        let rest = rows.drop_last();
        let kept = rest.filter(pred);
        lemma_filter_contains(rest, pred, row);
        if rest.contains(row) {
            let i = choose|i: int| 0 <= i < rest.len() && rest[i] == row;
            assert(rows[i] == row);
        }
        if rows.contains(row) {
            let i = choose|i: int| 0 <= i < rows.len() && rows[i] == row;
            if i < rest.len() {
                assert(rest[i] == row);
            }
        }
        if pred(rows.last()) {
            let all = kept.push(rows.last());
            if kept.contains(row) {
                let i = choose|i: int| 0 <= i < kept.len() && kept[i] == row;
                assert(all[i] == row);
            }
            if rows.last() == row {
                assert(all[kept.len() as int] == row);
                assert(rows[rows.len() - 1] == row);
            }
            if all.contains(row) {
                let i = choose|i: int| 0 <= i < all.len() && all[i] == row;
                if i < kept.len() {
                    assert(kept[i] == row);
                }
            }
        }
    }
}

} // verus!
