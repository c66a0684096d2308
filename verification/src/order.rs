//! Stable sorting by a composite key.

use vstd::prelude::*;
use vstd::string::*;

use crate::text::{
    lemma_precedes_irreflexive, lemma_precedes_total, lemma_precedes_transitive, precedes,
    same_text, text_precedes,
};

verus! {

/// What rows are ordered by: a number, then a text, then an optional text of
/// which an absent one stands first.
pub struct Key {
    pub rank: i128,
    pub first: String,
    pub second: Option<String>,
}

/// The content of a [`Key`].
pub struct Rank {
    pub rank: int,
    pub first: Seq<char>,
    pub second: Option<Seq<char>>,
}

impl View for Key {
    type V = Rank;

    open spec fn view(&self) -> Rank {
        Rank {
            rank: self.rank as int,
            first: self.first@,
            second: crate::text::opt_string(self.second),
        }
    }
}

/// Whether one optional text stands before another: an absent one first.
pub open spec fn opt_precedes(a: Option<Seq<char>>, b: Option<Seq<char>>) -> bool {
    match (a, b) {
        (None, Some(_)) => true,
        (Some(x), Some(y)) => precedes(x, y),
        _ => false,
    }
}

/// Whether one key stands strictly before another.
pub open spec fn before(a: Rank, b: Rank) -> bool {
    ||| a.rank < b.rank
    ||| a.rank == b.rank && precedes(a.first, b.first)
    ||| a.rank == b.rank && a.first == b.first && opt_precedes(a.second, b.second)
}

/// A key that is a number alone.
pub open spec fn by_number(rank: int) -> Rank {
    Rank { rank, first: Seq::empty(), second: None }
}

/// A key that is a text alone.
pub open spec fn by_text(first: Seq<char>) -> Rank {
    Rank { rank: 0, first, second: None }
}

/// A key that is a number alone.
pub fn number_key(rank: i128) -> (key: Key)
    ensures
        key@ == by_number(rank as int),
{
    Key { rank, first: String::new(), second: None }
}

/// A key that is a text alone.
pub fn text_key(first: String) -> (key: Key)
    ensures
        key@ == by_text(first@),
{
    Key { rank: 0, first, second: None }
}

fn stands_before(a: &Key, b: &Key) -> (result: bool)
    ensures
        result == before(a@, b@),
{
    proof {
        lemma_precedes_irreflexive(a.first@);
    }
    if a.rank != b.rank {
        return a.rank < b.rank;
    }
    if text_precedes(a.first.as_str(), b.first.as_str()) {
        return true;
    }
    if !same_text(a.first.as_str(), b.first.as_str()) {
        return false;
    }
    match (&a.second, &b.second) {
        (None, Some(_)) => true,
        (Some(x), Some(y)) => text_precedes(x.as_str(), y.as_str()),
        _ => false,
    }
}

/// The rows with one more put behind every row it does not stand before.
pub open spec fn inserted<T>(sorted: Seq<T>, item: T, key: spec_fn(T) -> Rank) -> Seq<T>
    decreases sorted.len(),
{
    if sorted.len() > 0 && before(key(item), key(sorted.last())) {
        inserted(sorted.drop_last(), item, key).push(sorted.last())
    } else {
        sorted.push(item)
    }
}

/// The rows in ascending order of their keys; rows with equal keys keep their
/// order.
pub open spec fn stable_sort<T>(list: Seq<T>, key: spec_fn(T) -> Rank) -> Seq<T>
    decreases list.len(),
{
    if list.len() == 0 {
        list
    } else {
        inserted(stable_sort(list.drop_last(), key), list.last(), key)
    }
}

proof fn lemma_inserted_at<T>(sorted: Seq<T>, item: T, key: spec_fn(T) -> Rank, at: int)
    requires
        0 <= at <= sorted.len(),
        forall|i: int|
            at <= i < sorted.len() ==> before(key(item), key(#[trigger] sorted[i])),
        at > 0 ==> !before(key(item), key(sorted[at - 1])),
    ensures
        inserted(sorted, item, key) == sorted.insert(at, item),
    decreases sorted.len(),
{
    if at == sorted.len() {
        assert(sorted.insert(at, item) =~= sorted.push(item));
    } else {
        assert(before(key(item), key(sorted.last())));
        assert forall|i: int| at <= i < sorted.drop_last().len() implies before(
            key(item),
            key(#[trigger] sorted.drop_last()[i]),
        ) by {
            assert(sorted.drop_last()[i] == sorted[i]);
        }
        lemma_inserted_at(sorted.drop_last(), item, key, at);
        assert(sorted.drop_last().insert(at, item).push(sorted.last()) =~= sorted.insert(at, item));
    }
}

/// The rows of a list of keyed rows.
pub open spec fn rows_of<T>(pairs: Seq<(Key, T)>) -> Seq<T> {
    pairs.map_values(|pair: (Key, T)| pair.1)
}

/// Whether each row stands beside its key.
pub open spec fn keyed_by<T>(pairs: Seq<(Key, T)>, key: spec_fn(T) -> Rank) -> bool {
    forall|i: int| 0 <= i < pairs.len() ==> (#[trigger] pairs[i]).0@ == key(pairs[i].1)
}

/// Sorts keyed rows.
pub(crate) fn sort_keyed<T>(pairs: Vec<(Key, T)>, Ghost(key): Ghost<spec_fn(T) -> Rank>) -> (rows: Vec<T>)
    requires
        keyed_by(pairs@, key),
    ensures
        rows@ == stable_sort(rows_of(pairs@), key),
{
    let ghost all = pairs@;
    let mut sorted: Vec<(Key, T)> = Vec::new();
    assert(rows_of(sorted@) =~= stable_sort(rows_of(all.take(0)), key));
    for pair in it: pairs
        invariant
            it.seq() == all,
            keyed_by(all, key),
            keyed_by(sorted@, key),
            rows_of(sorted@) == stable_sort(rows_of(all.take(it.index() as int)), key),
    {
        let ghost done = it.index() as int;
        let ghost prior = sorted@;
        assert(pair == all[done]);
        assert(pair.0@ == key(pair.1));
        let mut at: usize = sorted.len();
        while at > 0 && stands_before(&pair.0, &sorted[at - 1].0)
            invariant
                at <= sorted@.len(),
                sorted@ == prior,
                keyed_by(prior, key),
                pair.0@ == key(pair.1),
                forall|i: int|
                    at <= i < prior.len() ==> before(key(pair.1), key((#[trigger] prior[i]).1)),
            decreases at,
        {
            at -= 1;
        }
        proof {
            assert forall|i: int| at <= i < rows_of(prior).len() implies before(
                key(pair.1),
                key(#[trigger] rows_of(prior)[i]),
            ) by {
                assert(rows_of(prior)[i] == prior[i].1);
            }
            lemma_inserted_at(rows_of(prior), pair.1, key, at as int);
            assert(rows_of(all.take(done + 1)).drop_last() =~= rows_of(all.take(done)));
            assert(rows_of(all.take(done + 1)).last() == pair.1);
        }
        let ghost row = pair.1;
        sorted.insert(at, pair);
        assert(rows_of(sorted@) =~= rows_of(prior).insert(at as int, row));
    }
    assert(all.take(all.len() as int) =~= all);
    let ghost ordered = sorted@;
    let mut rows: Vec<T> = Vec::new();
    for pair in it: sorted
        invariant
            it.seq() == ordered,
            rows@ == rows_of(ordered.take(it.index() as int)),
    {
        let ghost done = it.index() as int;
        rows.push(pair.1);
        assert(rows@ =~= rows_of(ordered.take(done + 1)));
    }
    assert(ordered.take(ordered.len() as int) =~= ordered);
    rows
}

// ---------------------------------------------------------------------------
// Laws
// ---------------------------------------------------------------------------

/// Keys are ordered weakly: none stands before itself, and what stands
/// between two keys can be placed against any third.
pub proof fn law_keys_are_ordered(a: Rank, b: Rank, c: Rank)
    ensures
        !before(a, a),
        before(a, b) && before(b, c) ==> before(a, c),
        before(a, c) ==> before(a, b) || before(b, c),
{
    lemma_precedes_irreflexive(a.first);
    lemma_precedes_irreflexive(b.first);
    lemma_precedes_irreflexive(c.first);
    lemma_precedes_total(a.first, b.first);
    lemma_precedes_total(b.first, c.first);
    if precedes(a.first, b.first) && precedes(b.first, c.first) {
        lemma_precedes_transitive(a.first, b.first, c.first);
    }
    if precedes(a.first, c.first) && precedes(c.first, b.first) {
        lemma_precedes_transitive(a.first, c.first, b.first);
    }
    if precedes(b.first, a.first) && precedes(a.first, c.first) {
        lemma_precedes_transitive(b.first, a.first, c.first);
    }
    if let (Some(x), Some(z)) = (a.second, c.second) {
        lemma_precedes_irreflexive(x);
        if let Some(y) = b.second {
            lemma_precedes_total(x, y);
            lemma_precedes_total(y, z);
            if precedes(x, y) && precedes(y, z) {
                lemma_precedes_transitive(x, y, z);
            }
            if precedes(y, x) && precedes(x, z) {
                lemma_precedes_transitive(y, x, z);
            }
        }
    }
    if let Some(x) = a.second {
        lemma_precedes_irreflexive(x);
    }
}

/// Whether no row stands before an earlier one.
pub open spec fn is_ordered<T>(list: Seq<T>, key: spec_fn(T) -> Rank) -> bool {
    forall|i: int, j: int|
        0 <= i < j < list.len() ==> !before(key(#[trigger] list[j]), key(#[trigger] list[i]))
}

proof fn lemma_inserted_keeps<T>(sorted: Seq<T>, item: T, key: spec_fn(T) -> Rank)
    requires
        is_ordered(sorted, key),
    ensures
        is_ordered(inserted(sorted, item, key), key),
        inserted(sorted, item, key).to_multiset() == sorted.push(item).to_multiset(),
        inserted(sorted, item, key).len() == sorted.len() + 1,
        forall|i: int|
            0 <= i <= sorted.len() ==> #[trigger] inserted(sorted, item, key)[i] == item
                || exists|k: int|
                0 <= k < sorted.len() && sorted[k] == inserted(sorted, item, key)[i],
    decreases sorted.len(),
{
    broadcast use vstd::seq_lib::group_to_multiset_ensures;

    let done = inserted(sorted, item, key);
    if sorted.len() > 0 && before(key(item), key(sorted.last())) {
        let rest = sorted.drop_last();
        let last = sorted.last();
        assert(is_ordered(rest, key)) by {
            assert forall|i: int, j: int| 0 <= i < j < rest.len() implies !before(
                key(#[trigger] rest[j]),
                key(#[trigger] rest[i]),
            ) by {
                assert(!before(key(sorted[j]), key(sorted[i])));
            }
        }
        lemma_inserted_keeps(rest, item, key);
        let inner = inserted(rest, item, key);
        assert(done == inner.push(last));
        assert forall|i: int, j: int| 0 <= i < j < done.len() implies !before(
            key(#[trigger] done[j]),
            key(#[trigger] done[i]),
        ) by {
            if j < inner.len() {
                assert(inner[j] == done[j] && inner[i] == done[i]);
            } else {
                assert(inner[i] == done[i]);
                if inner[i] == item {
                    law_keys_are_ordered(key(item), key(last), key(item));
                } else {
                    let k = choose|k: int| 0 <= k < rest.len() && rest[k] == inner[i];
                    assert(sorted[k] == done[i]);
                    assert(!before(key(sorted[sorted.len() - 1]), key(sorted[k])));
                }
            }
        }
        assert forall|i: int| 0 <= i <= sorted.len() implies #[trigger] done[i] == item || exists|
            k: int,
        |
            0 <= k < sorted.len() && sorted[k] == done[i] by {
            if i < inner.len() {
                assert(inner[i] == done[i]);
                if inner[i] != item {
                    let k = choose|k: int| 0 <= k < rest.len() && rest[k] == inner[i];
                    assert(sorted[k] == done[i]);
                }
            } else {
                assert(sorted[sorted.len() - 1] == done[i]);
            }
        }
        assert(rest.push(last) =~= sorted);
        assert(inner.push(last).to_multiset() =~= inner.to_multiset().insert(last));
        assert(rest.push(item).to_multiset() =~= rest.to_multiset().insert(item));
        assert(rest.push(last).to_multiset() =~= rest.to_multiset().insert(last));
        assert(sorted.push(item).to_multiset() =~= sorted.to_multiset().insert(item));
        assert(done.to_multiset() =~= sorted.push(item).to_multiset());
    } else {
        assert forall|i: int, j: int| 0 <= i < j < done.len() implies !before(
            key(#[trigger] done[j]),
            key(#[trigger] done[i]),
        ) by {
            if j == sorted.len() && i < sorted.len() - 1 {
                assert(!before(key(sorted[sorted.len() - 1]), key(sorted[i])));
                law_keys_are_ordered(key(item), key(sorted.last()), key(sorted[i]));
            } else if j < sorted.len() {
                assert(sorted[j] == done[j] && sorted[i] == done[i]);
            }
        }
    }
}

/// Sorting orders the rows and neither loses nor invents one.
pub proof fn law_sorting_orders_and_keeps_the_rows<T>(list: Seq<T>, key: spec_fn(T) -> Rank)
    ensures
        is_ordered(stable_sort(list, key), key),
        stable_sort(list, key).to_multiset() == list.to_multiset(),
        stable_sort(list, key).len() == list.len(),
    decreases list.len(),
{
    broadcast use vstd::seq_lib::group_to_multiset_ensures;

    if list.len() > 0 {
        let rest = list.drop_last();
        law_sorting_orders_and_keeps_the_rows(rest, key);
        lemma_inserted_keeps(stable_sort(rest, key), list.last(), key);
        assert(rest.push(list.last()) =~= list);
        assert(stable_sort(rest, key).push(list.last()).to_multiset() =~= stable_sort(
            rest,
            key,
        ).to_multiset().insert(list.last()));
        assert(rest.push(list.last()).to_multiset() =~= rest.to_multiset().insert(list.last()));
    }
}

/// The rows with one key.
pub open spec fn with_key<T>(key: spec_fn(T) -> Rank, rank: Rank) -> spec_fn(T) -> bool {
    |row: T| key(row) == rank
}

proof fn lemma_filter_pushed<T>(list: Seq<T>, row: T, test: spec_fn(T) -> bool)
    ensures
        list.push(row).filter(test) == if test(row) {
            list.filter(test).push(row)
        } else {
            list.filter(test)
        },
{
    reveal(Seq::filter);
    assert(list.push(row).drop_last() =~= list);
}

proof fn lemma_inserted_behind_its_equals<T>(
    sorted: Seq<T>,
    item: T,
    key: spec_fn(T) -> Rank,
    rank: Rank,
)
    ensures
        inserted(sorted, item, key).filter(with_key(key, rank)) == sorted.push(item).filter(
            with_key(key, rank),
        ),
    decreases sorted.len(),
{
    let test = with_key(key, rank);
    if sorted.len() > 0 && before(key(item), key(sorted.last())) {
        let rest = sorted.drop_last();
        let last = sorted.last();
        let inner = inserted(rest, item, key);
        lemma_inserted_behind_its_equals(rest, item, key, rank);
        law_keys_are_ordered(key(item), key(item), key(item));
        lemma_filter_pushed(inner, last, test);
        lemma_filter_pushed(rest, item, test);
        lemma_filter_pushed(rest, last, test);
        lemma_filter_pushed(sorted, item, test);
        assert(rest.push(last) =~= sorted);
    }
}

/// Rows with equal keys keep the order they came in: the rows with one key
/// are the same list before and after.
pub proof fn law_sorting_is_stable<T>(list: Seq<T>, key: spec_fn(T) -> Rank, rank: Rank)
    ensures
        stable_sort(list, key).filter(with_key(key, rank)) == list.filter(with_key(key, rank)),
    decreases list.len(),
{
    if list.len() > 0 {
        let rest = list.drop_last();
        let sorted = stable_sort(rest, key);
        law_sorting_is_stable(rest, key, rank);
        lemma_inserted_behind_its_equals(sorted, list.last(), key, rank);
        lemma_filter_pushed(sorted, list.last(), with_key(key, rank));
        lemma_filter_pushed(rest, list.last(), with_key(key, rank));
        assert(rest.push(list.last()) =~= list);
    }
}

/// Rows already in order stay as they are.
pub proof fn law_sorting_leaves_ordered_rows<T>(list: Seq<T>, key: spec_fn(T) -> Rank)
    requires
        is_ordered(list, key),
    ensures
        stable_sort(list, key) == list,
    decreases list.len(),
{
    if list.len() > 0 {
        let rest = list.drop_last();
        assert forall|i: int, j: int| 0 <= i < j < rest.len() implies !before(
            key(#[trigger] rest[j]),
            key(#[trigger] rest[i]),
        ) by {
            assert(!before(key(list[j]), key(list[i])));
        }
        law_sorting_leaves_ordered_rows(rest, key);
        if rest.len() > 0 {
            assert(!before(key(list[list.len() - 1]), key(list[list.len() - 2])));
        }
        assert(rest.push(list.last()) =~= list);
    }
}

/// How often a row stands among those that meet a test.
pub proof fn lemma_filter_count<T>(list: Seq<T>, test: spec_fn(T) -> bool, row: T)
    ensures
        list.filter(test).to_multiset().count(row) == if test(row) {
            list.to_multiset().count(row)
        } else {
            0
        },
    decreases list.len(),
{
    broadcast use vstd::seq_lib::group_to_multiset_ensures;

    reveal(Seq::filter);
    if list.len() > 0 {
        let rest = list.drop_last();
        lemma_filter_count(rest, test, row);
        assert(rest.push(list.last()) =~= list);
        assert(list.to_multiset() =~= rest.to_multiset().insert(list.last()));
        if test(list.last()) {
            assert(rest.filter(test).push(list.last()).to_multiset() =~= rest.filter(
                test,
            ).to_multiset().insert(list.last()));
        }
    }
}

/// Sorting the rows that meet a test gives each of them as often as the list
/// has it, and no other, in order.
pub proof fn lemma_sorted_matches<T>(
    list: Seq<T>,
    test: spec_fn(T) -> bool,
    key: spec_fn(T) -> Rank,
    row: T,
)
    ensures
        stable_sort(list.filter(test), key).to_multiset().count(row) == if test(row) {
            list.to_multiset().count(row)
        } else {
            0
        },
        stable_sort(list.filter(test), key).contains(row) <==> list.contains(row) && test(row),
        stable_sort(list.filter(test), key).len() == list.filter(test).len(),
        is_ordered(stable_sort(list.filter(test), key), key),
{
    broadcast use vstd::seq_lib::group_to_multiset_ensures;

    let kept = list.filter(test);
    let sorted = stable_sort(kept, key);
    law_sorting_orders_and_keeps_the_rows(kept, key);
    lemma_filter_count(list, test, row);
    assert(sorted.contains(row) <==> sorted.to_multiset().count(row) > 0);
    assert(list.contains(row) <==> list.to_multiset().count(row) > 0);
}

} // verus!
