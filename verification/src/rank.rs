//! Ranking by similarity: the greatest first.

use crate::single::Single;
use vstd::prelude::*;

verus! {

/// A ranked list with one more item in its place: the item goes before the
/// trailing items that are strictly less similar than itself, and behind all
/// others. Items that cannot be compared stay where they are.
pub open spec fn placed<T>(list: Seq<(T, Single)>, item: (T, Single)) -> Seq<(T, Single)>
    decreases list.len(),
{
    if list.len() > 0 && list.last().1.lt(item.1) {
        placed(list.drop_last(), item).push(list.last())
    } else {
        list.push(item)
    }
}

/// The items ranked: each in turn is put in its place among those before it.
pub open spec fn ranked<T>(items: Seq<(T, Single)>) -> Seq<(T, Single)>
    decreases items.len(),
{
    if items.len() == 0 {
        Seq::empty()
    } else {
        placed(ranked(items.drop_last()), items.last())
    }
}

/// No item is directly followed by one that is strictly more similar.
pub open spec fn settled<T>(list: Seq<(T, Single)>) -> bool {
    forall|i: int| 0 <= i < list.len() - 1 ==> !(#[trigger] list[i]).1.lt(list[i + 1].1)
}

/// No item is followed, at any distance, by one that is strictly more
/// similar.
pub open spec fn descending<T>(list: Seq<(T, Single)>) -> bool {
    forall|i: int, j: int|
        0 <= i < j < list.len() ==> !(#[trigger] list[i]).1.lt((#[trigger] list[j]).1)
}

/// Every similarity in the list is a number.
pub open spec fn all_numbers<T>(list: Seq<(T, Single)>) -> bool {
    forall|i: int| 0 <= i < list.len() ==> !(#[trigger] list[i]).1.nan()
}

/// The index at which an item goes into a ranked list: behind it every item
/// is strictly less similar than the item, and the nearest item before it is
/// not.
pub open spec fn place_of<T>(list: Seq<(T, Single)>, item: (T, Single)) -> int
    decreases list.len(),
{
    if list.len() > 0 && list.last().1.lt(item.1) {
        place_of(list.drop_last(), item)
    } else {
        list.len() as int
    }
}

/// Placing an item is inserting it at its place.
pub proof fn lemma_placed_is_insert<T>(list: Seq<(T, Single)>, item: (T, Single))
    ensures
        0 <= place_of(list, item) <= list.len(),
        placed(list, item) == list.insert(place_of(list, item), item),
        forall|i: int|
            place_of(list, item) <= i < list.len() ==> (#[trigger] list[i]).1.lt(item.1),
        place_of(list, item) > 0 ==> !list[place_of(list, item) - 1].1.lt(item.1),
    decreases list.len(),
{
    if list.len() > 0 && list.last().1.lt(item.1) {
        let head = list.drop_last();
        lemma_placed_is_insert(head, item);
        let at = place_of(head, item);
        assert(head.insert(at, item).push(list.last()) =~= list.insert(at, item));
        assert forall|i: int| at <= i < list.len() implies (#[trigger] list[i]).1.lt(item.1) by {
            if i < head.len() {
                assert(list[i] == head[i]);
            }
        }
        if at > 0 {
            assert(list[at - 1] == head[at - 1]);
        }
    } else {
        assert(list.insert(list.len() as int, item) =~= list.push(item));
    }
}

/// Placing an item keeps what was there and adds the item.
proof fn lemma_placed_keeps_items<T>(list: Seq<(T, Single)>, item: (T, Single))
    ensures
        placed(list, item).len() == list.len() + 1,
        placed(list, item).to_multiset() == list.to_multiset().insert(item),
{
    lemma_placed_is_insert(list, item);
    let at = place_of(list, item);
    let whole = list.insert(at, item);
    assert(whole.remove(at) =~= list);
    vstd::seq_lib::to_multiset_remove(whole, at);
    assert(whole.to_multiset() =~= list.to_multiset().insert(item)) by {
        whole.to_multiset_ensures();
        assert(whole.contains(item)) by {
            assert(whole[at] == item);
        }
    }
}

/// Placing an item in a settled list leaves it settled.
proof fn lemma_placed_settled<T>(list: Seq<(T, Single)>, item: (T, Single))
    requires
        settled(list),
    ensures
        settled(placed(list, item)),
{
    lemma_placed_is_insert(list, item);
    let at = place_of(list, item);
    let whole = list.insert(at, item);
    assert forall|i: int| 0 <= i < whole.len() - 1 implies !(#[trigger] whole[i]).1.lt(
        whole[i + 1].1,
    ) by {
        if i + 1 < at {
            assert(whole[i] == list[i] && whole[i + 1] == list[i + 1]);
        } else if i + 1 == at {
            assert(whole[i] == list[at - 1] && whole[i + 1] == item);
        } else if i == at {
            assert(whole[i] == item && whole[i + 1] == list[at]);
        } else {
            assert(whole[i] == list[i - 1] && whole[i + 1] == list[i]);
        }
    }
}

/// Placing a number in a descending list of numbers leaves it descending.
proof fn lemma_placed_descending<T>(list: Seq<(T, Single)>, item: (T, Single))
    requires
        descending(list),
        all_numbers(list),
        !item.1.nan(),
    ensures
        descending(placed(list, item)),
        all_numbers(placed(list, item)),
{
    lemma_placed_is_insert(list, item);
    let at = place_of(list, item);
    let whole = list.insert(at, item);
    assert forall|i: int| 0 <= i < whole.len() implies !(#[trigger] whole[i]).1.nan() by {
        if i < at {
            assert(whole[i] == list[i]);
        } else if i > at {
            assert(whole[i] == list[i - 1]);
        }
    }
    assert forall|i: int, j: int| 0 <= i < j < whole.len() implies !(#[trigger] whole[i]).1.lt(
        (#[trigger] whole[j]).1,
    ) by {
        if j < at {
            assert(whole[i] == list[i] && whole[j] == list[j]);
        } else if j == at {
            assert(whole[i] == list[i] && whole[j] == item);
            assert(!list[at - 1].1.lt(item.1));
            if i < at - 1 {
                assert(!list[i].1.lt(list[at - 1].1));
            }
        } else if i == at {
            assert(whole[j] == list[j - 1]);
            assert(list[j - 1].1.lt(item.1));
        } else if i > at {
            assert(whole[i] == list[i - 1] && whole[j] == list[j - 1]);
        } else {
            assert(whole[i] == list[i] && whole[j] == list[j - 1]);
        }
    }
}

/// Ranking keeps every item, each as often as it was given.
pub proof fn lemma_ranked_keeps_items<T>(items: Seq<(T, Single)>)
    ensures
        ranked(items).len() == items.len(),
        ranked(items).to_multiset() == items.to_multiset(),
    decreases items.len(),
{
    if items.len() == 0 {
        assert(items =~= Seq::empty());
    } else {
        lemma_ranked_keeps_items(items.drop_last());
        lemma_placed_keeps_items(ranked(items.drop_last()), items.last());
        vstd::seq_lib::to_multiset_build(items.drop_last(), items.last());
        assert(items.drop_last().push(items.last()) =~= items);
    }
}

/// In a ranking no item is directly followed by one that is strictly more
/// similar.
pub proof fn lemma_ranked_settled<T>(items: Seq<(T, Single)>)
    ensures
        settled(ranked(items)),
    decreases items.len(),
{
    if items.len() > 0 {
        lemma_ranked_settled(items.drop_last());
        lemma_placed_settled(ranked(items.drop_last()), items.last());
    }
}

/// Where every similarity is a number, the ranking is in descending order of
/// similarity throughout.
pub proof fn lemma_ranked_descending<T>(items: Seq<(T, Single)>)
    requires
        all_numbers(items),
    ensures
        descending(ranked(items)),
        all_numbers(ranked(items)),
    decreases items.len(),
{
    if items.len() > 0 {
        let head = items.drop_last();
        assert forall|i: int| 0 <= i < head.len() implies !(#[trigger] head[i]).1.nan() by {
            assert(head[i] == items[i]);
        }
        lemma_ranked_descending(head);
        lemma_placed_descending(ranked(head), items.last());
    }
}

/// Where every similarity is a number and one item is strictly more similar
/// than every other, that item comes first in the ranking.
pub proof fn lemma_most_similar_first<T>(items: Seq<(T, Single)>, best: int)
    requires
        all_numbers(items),
        0 <= best < items.len(),
        forall|i: int| 0 <= i < items.len() && i != best ==> (#[trigger] items[i]).1.lt(items[best].1),
    ensures
        ranked(items)[0] == items[best],
{
    let list = ranked(items);
    lemma_ranked_keeps_items(items);
    lemma_ranked_descending(items);
    list.to_multiset_ensures();
    items.to_multiset_ensures();
    assert(items.contains(items[best]));
    assert(items.to_multiset().count(items[best]) > 0);
    assert(list.to_multiset().count(items[best]) > 0);
    assert(list.contains(items[best]));
    let at = choose|at: int| 0 <= at < list.len() && list[at] == items[best];
    assert(list.contains(list[0]));
    assert(list.to_multiset().count(list[0]) > 0);
    assert(items.to_multiset().count(list[0]) > 0);
    assert(items.contains(list[0]));
    let from = choose|from: int| 0 <= from < items.len() && items[from] == list[0];
    if at > 0 {
        assert(!list[0].1.lt(list[at].1));
        if from != best {
            assert(items[from].1.lt(items[best].1));
        }
    }
}

/// Puts `item` in its place in a ranked list.
fn place<T>(list: &mut Vec<(T, Single)>, item: (T, Single))
    ensures
        final(list)@ == placed(old(list)@, item),
{
    let mut at: usize = list.len();
    while at > 0 && list[at - 1].1.less_than(&item.1)
        invariant
            at <= list.len(),
            *list == *old(list),
            forall|i: int| at <= i < list.len() ==> (#[trigger] list@[i]).1.lt(item.1),
        decreases at,
    {
        at -= 1;
    }
    proof {
        lemma_placed_is_insert(list@, item);
        let place = place_of(list@, item);
        if at < place {
            assert(list@[place - 1].1.lt(item.1));
        } else if place < at {
            assert(list@[at - 1].1.lt(item.1));
        }
    }
    list.insert(at, item);
}

/// Ranks the items by similarity, the greatest first. Each item in turn goes
/// before the trailing items that are strictly less similar, so items of
/// equal similarity keep their order, and one whose similarity is not a
/// number stays behind all that came before it.
pub fn rank<T>(items: Vec<(T, Single)>) -> (list: Vec<(T, Single)>)
    ensures
        list@ == ranked(items@),
        list@.to_multiset() == items@.to_multiset(),
        settled(list@),
        all_numbers(items@) ==> descending(list@),
{
    proof {
        lemma_ranked_keeps_items(items@);
        lemma_ranked_settled(items@);
        if all_numbers(items@) {
            lemma_ranked_descending(items@);
        }
    }
    let mut list: Vec<(T, Single)> = Vec::new();
    for item in iter: items
        invariant
            iter.seq() == items@,
            list@ == ranked(items@.take(iter.index() as int)),
    {
        proof {
            assert(items@.take(iter.index() + 1).drop_last() == items@.take(iter.index() as int));
        }
        place(&mut list, item);
    }
    proof {
        assert(items@.take(items@.len() as int) == items@);
    }
    list
}

} // verus!
