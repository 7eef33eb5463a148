//! The order of the shelves on the landing page.
//!
//! The shelves that are known by their titles come in the order in which those
//! titles are listed, and all others after them. Shelves that the list does not
//! tell apart stay as they were.

use vstd::prelude::*;

use crate::source;
use crate::source::{Shelf, ShelfView};
use crate::text;

verus! {

broadcast use vstd::string::group_string_axioms;

/// Where a title is listed first; behind the list where it is not listed.
pub open spec fn rank_of(order: Seq<Seq<char>>, title: Seq<char>) -> nat
    decreases order.len(),
{
    if order.len() == 0 || order[0] == title {
        0
    } else {
        1 + rank_of(order.skip(1), title)
    }
}

/// The shelves of a rank, in order.
pub open spec fn of_rank(shelves: Seq<ShelfView>, order: Seq<Seq<char>>, rank: nat) -> Seq<
    ShelfView,
>
    decreases shelves.len(),
{
    if shelves.len() == 0 {
        Seq::empty()
    } else if rank_of(order, shelves.last().title) == rank {
        of_rank(shelves.drop_last(), order, rank).push(shelves.last())
    } else {
        of_rank(shelves.drop_last(), order, rank)
    }
}

/// The shelves of any other rank, in order.
pub open spec fn off_rank(shelves: Seq<ShelfView>, order: Seq<Seq<char>>, rank: nat) -> Seq<
    ShelfView,
>
    decreases shelves.len(),
{
    if shelves.len() == 0 {
        Seq::empty()
    } else if rank_of(order, shelves.last().title) == rank {
        off_rank(shelves.drop_last(), order, rank)
    } else {
        off_rank(shelves.drop_last(), order, rank).push(shelves.last())
    }
}

/// The shelves of the first so many ranks, rank by rank.
pub open spec fn below_rank(shelves: Seq<ShelfView>, order: Seq<Seq<char>>, ranks: nat) -> Seq<
    ShelfView,
>
    decreases ranks,
{
    if ranks == 0 {
        Seq::empty()
    } else {
        below_rank(shelves, order, (ranks - 1) as nat) + of_rank(
            shelves,
            order,
            (ranks - 1) as nat,
        )
    }
}

/// The shelves in the order that a list of titles asks for.
pub open spec fn ordered(shelves: Seq<ShelfView>, order: Seq<Seq<char>>) -> Seq<ShelfView> {
    below_rank(shelves, order, order.len() + 1)
}

/// Taking one rank out leaves the others as they were.
proof fn lemma_off_rank(shelves: Seq<ShelfView>, order: Seq<Seq<char>>, gone: nat, rank: nat)
    requires
        gone != rank,
    ensures
        of_rank(off_rank(shelves, order, gone), order, rank) == of_rank(shelves, order, rank),
    decreases shelves.len(),
{
    if shelves.len() > 0 {
        let init = shelves.drop_last();
        lemma_off_rank(init, order, gone, rank);
        let rest = off_rank(init, order, gone);
        if rank_of(order, shelves.last().title) != gone {
            assert(rest.push(shelves.last()).drop_last() =~= rest);
        }
    }
}

fn rank(order: &Vec<String>, title: &str) -> (r: usize)
    ensures
        r == rank_of(source::views(order@), title@),
{
    let ghost all = source::views(order@);
    let mut i: usize = 0;
    proof {
        assert(all.skip(0) =~= all);
    }
    while i < order.len()
        invariant
            i <= order@.len(),
            all == source::views(order@),
            rank_of(all, title@) == i + rank_of(all.skip(i as int), title@),
        decreases order.len() - i,
    {
        proof {
            assert(all.skip(i as int)[0] == order@[i as int]@);
            assert(all.skip(i as int).skip(1) =~= all.skip(i + 1));
        }
        if text::same(order[i].as_str(), title) {
            return i;
        }
        i += 1;
    }
    i
}

/// Parts the shelves of a rank from the others.
fn part(shelves: Vec<Shelf>, order: &Vec<String>, wanted: usize) -> (r: (Vec<Shelf>, Vec<Shelf>))
    ensures
        source::views(r.0@) == of_rank(
            source::views(shelves@),
            source::views(order@),
            wanted as nat,
        ),
        source::views(r.1@) == off_rank(
            source::views(shelves@),
            source::views(order@),
            wanted as nat,
        ),
{
    let ghost all = source::views(shelves@);
    let ghost titles = source::views(order@);
    let mut taken: Vec<Shelf> = Vec::new();
    let mut rest: Vec<Shelf> = Vec::new();
    proof {
        assert(source::views(taken@) =~= of_rank(all.take(0), titles, wanted as nat));
        assert(source::views(rest@) =~= off_rank(all.take(0), titles, wanted as nat));
    }
    for shelf in it: shelves
        invariant
            it.seq() == shelves@,
            all == source::views(shelves@),
            titles == source::views(order@),
            source::views(taken@) == of_rank(all.take(it.index()), titles, wanted as nat),
            source::views(rest@) == off_rank(all.take(it.index()), titles, wanted as nat),
    {
        let ghost taken_before = taken@;
        let ghost rest_before = rest@;
        proof {
            let next = all.take(it.index() + 1);
            assert(next.drop_last() =~= all.take(it.index()));
            assert(next.last() == shelf@);
        }
        if rank(order, shelf.title.as_str()) == wanted {
            taken.push(shelf);
            proof {
                assert(source::views(taken@) =~= source::views(taken_before).push(shelf@));
            }
        } else {
            rest.push(shelf);
            proof {
                assert(source::views(rest@) =~= source::views(rest_before).push(shelf@));
            }
        }
    }
    proof {
        assert(all.take(all.len() as int) =~= all);
    }
    (taken, rest)
}

/// Puts shelves into the order that a list of titles asks for.
pub fn order_shelves(shelves: Vec<Shelf>, order: &Vec<String>) -> (r: Vec<Shelf>)
    ensures
        source::views(r@) == ordered(source::views(shelves@), source::views(order@)),
{
    let ghost all = source::views(shelves@);
    let ghost titles = source::views(order@);
    let mut out: Vec<Shelf> = Vec::new();
    let mut left = shelves;
    let mut k: usize = 0;
    let n: usize = order.len();
    proof {
        assert(source::views(out@) =~= below_rank(all, titles, 0));
    }
    while k < n
        invariant
            k <= n == order@.len(),
            titles == source::views(order@),
            source::views(out@) == below_rank(all, titles, k as nat),
            forall|j: nat|
                j >= k ==> #[trigger] of_rank(source::views(left@), titles, j) == of_rank(
                    all,
                    titles,
                    j,
                ),
        decreases n - k,
    {
        let ghost before = source::views(left@);
        let ghost shown = out@;
        let (mut taken, rest) = part(left, order, k);
        let ghost found = taken@;
        out.append(&mut taken);
        left = rest;
        proof {
            assert(source::views(out@) =~= source::views(shown) + source::views(found));
            assert forall|j: nat| j >= k + 1 implies #[trigger] of_rank(
                source::views(left@),
                titles,
                j,
            ) == of_rank(all, titles, j) by {
                lemma_off_rank(before, titles, k as nat, j);
            }
        }
        k += 1;
    }
    let ghost shown = out@;
    let (mut taken, _) = part(left, order, n);
    let ghost found = taken@;
    out.append(&mut taken);
    proof {
        assert(source::views(out@) =~= source::views(shown) + source::views(found));
    }
    out
}

proof fn lemma_rank_bounded(order: Seq<Seq<char>>, title: Seq<char>)
    ensures
        rank_of(order, title) <= order.len(),
    decreases order.len(),
{
    if order.len() > 0 && order[0] != title {
        lemma_rank_bounded(order.skip(1), title);
    }
}

/// One more shelf is among the ranks from its own on.
proof fn lemma_below_push(
    shelves: Seq<ShelfView>,
    shelf: ShelfView,
    order: Seq<Seq<char>>,
    ranks: nat,
)
    ensures
        below_rank(shelves.push(shelf), order, ranks).to_multiset() == if rank_of(
            order,
            shelf.title,
        ) < ranks {
            below_rank(shelves, order, ranks).to_multiset().insert(shelf)
        } else {
            below_rank(shelves, order, ranks).to_multiset()
        },
    decreases ranks,
{
    if ranks > 0 {
        let k = (ranks - 1) as nat;
        lemma_below_push(shelves, shelf, order, k);
        let with = shelves.push(shelf);
        assert(with.drop_last() =~= shelves);
        let head = below_rank(shelves, order, k);
        let tail = of_rank(shelves, order, k);
        let head_with = below_rank(with, order, k);
        let tail_with = of_rank(with, order, k);
        vstd::seq_lib::lemma_multiset_commutative(head, tail);
        vstd::seq_lib::lemma_multiset_commutative(head_with, tail_with);
        tail.to_multiset_ensures();
        assert(below_rank(with, order, ranks).to_multiset() =~= if rank_of(order, shelf.title)
            < ranks {
            below_rank(shelves, order, ranks).to_multiset().insert(shelf)
        } else {
            below_rank(shelves, order, ranks).to_multiset()
        });
    }
}

proof fn lemma_none_below(order: Seq<Seq<char>>, ranks: nat)
    ensures
        below_rank(Seq::empty(), order, ranks) == Seq::<ShelfView>::empty(),
    decreases ranks,
{
    if ranks > 0 {
        lemma_none_below(order, (ranks - 1) as nat);
        assert(below_rank(Seq::empty(), order, ranks) =~= Seq::<ShelfView>::empty());
    }
}

/// Ordering shelves neither loses nor adds any.
pub proof fn ordering_keeps_the_shelves(shelves: Seq<ShelfView>, order: Seq<Seq<char>>)
    ensures
        ordered(shelves, order).to_multiset() == shelves.to_multiset(),
        ordered(shelves, order).len() == shelves.len(),
    decreases shelves.len(),
{
    if shelves.len() == 0 {
        lemma_none_below(order, order.len() + 1);
        assert(shelves =~= Seq::empty());
    } else {
        let init = shelves.drop_last();
        ordering_keeps_the_shelves(init, order);
        lemma_rank_bounded(order, shelves.last().title);
        lemma_below_push(init, shelves.last(), order, order.len() + 1);
        assert(init.push(shelves.last()) =~= shelves);
        init.to_multiset_ensures();
    }
    ordered(shelves, order).to_multiset_ensures();
    shelves.to_multiset_ensures();
}

proof fn lemma_of_rank(shelves: Seq<ShelfView>, order: Seq<Seq<char>>, rank: nat, i: int)
    requires
        0 <= i < of_rank(shelves, order, rank).len(),
    ensures
        rank_of(order, of_rank(shelves, order, rank)[i].title) == rank,
    decreases shelves.len(),
{
    if shelves.len() > 0 {
        let before = of_rank(shelves.drop_last(), order, rank);
        if i < before.len() {
            lemma_of_rank(shelves.drop_last(), order, rank, i);
        }
    }
}

proof fn lemma_below_rank(shelves: Seq<ShelfView>, order: Seq<Seq<char>>, ranks: nat, i: int, j: int)
    requires
        0 <= i <= j < below_rank(shelves, order, ranks).len(),
    ensures
        rank_of(order, below_rank(shelves, order, ranks)[i].title) <= rank_of(
            order,
            below_rank(shelves, order, ranks)[j].title,
        ),
        rank_of(order, below_rank(shelves, order, ranks)[j].title) < ranks,
    decreases ranks,
{
    if ranks > 0 {
        let k = (ranks - 1) as nat;
        let head = below_rank(shelves, order, k);
        if j < head.len() {
            lemma_below_rank(shelves, order, k, i, j);
        } else {
            lemma_of_rank(shelves, order, k, j - head.len());
            if i < head.len() {
                lemma_below_rank(shelves, order, k, i, i);
            } else {
                lemma_of_rank(shelves, order, k, i - head.len());
            }
        }
    }
}

/// No shelf comes after one whose title is listed behind its own.
pub proof fn listed_titles_come_first(
    shelves: Seq<ShelfView>,
    order: Seq<Seq<char>>,
    i: int,
    j: int,
)
    requires
        0 <= i <= j < ordered(shelves, order).len(),
    ensures
        rank_of(order, ordered(shelves, order)[i].title) <= rank_of(
            order,
            ordered(shelves, order)[j].title,
        ),
{
    lemma_below_rank(shelves, order, order.len() + 1, i, j);
}

proof fn lemma_one_rank(shelves: Seq<ShelfView>, order: Seq<Seq<char>>)
    requires
        order.len() == 0,
    ensures
        of_rank(shelves, order, 0) == shelves,
    decreases shelves.len(),
{
    if shelves.len() > 0 {
        lemma_one_rank(shelves.drop_last(), order);
        assert(shelves.drop_last().push(shelves.last()) =~= shelves);
    } else {
        assert(shelves =~= Seq::empty());
    }
}

/// Where no titles are listed, shelves stay as they are.
pub proof fn no_list_moves_nothing(shelves: Seq<ShelfView>, order: Seq<Seq<char>>)
    requires
        order.len() == 0,
    ensures
        ordered(shelves, order) == shelves,
{
    lemma_one_rank(shelves, order);
    reveal_with_fuel(below_rank, 2);
    assert(ordered(shelves, order) =~= shelves);
}

/// The rank of a title is its place in the list, and one past the list's end for
/// a title that is not in it.
pub proof fn rank_is_the_place_in_the_list(order: Seq<Seq<char>>, title: Seq<char>, k: int)
    requires
        0 <= k <= order.len(),
        forall|i: int| 0 <= i < k ==> (#[trigger] order[i]) != title,
        k < order.len() ==> order[k] == title,
    ensures
        rank_of(order, title) == k,
    decreases order.len(),
{
    if k > 0 {
        let rest = order.skip(1);
        assert(order[0] != title);
        assert forall|i: int| 0 <= i < k - 1 implies (#[trigger] rest[i]) != title by {
            assert(rest[i] == order[i + 1]);
        }
        rank_is_the_place_in_the_list(rest, title, k - 1);
    }
}

/// A shelf whose title is listed earlier stands in front of one whose title is
/// listed later, and of one whose title is not listed at all.
pub proof fn earlier_titles_stand_in_front(
    shelves: Seq<ShelfView>,
    order: Seq<Seq<char>>,
    i: int,
    j: int,
    a: int,
    b: int,
)
    requires
        0 <= i < ordered(shelves, order).len(),
        0 <= j < ordered(shelves, order).len(),
        0 <= a < b <= order.len(),
        ordered(shelves, order)[i].title == order[a],
        forall|k: int| 0 <= k < a ==> (#[trigger] order[k]) != order[a],
        forall|k: int| 0 <= k < b ==> (#[trigger] order[k]) != ordered(shelves, order)[j].title,
        b < order.len() ==> ordered(shelves, order)[j].title == order[b],
    ensures
        i < j,
{
    rank_is_the_place_in_the_list(order, ordered(shelves, order)[i].title, a);
    rank_is_the_place_in_the_list(order, ordered(shelves, order)[j].title, b);
    if j <= i {
        listed_titles_come_first(shelves, order, j, i);
    }
}

} // verus!
