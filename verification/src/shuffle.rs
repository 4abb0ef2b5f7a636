//! Shuffling: Fisher-Yates, driven by the generator.
//!
//! The shuffle keeps the items, and it is fair as far as the samples are:
//! the samples that it draws and the orders that it can leave the items in
//! correspond one to one.

use vstd::prelude::*;
use vstd::seq_lib::to_multiset_update;
use crate::card::UNOCard;
use crate::prng::{range_state, range_value, Randler};

verus! {

/// `s` with the items at `i` and `j` exchanged.
pub open spec fn swapped<A>(s: Seq<A>, i: int, j: int) -> Seq<A> {
    s.update(i, s[j]).update(j, s[i])
}

/// Fisher-Yates on the first `n` items of `s`, driven by a generator in state
/// `state`: from the last of them down to the second, each is exchanged with
/// an item sampled from those up to and including itself. Gives the
/// sequence and the generator's state afterwards.
pub open spec fn fisher_yates<A>(s: Seq<A>, state: u64, n: nat) -> (Seq<A>, u64)
    decreases n,
{
    if n <= 1 {
        (s, state)
    } else {
        let last = (n - 1) as u64;
        fisher_yates(
            swapped(s, n - 1, range_value(state, 0, last)),
            range_state(state, 0, last),
            (n - 1) as nat,
        )
    }
}

/// `s` shuffled by a generator in state `state`.
pub open spec fn shuffled<A>(s: Seq<A>, state: u64) -> Seq<A> {
    fisher_yates(s, state, s.len()).0
}

/// The state in which shuffling `s` leaves a generator that was in state
/// `state`.
pub open spec fn shuffled_state<A>(s: Seq<A>, state: u64) -> u64 {
    fisher_yates(s, state, s.len()).1
}

/// Fisher-Yates on the first `n` items of `s` with the samples given:
/// `picks[i]` is the position of the item that the item at `i` is exchanged
/// with.
pub open spec fn arranged<A>(s: Seq<A>, picks: Seq<int>, n: nat) -> Seq<A>
    decreases n,
{
    if n <= 1 {
        s
    } else {
        arranged(swapped(s, n - 1, picks[n - 1]), picks, (n - 1) as nat)
    }
}

/// The samples that a generator in state `state` hands out for shuffling
/// `n` items, by the position that each is for. The sample for the last
/// position is drawn first. The first position needs no sample.
pub open spec fn picks(state: u64, n: nat) -> Seq<int>
    decreases n,
{
    if n == 0 {
        Seq::empty()
    } else if n == 1 {
        seq![0int]
    } else {
        let last = (n - 1) as u64;
        picks(range_state(state, 0, last), (n - 1) as nat).push(range_value(state, 0, last))
    }
}

/// Whether `picks` holds a sample for each of the first `n` positions, each
/// sample being a position up to and including the one that it is for.
pub open spec fn valid_picks(picks: Seq<int>, n: nat) -> bool {
    &&& picks.len() >= n
    &&& forall|i: int| 0 <= i < n ==> 0 <= #[trigger] picks[i] <= i
}

/// Whether no item occurs twice in `s`.
pub open spec fn distinct<A>(s: Seq<A>) -> bool {
    forall|i: int, j: int| 0 <= i < j < s.len() ==> s[i] != s[j]
}

/// Exchanges the cards at `i` and `j`.
pub(crate) fn swap_cards(deck: &mut Vec<UNOCard>, i: usize, j: usize)
    requires
        i < old(deck)@.len(),
        j < old(deck)@.len(),
    ensures
        final(deck)@ == swapped(old(deck)@, i as int, j as int),
{
    let a = deck[i];
    let b = deck[j];
    deck[i] = b;
    deck[j] = a;
}

/// Shuffles the pile in place with samples from `rand`.
pub fn shuffle(deck: &mut Vec<UNOCard>, rand: &mut Randler)
    ensures
        final(deck)@ == shuffled(old(deck)@, old(rand)@),
        final(rand)@ == shuffled_state(old(deck)@, old(rand)@),
        final(deck)@.len() == old(deck)@.len(),
        final(deck)@.to_multiset() == old(deck)@.to_multiset(),
{
    let n = deck.len();
    let mut i: usize = n;
    proof {
        lemma_fisher_yates_multiset(deck@, rand@, n as nat);
    }
    while i > 1
        invariant
            i <= n,
            deck@.len() == n,
            fisher_yates(deck@, rand@, i as nat) == fisher_yates(old(deck)@, old(rand)@, n as nat),
        decreases i,
    {
        i -= 1;
        if let Some(j) = rand.rand_range(0, i as u64) {
            swap_cards(deck, i, j as usize);
        }
    }
}

/// Exchanging two items keeps the items.
pub proof fn lemma_swapped_multiset<A>(s: Seq<A>, i: int, j: int)
    requires
        0 <= i < s.len(),
        0 <= j < s.len(),
    ensures
        swapped(s, i, j).len() == s.len(),
        swapped(s, i, j).to_multiset() == s.to_multiset(),
{
    broadcast use vstd::multiset::group_multiset_axioms;

    let t = s.update(i, s[j]);
    to_multiset_update(s, i, s[j]);
    to_multiset_update(t, j, s[i]);
    s.to_multiset_ensures();
}

/// Shuffling keeps the items: none is added, lost or doubled.
pub proof fn lemma_fisher_yates_multiset<A>(s: Seq<A>, state: u64, n: nat)
    requires
        n <= s.len(),
    ensures
        fisher_yates(s, state, n).0.len() == s.len(),
        fisher_yates(s, state, n).0.to_multiset() == s.to_multiset(),
    decreases n,
{
    if n > 1 {
        let last = (n - 1) as u64;
        let j = range_value(state, 0, last);
        lemma_swapped_multiset(s, n - 1, j);
        lemma_fisher_yates_multiset(
            swapped(s, n - 1, j),
            range_state(state, 0, last),
            (n - 1) as nat,
        );
    }
}

/// Arranging the first `n` items leaves the others where they are.
pub proof fn lemma_arranged_rest<A>(s: Seq<A>, picks: Seq<int>, n: nat)
    requires
        n <= s.len(),
        valid_picks(picks, n),
    ensures
        arranged(s, picks, n).len() == s.len(),
        forall|j: int| n <= j < s.len() ==> arranged(s, picks, n)[j] == s[j],
    decreases n,
{
    if n > 1 {
        let moved = swapped(s, n - 1, picks[n - 1]);
        lemma_arranged_rest(moved, picks, (n - 1) as nat);
        assert forall|j: int| n <= j < s.len() implies arranged(s, picks, n)[j] == s[j] by {
            assert(arranged(moved, picks, (n - 1) as nat)[j] == moved[j]);
        }
    }
}

/// Only the samples for the first `n` positions count in arranging the
/// first `n` items.
pub proof fn lemma_arranged_by_prefix<A>(s: Seq<A>, p: Seq<int>, q: Seq<int>, n: nat)
    requires
        p.len() >= n,
        q.len() >= n,
        forall|i: int| 0 <= i < n ==> p[i] == q[i],
    ensures
        arranged(s, p, n) == arranged(s, q, n),
    decreases n,
{
    if n > 1 {
        lemma_arranged_by_prefix(swapped(s, n - 1, p[n - 1]), p, q, (n - 1) as nat);
    }
}

/// The shuffle is the arrangement by the samples that the generator hands
/// out, and each of these is a position up to the one that it is for.
pub proof fn lemma_shuffle_by_picks<A>(s: Seq<A>, state: u64, n: nat)
    requires
        n <= s.len(),
        n <= u64::MAX,
    ensures
        valid_picks(picks(state, n), n),
        picks(state, n).len() == n,
        fisher_yates(s, state, n).0 == arranged(s, picks(state, n), n),
    decreases n,
{
    if n > 1 {
        let last = (n - 1) as u64;
        let pick = range_value(state, 0, last);
        let next = range_state(state, 0, last);
        let moved = swapped(s, n - 1, pick);
        lemma_shuffle_by_picks(moved, next, (n - 1) as nat);
        lemma_arranged_by_prefix(
            moved,
            picks(next, (n - 1) as nat),
            picks(state, n),
            (n - 1) as nat,
        );
    }
}

/// Exchanging two items of a sequence without doubles leaves it without
/// doubles.
pub proof fn lemma_swapped_distinct<A>(s: Seq<A>, i: int, j: int)
    requires
        0 <= i < s.len(),
        0 <= j < s.len(),
        distinct(s),
    ensures
        distinct(swapped(s, i, j)),
{
}

/// Different samples arrange items without doubles differently: the
/// arrangement tells every sample that was drawn. With samples that are each
/// as likely as any other, so is every arrangement.
pub proof fn lemma_arranged_injective<A>(s: Seq<A>, p: Seq<int>, q: Seq<int>, n: nat)
    requires
        n <= s.len(),
        distinct(s),
        valid_picks(p, n),
        valid_picks(q, n),
        arranged(s, p, n) == arranged(s, q, n),
    ensures
        forall|i: int| 0 <= i < n ==> p[i] == q[i],
    decreases n,
{
    if n > 1 {
        let by_p = swapped(s, n - 1, p[n - 1]);
        let by_q = swapped(s, n - 1, q[n - 1]);
        lemma_arranged_rest(by_p, p, (n - 1) as nat);
        lemma_arranged_rest(by_q, q, (n - 1) as nat);
        assert(by_p[n - 1] == s[p[n - 1]]);
        assert(by_q[n - 1] == s[q[n - 1]]);
        lemma_swapped_distinct(s, n - 1, p[n - 1]);
        lemma_arranged_injective(by_p, p, q, (n - 1) as nat);
    }
}

/// Every arrangement of the first `n` items is the work of some samples:
/// whatever order `t` has them in, there are samples that arrange `s`
/// into `t`.
pub proof fn lemma_arranged_surjective<A>(s: Seq<A>, t: Seq<A>, n: nat)
    requires
        n <= s.len(),
        s.len() == t.len(),
        s.take(n as int).to_multiset() == t.take(n as int).to_multiset(),
        forall|j: int| n <= j < s.len() ==> s[j] == t[j],
    ensures
        exists|p: Seq<int>| #[trigger] valid_picks(p, n) && p.len() == n && arranged(s, p, n) == t,
    decreases n,
{
    broadcast use vstd::multiset::group_multiset_axioms;

    if n == 0 {
        let p = Seq::<int>::empty();
        assert(valid_picks(p, n) && p.len() == n && arranged(s, p, n) == t);
    } else {
        let last = n - 1;
        let item = t[last];
        let front = s.take(n as int);
        let goal = t.take(n as int);
        front.to_multiset_ensures();
        goal.to_multiset_ensures();
        assert(goal[last] == item);
        assert(goal.to_multiset().count(item) > 0);
        let j = choose|j: int| 0 <= j < front.len() && front[j] == item;
        let moved = swapped(s, last, j);
        assert(moved.take(n as int) =~= swapped(front, last, j));
        lemma_swapped_multiset(front, last, j);
        assert(moved.take(n as int) =~= moved.take(last).push(item));
        assert(goal =~= t.take(last).push(item));
        moved.take(last).to_multiset_ensures();
        t.take(last).to_multiset_ensures();
        assert(moved.take(last).to_multiset() =~= moved.take(n as int).to_multiset().remove(
            item,
        ));
        assert(t.take(last).to_multiset() =~= goal.to_multiset().remove(item));
        lemma_arranged_surjective(moved, t, last as nat);
        let rest = choose|p: Seq<int>|
            #[trigger] valid_picks(p, last as nat) && p.len() == last && arranged(
                moved,
                p,
                last as nat,
            ) == t;
        let p = rest.push(j);
        lemma_arranged_by_prefix(moved, rest, p, last as nat);
        assert(valid_picks(p, n));
        assert(arranged(s, p, n) == t);
    }
}

/// Every order of the items is reached: whatever order `t` has the items
/// of `s` in, there are samples that shuffle `s` into `t`.
pub proof fn lemma_every_order_is_reached<A>(s: Seq<A>, t: Seq<A>)
    requires
        s.to_multiset() == t.to_multiset(),
    ensures
        exists|p: Seq<int>|
            #[trigger] valid_picks(p, s.len()) && p.len() == s.len() && arranged(s, p, s.len())
                == t,
{
    s.to_multiset_ensures();
    t.to_multiset_ensures();
    assert(s.take(s.len() as int) =~= s);
    assert(t.take(s.len() as int) =~= t);
    lemma_arranged_surjective(s, t, s.len());
}

} // verus!
