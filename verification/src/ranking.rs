//! Stable ranking: the order in which items stand when those that beat
//! others go first and ties keep the order of arrival.

use crate::text::{chars_le, chars_of, text_le, texts};
use vstd::prelude::*;

verus! {

/// The place of a newcomer in a ranking: before the first item that it
/// beats, behind all others.
pub open spec fn slot(order: Seq<int>, beats: spec_fn(int, int) -> bool, newcomer: int) -> int
    decreases order.len(),
{
    if order.len() == 0 {
        0
    } else if beats(newcomer, order[0]) {
        0
    } else {
        1 + slot(order.drop_first(), beats, newcomer)
    }
}

/// The ranking of the items `0` to `count - 1`: each item in turn takes its
/// place among those that came before it.
pub open spec fn ranked(count: nat, beats: spec_fn(int, int) -> bool) -> Seq<int>
    decreases count,
{
    if count == 0 {
        Seq::empty()
    } else {
        let earlier = ranked((count - 1) as nat, beats);
        earlier.insert(slot(earlier, beats, count - 1), count - 1)
    }
}

/// The slot is the first position whose item the newcomer beats.
pub proof fn lemma_slot(order: Seq<int>, beats: spec_fn(int, int) -> bool, newcomer: int)
    ensures
        0 <= slot(order, beats, newcomer) <= order.len(),
        forall|k: int| 0 <= k < slot(order, beats, newcomer) ==> !beats(newcomer, order[k]),
        slot(order, beats, newcomer) < order.len() ==> beats(
            newcomer,
            order[slot(order, beats, newcomer)],
        ),
    decreases order.len(),
{
    if order.len() > 0 && !beats(newcomer, order[0]) {
        lemma_slot(order.drop_first(), beats, newcomer);
        assert forall|k: int| 0 <= k < slot(order, beats, newcomer) implies !beats(
            newcomer,
            order[k],
        ) by {
            if k > 0 {
                assert(order.drop_first()[k - 1] == order[k]);
            }
        }
    }
}

/// A position behind items that the newcomer does not beat, at an item that
/// it beats or at the end, is the slot.
pub proof fn lemma_slot_is(
    order: Seq<int>,
    beats: spec_fn(int, int) -> bool,
    newcomer: int,
    at: int,
)
    requires
        0 <= at <= order.len(),
        forall|k: int| 0 <= k < at ==> !beats(newcomer, order[k]),
        at < order.len() ==> beats(newcomer, order[at]),
    ensures
        slot(order, beats, newcomer) == at,
{
    lemma_slot(order, beats, newcomer);
}

/// Whether `beats` compares by rank: what beats an item also beats every
/// item that does not beat that one. The items then fall into classes of
/// equal rank, and the classes stand in a line.
pub open spec fn ranks(beats: spec_fn(int, int) -> bool, count: nat) -> bool {
    &&& forall|a: int, b: int|
        0 <= a < count && 0 <= b < count && #[trigger] beats(a, b) ==> !beats(b, a)
    &&& forall|a: int, b: int, c: int|
        #![trigger beats(a, b), beats(c, b)]
        #![trigger beats(a, b), beats(a, c)]
        0 <= a < count && 0 <= b < count && 0 <= c < count && beats(a, b) && !beats(c, b)
            ==> beats(a, c)
}

/// The ranking holds every item once, no item stands behind one that it
/// beats, and of two items of which neither beats the other the one that
/// came first stands first.
pub proof fn lemma_ranked(count: nat, beats: spec_fn(int, int) -> bool)
    requires
        exists|total: nat| count <= total && ranks(beats, total),
    ensures
        ranked(count, beats).len() == count,
        forall|i: int| 0 <= i < count ==> 0 <= #[trigger] ranked(count, beats)[i] < count,
        ranked(count, beats).no_duplicates(),
        forall|i: int, j: int|
            0 <= i < j < count ==> !beats(
                #[trigger] ranked(count, beats)[j],
                #[trigger] ranked(count, beats)[i],
            ),
        forall|i: int, j: int|
            0 <= i < j < count && !beats(ranked(count, beats)[i], ranked(count, beats)[j])
                ==> (#[trigger] ranked(count, beats)[i]) < (#[trigger] ranked(count, beats)[j]),
    decreases count,
{
    if count > 0 {
        let total = choose|total: nat| count <= total && ranks(beats, total);
        let earlier = ranked((count - 1) as nat, beats);
        assert(count - 1 <= total && ranks(beats, total));
        lemma_ranked((count - 1) as nat, beats);
        let x = count - 1;
        let p = slot(earlier, beats, x);
        lemma_slot(earlier, beats, x);
        let now = ranked(count, beats);
        assert(now == earlier.insert(p, x));
        assert forall|i: int| 0 <= i < count implies now[i] == if i < p {
            earlier[i]
        } else if i == p {
            x
        } else {
            earlier[i - 1]
        } by {}
        assert forall|i: int, j: int| 0 <= i < j < count implies !beats(
            #[trigger] now[j],
            #[trigger] now[i],
        ) by {
            if i == p {
                let e = earlier[j - 1];
                if j - 1 > p {
                    assert(!beats(earlier[j - 1], earlier[p]));
                }
                assert(beats(x, earlier[p]));
                assert(!beats(earlier[p], x));
                assert(!beats(e, earlier[p]));
                if beats(e, x) {
                    assert(beats(e, earlier[p]));
                }
            } else if j == p {
                assert(!beats(x, earlier[i]));
            } else {
                let oi = if i < p {
                    i
                } else {
                    i - 1
                };
                let oj = if j < p {
                    j
                } else {
                    j - 1
                };
                assert(!beats(earlier[oj], earlier[oi]));
            }
        }
        assert forall|i: int, j: int|
            0 <= i < j < count && !beats(now[i], now[j]) implies (#[trigger] now[i]) < (
        #[trigger] now[j]) by {
            if i == p {
                let e = earlier[j - 1];
                if j - 1 > p {
                    assert(!beats(earlier[j - 1], earlier[p]));
                }
                assert(beats(x, earlier[p]));
                assert(!beats(e, earlier[p]));
                assert(beats(x, e));
            } else if j == p {
            } else {
                let oi = if i < p {
                    i
                } else {
                    i - 1
                };
                let oj = if j < p {
                    j
                } else {
                    j - 1
                };
                assert(earlier[oi] < earlier[oj]);
            }
        }
        assert forall|i: int, j: int| 0 <= i < count && 0 <= j < count && i != j implies now[i]
            != now[j] by {
            let oi = if i < p {
                i
            } else {
                i - 1
            };
            let oj = if j < p {
                j
            } else {
                j - 1
            };
            if i != p && j != p {
                assert(earlier[oi] != earlier[oj]);
            }
        }
    }
}

/// Whether the number at `a` is smaller than the one at `b`.
pub open spec fn smaller_number(keys: Seq<u8>) -> spec_fn(int, int) -> bool {
    |a: int, b: int| 0 <= a < keys.len() && 0 <= b < keys.len() && keys[a] < keys[b]
}

/// Whether the text at `a` comes behind the one at `b` in lexicographic
/// order.
pub open spec fn later_text(keys: Seq<Seq<char>>) -> spec_fn(int, int) -> bool {
    |a: int, b: int| 0 <= a < keys.len() && 0 <= b < keys.len() && !text_le(keys[a], keys[b])
}

/// The lexicographic order is a total preorder.
pub proof fn lemma_text_order(a: Seq<char>, b: Seq<char>, c: Seq<char>)
    ensures
        text_le(a, a),
        text_le(a, b) || text_le(b, a),
        text_le(a, b) && text_le(b, c) ==> text_le(a, c),
    decreases a.len(),
{
    if a.len() > 0 {
        lemma_text_order(a.skip(1), a.skip(1), a.skip(1));
        if b.len() > 0 {
            vstd::utf8::char_u32_cast(a[0], a[0] as u32);
            vstd::utf8::char_u32_cast(b[0], b[0] as u32);
            lemma_text_order(a.skip(1), b.skip(1), c.skip(1));
            if c.len() > 0 {
                vstd::utf8::char_u32_cast(c[0], c[0] as u32);
            }
        }
    }
}

/// Numbers rank by their size.
pub proof fn lemma_numbers_rank(keys: Seq<u8>)
    ensures
        ranks(smaller_number(keys), keys.len()),
{
}

/// The ranking of the positions of `keys`, smallest number first, equal
/// numbers in the order of arrival.
pub fn rank_ascending(keys: &[u8]) -> (order: Vec<usize>)
    ensures
        order@.map_values(|i: usize| i as int) == ranked(keys@.len(), smaller_number(keys@)),
{
    let ghost beats = smaller_number(keys@);
    let mut order: Vec<usize> = Vec::new();
    let mut x: usize = 0;
    assert(order@.map_values(|i: usize| i as int) =~= ranked(0, beats));
    while x < keys.len()
        invariant
            x <= keys@.len(),
            beats == smaller_number(keys@),
            order@.len() == x,
            forall|k: int| 0 <= k < order@.len() ==> order@[k] < x,
            order@.map_values(|i: usize| i as int) == ranked(x as nat, beats),
        decreases keys@.len() - x,
    {
        let ghost earlier = order@.map_values(|i: usize| i as int);
        let mut p: usize = 0;
        while p < order.len() && !(keys[x] < keys[order[p]])
            invariant
                p <= order@.len(),
                x < keys@.len(),
                beats == smaller_number(keys@),
                earlier == order@.map_values(|i: usize| i as int),
                forall|k: int| 0 <= k < order@.len() ==> order@[k] < x,
                forall|k: int| 0 <= k < p ==> !beats(x as int, earlier[k]),
            decreases order@.len() - p,
        {
            p += 1;
        }
        proof {
            lemma_slot_is(earlier, beats, x as int, p as int);
        }
        order.insert(p, x);
        assert(order@.map_values(|i: usize| i as int) =~= earlier.insert(p as int, x as int));
        x += 1;
    }
    order
}

/// The ranking of the positions of `keys`, latest text first, equal texts
/// in the order of arrival.
pub fn rank_descending(keys: &[String]) -> (order: Vec<usize>)
    ensures
        order@.map_values(|i: usize| i as int) == ranked(
            keys@.len(),
            later_text(texts(keys@)),
        ),
{
    let ghost beats = later_text(texts(keys@));
    let mut order: Vec<usize> = Vec::new();
    let mut x: usize = 0;
    assert(order@.map_values(|i: usize| i as int) =~= ranked(0, beats));
    while x < keys.len()
        invariant
            x <= keys@.len(),
            beats == later_text(texts(keys@)),
            order@.len() == x,
            forall|k: int| 0 <= k < order@.len() ==> order@[k] < x,
            order@.map_values(|i: usize| i as int) == ranked(x as nat, beats),
        decreases keys@.len() - x,
    {
        let ghost earlier = order@.map_values(|i: usize| i as int);
        let newcomer = chars_of(keys[x].as_str());
        let mut p: usize = 0;
        loop
            invariant
                p <= order@.len(),
                x < keys@.len(),
                newcomer@ == keys@[x as int]@,
                beats == later_text(texts(keys@)),
                earlier == order@.map_values(|i: usize| i as int),
                forall|k: int| 0 <= k < order@.len() ==> order@[k] < x,
                forall|k: int| 0 <= k < p ==> !beats(x as int, earlier[k]),
            ensures
                p <= order@.len(),
                forall|k: int| 0 <= k < p ==> !beats(x as int, earlier[k]),
                p < order@.len() ==> beats(x as int, earlier[p as int]),
            decreases order@.len() - p,
        {
            if p >= order.len() {
                break;
            }
            let other = chars_of(keys[order[p]].as_str());
            if !chars_le(newcomer.as_slice(), other.as_slice()) {
                break;
            }
            p += 1;
        }
        proof {
            lemma_slot_is(earlier, beats, x as int, p as int);
        }
        order.insert(p, x);
        assert(order@.map_values(|i: usize| i as int) =~= earlier.insert(p as int, x as int));
        x += 1;
    }
    order
}

/// Texts rank by lexicographic order, later texts first.
pub proof fn lemma_texts_rank(keys: Seq<Seq<char>>)
    ensures
        ranks(later_text(keys), keys.len()),
{
    let beats = later_text(keys);
    assert forall|a: int, b: int|
        0 <= a < keys.len() && 0 <= b < keys.len() && #[trigger] beats(a, b) implies !beats(
        b,
        a,
    ) by {
        lemma_text_order(keys[a], keys[b], keys[b]);
    }
    assert forall|a: int, b: int, c: int|
        #![trigger beats(a, b), beats(c, b)]
        #![trigger beats(a, b), beats(a, c)]
        0 <= a < keys.len() && 0 <= b < keys.len() && 0 <= c < keys.len() && beats(a, b)
            && !beats(c, b) implies beats(a, c) by {
        lemma_text_order(keys[a], keys[c], keys[b]);
    }
}

} // verus!
