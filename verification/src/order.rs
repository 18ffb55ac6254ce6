//! Stable ordering of texts.

use crate::text::{lemma_lex_le_total, lemma_lex_le_transitive, lex_le, str_le};
use vstd::prelude::*;

verus! {

/// Where a new key goes in a run of sorted keys: behind every key that
/// does not come after it.
pub open spec fn slot(sorted: Seq<Seq<char>>, key: Seq<char>) -> int
    decreases sorted.len(),
{
    if sorted.len() == 0 {
        0
    } else if lex_le(sorted.last(), key) {
        sorted.len() as int
    } else {
        slot(sorted.drop_last(), key)
    }
}

/// The keys at the given positions.
pub open spec fn picked(keys: Seq<Seq<char>>, order: Seq<int>) -> Seq<Seq<char>> {
    Seq::new(order.len(), |j: int| keys[order[j]])
}

/// The positions of the first `n` keys in ascending order of the keys;
/// equal keys keep the order they came in.
pub open spec fn stable_order(keys: Seq<Seq<char>>, n: int) -> Seq<int>
    decreases n,
{
    if n <= 0 {
        Seq::empty()
    } else {
        let before = stable_order(keys, n - 1);
        before.insert(slot(picked(keys, before), keys[n - 1]), n - 1)
    }
}

/// Positions in ascending order of their keys where, of two equal keys,
/// the one that came first stands first.
pub open spec fn ascending(keys: Seq<Seq<char>>, order: Seq<int>) -> bool {
    forall|a: int, b: int|
        0 <= a < b < order.len() ==> lex_le(keys[#[trigger] order[a]], keys[#[trigger] order[b]])
            && (lex_le(keys[order[b]], keys[order[a]]) ==> order[a] < order[b])
}

/// Each of the first `n` positions occurs exactly once.
pub open spec fn rearranges(order: Seq<int>, n: int) -> bool {
    &&& order.len() == n
    &&& forall|j: int| 0 <= j < n ==> 0 <= #[trigger] order[j] < n
    &&& forall|a: int, b: int| 0 <= a < b < n ==> #[trigger] order[a] != #[trigger] order[b]
}

/// The slot lies within the run; every key before it does not come after
/// the new key, and every key from it on does.
proof fn lemma_slot(sorted: Seq<Seq<char>>, key: Seq<char>)
    requires
        forall|a: int, b: int|
            0 <= a < b < sorted.len() ==> lex_le(#[trigger] sorted[a], #[trigger] sorted[b]),
    ensures
        0 <= slot(sorted, key) <= sorted.len(),
        forall|j: int| 0 <= j < slot(sorted, key) ==> lex_le(#[trigger] sorted[j], key),
        forall|j: int|
            slot(sorted, key) <= j < sorted.len() ==> !lex_le(#[trigger] sorted[j], key) && lex_le(
                key,
                sorted[j],
            ),
    decreases sorted.len(),
{
    if sorted.len() > 0 {
        if lex_le(sorted.last(), key) {
            assert forall|j: int| 0 <= j < sorted.len() implies lex_le(#[trigger] sorted[j], key) by {
                if j < sorted.len() - 1 {
                    lemma_lex_le_transitive(sorted[j], sorted.last(), key);
                }
            }
        } else {
            let rest = sorted.drop_last();
            assert forall|a: int, b: int| 0 <= a < b < rest.len() implies lex_le(
                #[trigger] rest[a],
                #[trigger] rest[b],
            ) by {
                assert(rest[a] == sorted[a] && rest[b] == sorted[b]);
            }
            lemma_slot(rest, key);
            lemma_lex_le_total(sorted.last(), key);
            assert forall|j: int| 0 <= j < slot(sorted, key) implies lex_le(
                #[trigger] sorted[j],
                key,
            ) by {
                assert(sorted[j] == rest[j]);
            }
            assert forall|j: int| slot(sorted, key) <= j < sorted.len() implies !lex_le(
                #[trigger] sorted[j],
                key,
            ) && lex_le(key, sorted[j]) by {
                if j < rest.len() {
                    assert(sorted[j] == rest[j]);
                }
            }
        }
    }
}

/// The stable order holds every position once, in ascending order of the
/// keys, and keeps equal keys in the order they came in.
pub proof fn lemma_stable_order(keys: Seq<Seq<char>>, n: int)
    requires
        0 <= n <= keys.len(),
    ensures
        rearranges(stable_order(keys, n), n),
        ascending(keys, stable_order(keys, n)),
    decreases n,
{
    if n > 0 {
        lemma_stable_order(keys, n - 1);
        let before = stable_order(keys, n - 1);
        let run = picked(keys, before);
        let key = keys[n - 1];
        assert forall|a: int, b: int| 0 <= a < b < run.len() implies lex_le(
            #[trigger] run[a],
            #[trigger] run[b],
        ) by {
            assert(lex_le(keys[before[a]], keys[before[b]]));
        }
        lemma_slot(run, key);
        let p = slot(run, key);
        let after = before.insert(p, n - 1);
        assert(after == stable_order(keys, n));
        assert forall|j: int| 0 <= j < n implies 0 <= #[trigger] after[j] < n by {
            if j < p {
                assert(after[j] == before[j]);
            } else if j > p {
                assert(after[j] == before[j - 1]);
            }
        }
        assert forall|a: int, b: int| 0 <= a < b < n implies #[trigger] after[a]
            != #[trigger] after[b] by {
            let x = if a < p {
                a
            } else {
                a - 1
            };
            let y = if b < p {
                b
            } else {
                b - 1
            };
            if a != p && b != p {
                assert(after[a] == before[x] && after[b] == before[y]);
            } else if a == p {
                assert(after[b] == before[y]);
            } else {
                assert(after[a] == before[x]);
            }
        }
        assert forall|a: int, b: int| 0 <= a < b < after.len() implies lex_le(
            keys[#[trigger] after[a]],
            keys[#[trigger] after[b]],
        ) && (lex_le(keys[after[b]], keys[after[a]]) ==> after[a] < after[b]) by {
            let x = if a < p {
                a
            } else {
                a - 1
            };
            let y = if b < p {
                b
            } else {
                b - 1
            };
            if a != p && b != p {
                assert(after[a] == before[x] && after[b] == before[y]);
                assert(lex_le(keys[before[x]], keys[before[y]]));
            } else if a == p {
                assert(after[b] == before[y]);
                assert(run[y] == keys[before[y]]);
            } else {
                assert(after[a] == before[x]);
                assert(run[x] == keys[before[x]]);
            }
        }
    }
}

/// The keys that a list of texts stands for.
pub open spec fn key_views(keys: Seq<String>) -> Seq<Seq<char>> {
    Seq::new(keys.len(), |j: int| keys[j]@)
}

/// The positions of `order` as mathematical integers.
pub open spec fn positions(order: Seq<usize>) -> Seq<int> {
    Seq::new(order.len(), |j: int| order[j] as int)
}

/// The positions of `keys` in ascending order; equal keys keep the order
/// they came in.
pub fn sorted_positions(keys: &Vec<String>) -> (order: Vec<usize>)
    ensures
        positions(order@) == stable_order(key_views(keys@), keys.len() as int),
        order.len() == keys.len(),
        forall|j: int| 0 <= j < order.len() ==> #[trigger] order[j] < keys.len(),
{
    let ghost views = key_views(keys@);
    let mut order: Vec<usize> = Vec::new();
    let mut i: usize = 0;
    while i < keys.len()
        invariant
            i <= keys.len(),
            views == key_views(keys@),
            order.len() == i,
            positions(order@) == stable_order(views, i as int),
            forall|j: int| 0 <= j < order.len() ==> #[trigger] order[j] < i,
        decreases keys.len() - i,
    {
        let ghost run = picked(views, positions(order@));
        let mut p: usize = order.len();
        proof {
            assert(run.subrange(0, p as int) =~= run);
        }
        while p > 0 && !str_le(keys[order[p - 1]].as_str(), keys[i].as_str())
            invariant
                p <= order.len(),
                i < keys.len(),
                order.len() == i,
                views == key_views(keys@),
                run == picked(views, positions(order@)),
                forall|j: int| 0 <= j < order.len() ==> #[trigger] order[j] < i,
                slot(run, views[i as int]) == slot(run.subrange(0, p as int), views[i as int]),
            decreases p,
        {
            proof {
                let head = run.subrange(0, p as int);
                assert(head.last() == run[p - 1]);
                assert(run[p - 1] == views[order[p - 1] as int]);
                assert(head.drop_last() =~= run.subrange(0, p - 1));
            }
            p = p - 1;
        }
        proof {
            let head = run.subrange(0, p as int);
            if p > 0 {
                assert(head.last() == run[p - 1]);
                assert(run[p - 1] == views[order[p - 1] as int]);
            }
            assert(slot(run, views[i as int]) == p);
            assert(positions(order@.insert(p as int, i)) =~= positions(order@).insert(
                p as int,
                i as int,
            ));
        }
        order.insert(p, i);
        i = i + 1;
    }
    order
}

/// Among distinct positions below `n`, as many as there are, each one
/// occurs.
pub proof fn lemma_every_position_occurs(order: Seq<int>, n: int, i: int)
    requires
        rearranges(order, n),
        0 <= i < n,
    ensures
        exists|j: int| 0 <= j < n && order[j] == i,
{
    if !(exists|j: int| 0 <= j < n && order[j] == i) {
        // n distinct values that all avoid i would fit below n - 1
        let squeezed = Seq::new(
            n as nat,
            |j: int| if order[j] > i {
                order[j] - 1
            } else {
                order[j]
            },
        );
        assert forall|a: int, b: int| 0 <= a < b < n implies squeezed[a] != squeezed[b] by {
            assert(order[a] != order[b]);
            assert(order[a] != i && order[b] != i);
        }
        assert forall|j: int| 0 <= j < n implies 0 <= #[trigger] squeezed[j] < n - 1 by {
            assert(order[j] != i);
            assert(0 <= order[j] < n);
        }
        lemma_no_room(squeezed, n - 1);
    }
}

/// Distinct values below `room` are at most `room` many.
proof fn lemma_no_room(values: Seq<int>, room: int)
    requires
        0 <= room,
        forall|j: int| 0 <= j < values.len() ==> 0 <= #[trigger] values[j] < room,
        forall|a: int, b: int|
            0 <= a < b < values.len() ==> #[trigger] values[a] != #[trigger] values[b],
    ensures
        values.len() <= room,
    decreases room,
{
    if values.len() == 0 {
    } else if room == 0 {
        let first = values[0];
        assert(0 <= first < room);
    } else {
        // drop the value room - 1, if it occurs, and one more value
        let top = room - 1;
        let len = values.len() as int;
        let at = if exists|j: int| 0 <= j < len && values[j] == top {
            choose|j: int| 0 <= j < len && values[j] == top
        } else {
            len - 1
        };
        let rest = values.remove(at);
        assert forall|j: int| 0 <= j < rest.len() implies 0 <= #[trigger] rest[j] < top by {
            let k = if j < at {
                j
            } else {
                j + 1
            };
            assert(rest[j] == values[k]);
            assert(0 <= values[k] < room);
            if values[k] == top {
                assert(values[at] == top);
                assert(k != at);
                if k < at {
                    assert(values[k] != values[at]);
                } else {
                    assert(values[at] != values[k]);
                }
            }
        }
        assert forall|a: int, b: int| 0 <= a < b < rest.len() implies #[trigger] rest[a]
            != #[trigger] rest[b] by {
            let x = if a < at {
                a
            } else {
                a + 1
            };
            let y = if b < at {
                b
            } else {
                b + 1
            };
            assert(rest[a] == values[x] && rest[b] == values[y]);
            assert(values[x] != values[y]);
        }
        lemma_no_room(rest, top);
    }
}

} // verus!
