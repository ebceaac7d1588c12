//! The firing order.
//!
//! Regions update in the order of their previous update, so the resolved
//! triggers are waited on in ascending order of their baseline. Baselines
//! need not be distinct: triggers with the same baseline keep the order in
//! which they were resolved.

use crate::resolve::Trigger;
use crate::resolve::TriggerView;
use vstd::prelude::*;
use vstd::set_lib::lemma_int_range;
use vstd::set_lib::lemma_subset_equality;
use vstd::set_lib::set_int_range;

verus! {

/// Whether, of the triggers with the given baselines, the one at position
/// `i` is waited on before the one at position `j`: the earlier baseline
/// first, and of two equal baselines the one that was resolved first.
pub open spec fn fires_before(baselines: Seq<i32>, i: int, j: int) -> bool {
    ||| baselines[i] < baselines[j]
    ||| (baselines[i] == baselines[j] && i < j)
}

/// Whether `origin` lists the positions `0..baselines.len()` in firing
/// order: `origin[k]` is the position of the trigger that is waited on as
/// the `k`-th.
pub open spec fn is_firing_order(baselines: Seq<i32>, origin: Seq<int>) -> bool {
    &&& origin.len() == baselines.len()
    &&& forall|k: int| 0 <= k < origin.len() ==> 0 <= #[trigger] origin[k] < baselines.len()
    &&& forall|a: int, b: int|
        0 <= a < b < origin.len() ==> fires_before(baselines, #[trigger] origin[a], #[trigger] origin[b])
}

/// The firing order of the triggers with the given baselines. There is
/// exactly one: see `lemma_firing_order_exists` and
/// `lemma_firing_order_is_unique`.
pub open spec fn firing_order(baselines: Seq<i32>) -> Seq<int> {
    choose|origin: Seq<int>| is_firing_order(baselines, origin)
}

/// The baselines of `triggers`, position by position.
pub open spec fn baselines(triggers: Seq<TriggerView>) -> Seq<i32> {
    triggers.map_values(|t: TriggerView| t.lastupdate)
}

/// The triggers of `input` in the order that `origin` gives.
pub open spec fn arranged(input: Seq<TriggerView>, origin: Seq<int>) -> Seq<TriggerView> {
    Seq::new(origin.len(), |k: int| input[origin[k]])
}

/// The triggers of `input` in firing order: sorted by baseline, ascending,
/// with the resolution order kept among equal baselines.
pub open spec fn scheduled(input: Seq<TriggerView>) -> Seq<TriggerView> {
    arranged(input, firing_order(baselines(input)))
}

/// Whether the baselines of `triggers` never decrease.
pub open spec fn ascending(triggers: Seq<TriggerView>) -> bool {
    forall|a: int, b: int|
        0 <= a <= b < triggers.len() ==> (#[trigger] triggers[a]).lastupdate <= (
        #[trigger] triggers[b]).lastupdate
}

/// The place of a new last trigger with baseline `newest` in the firing
/// order `prior` of the triggers before it: behind every trigger whose
/// baseline is not later.
proof fn lemma_place_of_newest(baselines: Seq<i32>, prior: Seq<int>, newest: i32, upto: int) -> (place:
    int)
    requires
        0 <= upto <= prior.len(),
        forall|a: int, b: int|
            0 <= a < b < prior.len() ==> baselines[#[trigger] prior[a]] <= baselines[#[trigger] prior[b]],
        forall|k: int| upto <= k < prior.len() ==> baselines[#[trigger] prior[k]] > newest,
    ensures
        0 <= place <= upto,
        forall|k: int| 0 <= k < place ==> baselines[#[trigger] prior[k]] <= newest,
        forall|k: int| place <= k < prior.len() ==> baselines[#[trigger] prior[k]] > newest,
    decreases upto,
{
    if upto == 0 {
        0
    } else if baselines[prior[upto - 1]] <= newest {
        assert forall|k: int| 0 <= k < upto implies baselines[#[trigger] prior[k]] <= newest by {
            if k < upto - 1 {
                assert(baselines[prior[k]] <= baselines[prior[upto - 1]]);
            }
        }
        upto
    } else {
        lemma_place_of_newest(baselines, prior, newest, upto - 1)
    }
}

/// Every list of baselines has a firing order.
pub proof fn lemma_firing_order_exists(baselines: Seq<i32>) -> (origin: Seq<int>)
    ensures
        is_firing_order(baselines, origin),
        is_firing_order(baselines, firing_order(baselines)),
    decreases baselines.len(),
{
    if baselines.len() == 0 {
        let origin = Seq::<int>::empty();
        assert(is_firing_order(baselines, origin));
        origin
    } else {
        let earlier = baselines.drop_last();
        let last = baselines.len() - 1;
        let prior = lemma_firing_order_exists(earlier);
        assert forall|a: int, b: int| 0 <= a < b < prior.len() implies baselines[#[trigger] prior[a]]
            <= baselines[#[trigger] prior[b]] by {
            assert(fires_before(earlier, prior[a], prior[b]));
        }
        let place = lemma_place_of_newest(baselines, prior, baselines[last], prior.len() as int);
        let origin = prior.insert(place, last);
        assert forall|k: int| 0 <= k < origin.len() implies 0 <= #[trigger] origin[k]
            < baselines.len() by {
            if k > place {
                assert(origin[k] == prior[k - 1]);
            }
        }
        assert forall|a: int, b: int| 0 <= a < b < origin.len() implies fires_before(
            baselines,
            #[trigger] origin[a],
            #[trigger] origin[b],
        ) by {
            if b < place {
                assert(fires_before(earlier, prior[a], prior[b]));
            } else if b == place {
                assert(baselines[prior[a]] <= baselines[last]);
            } else if a < place {
                assert(origin[b] == prior[b - 1]);
                assert(fires_before(earlier, prior[a], prior[b - 1]));
            } else if a == place {
                assert(origin[b] == prior[b - 1]);
                assert(baselines[prior[b - 1]] > baselines[last]);
            } else {
                assert(origin[a] == prior[a - 1]);
                assert(origin[b] == prior[b - 1]);
                assert(fires_before(earlier, prior[a - 1], prior[b - 1]));
            }
        }
        assert(is_firing_order(baselines, origin));
        origin
    }
}

/// A firing order names every position.
pub proof fn lemma_firing_order_names_all(baselines: Seq<i32>, origin: Seq<int>, position: int) -> (k:
    int)
    requires
        is_firing_order(baselines, origin),
        0 <= position < baselines.len(),
    ensures
        0 <= k < origin.len(),
        origin[k] == position,
{
    assert forall|a: int, b: int| 0 <= a < origin.len() && 0 <= b < origin.len() && a != b implies origin[a]
        != origin[b] by {
        if a < b {
            assert(fires_before(baselines, origin[a], origin[b]));
        } else {
            assert(fires_before(baselines, origin[b], origin[a]));
        }
    }
    assert(origin.no_duplicates());
    origin.unique_seq_to_set();
    let positions = set_int_range(0, baselines.len() as int);
    lemma_int_range(0, baselines.len() as int);
    assert forall|v: int| origin.to_set().contains(v) implies positions.contains(v) by {
        let k = choose|k: int| 0 <= k < origin.len() && origin[k] == v;
        assert(0 <= origin[k] < baselines.len());
    }
    assert(origin.to_set().subset_of(positions));
    vstd::set_lib::lemma_len_subset(origin.to_set(), positions);
    lemma_subset_equality(origin.to_set(), positions);
    assert(positions.contains(position));
    assert(origin.to_set().contains(position));
    assert(origin.contains(position));
    choose|k: int| 0 <= k < origin.len() && origin[k] == position
}

/// Two firing orders of the same baselines agree up to any position.
proof fn lemma_firing_orders_agree(baselines: Seq<i32>, first: Seq<int>, second: Seq<int>, upto: int)
    requires
        is_firing_order(baselines, first),
        is_firing_order(baselines, second),
        0 <= upto <= baselines.len(),
    ensures
        forall|k: int| 0 <= k < upto ==> first[k] == second[k],
    decreases upto,
{
    if upto > 0 {
        lemma_firing_orders_agree(baselines, first, second, upto - 1);
        let k = upto - 1;
        if first[k] != second[k] {
            let in_second = lemma_firing_order_names_all(baselines, second, first[k]);
            let in_first = lemma_firing_order_names_all(baselines, first, second[k]);
            if in_second < k {
                assert(first[in_second] == second[in_second]);
                assert(fires_before(baselines, first[in_second], first[k]));
            } else if in_first < k {
                assert(second[in_first] == first[in_first]);
                assert(fires_before(baselines, second[in_first], second[k]));
            } else {
                assert(fires_before(baselines, second[k], second[in_second]));
                assert(fires_before(baselines, first[k], first[in_first]));
            }
        }
    }
}

/// The firing order is unique: two lists that both are a firing order of
/// the same baselines are the same list.
pub proof fn lemma_firing_order_is_unique(baselines: Seq<i32>, first: Seq<int>, second: Seq<int>)
    requires
        is_firing_order(baselines, first),
        is_firing_order(baselines, second),
    ensures
        first == second,
{
    lemma_firing_orders_agree(baselines, first, second, baselines.len() as int);
    assert(first =~= second);
}

/// Whoever knows a firing order of the input knows the schedule: the
/// triggers arranged in that order.
pub proof fn lemma_schedule_follows_firing_order(input: Seq<TriggerView>, origin: Seq<int>)
    requires
        is_firing_order(baselines(input), origin),
    ensures
        scheduled(input) == arranged(input, origin),
{
    lemma_firing_order_is_unique(baselines(input), origin, firing_order(baselines(input)));
}

/// The schedule holds the triggers of the input, each once, in ascending
/// order of baseline, and triggers with equal baselines in their input
/// order.
pub proof fn lemma_schedule_is_stable_and_ascending(input: Seq<TriggerView>)
    ensures
        scheduled(input).len() == input.len(),
        is_firing_order(baselines(input), firing_order(baselines(input))),
        ascending(scheduled(input)),
        forall|k: int|
            0 <= k < input.len() ==> #[trigger] scheduled(input)[k] == input[firing_order(
                baselines(input),
            )[k]],
        forall|a: int, b: int|
            #![trigger scheduled(input)[a], scheduled(input)[b]]
            0 <= a < b < input.len() && scheduled(input)[a].lastupdate == scheduled(
                input,
            )[b].lastupdate ==> firing_order(baselines(input))[a] < firing_order(
                baselines(input),
            )[b],
        forall|i: int| 0 <= i < input.len() ==> scheduled(input).contains(#[trigger] input[i]),
{
    let keys = baselines(input);
    let origin = firing_order(keys);
    lemma_firing_order_exists(keys);
    let output = scheduled(input);
    assert forall|a: int, b: int| 0 <= a <= b < output.len() implies (#[trigger] output[a]).lastupdate
        <= (#[trigger] output[b]).lastupdate by {
        if a < b {
            assert(fires_before(keys, origin[a], origin[b]));
        }
    }
    assert forall|a: int, b: int|
        #![trigger output[a], output[b]]
        0 <= a < b < input.len() && output[a].lastupdate == output[b].lastupdate implies origin[a]
            < origin[b] by {
        assert(fires_before(keys, origin[a], origin[b]));
    }
    assert forall|i: int| 0 <= i < input.len() implies output.contains(#[trigger] input[i]) by {
        let k = lemma_firing_order_names_all(keys, origin, i);
        assert(output[k] == input[i]);
    }
}

/// Puts the resolved triggers in firing order: a stable sort by baseline,
/// ascending.
pub fn schedule(triggers: Vec<Trigger>) -> (sorted: Vec<Trigger>)
    ensures
        sorted.len() == triggers.len(),
        sorted.deep_view() == scheduled(triggers.deep_view()),
        is_firing_order(
            baselines(triggers.deep_view()),
            firing_order(baselines(triggers.deep_view())),
        ),
        ascending(sorted.deep_view()),
{
    let ghost input = triggers@;
    let ghost keys = baselines(triggers.deep_view());
    let mut rest = triggers;
    let mut sorted: Vec<Trigger> = Vec::new();
    let ghost mut origin: Seq<int> = Seq::empty();
    while rest.len() > 0
        invariant
            keys.len() == input.len(),
            forall|i: int| 0 <= i < input.len() ==> #[trigger] keys[i] == input[i].lastupdate,
            rest.len() <= input.len(),
            rest@ == input.take(rest.len() as int),
            sorted.len() + rest.len() == input.len(),
            origin.len() == sorted.len(),
            forall|k: int|
                0 <= k < sorted.len() ==> rest.len() <= #[trigger] origin[k] < input.len()
                    && sorted@[k] == input[origin[k]],
            forall|a: int, b: int|
                0 <= a < b < sorted.len() ==> fires_before(
                    keys,
                    #[trigger] origin[a],
                    #[trigger] origin[b],
                ),
        decreases rest.len(),
    {
        let ghost position = rest.len() - 1;
        let ghost placed = sorted@;
        let ghost from = origin;
        let next = rest.pop().unwrap();
        assert(next == input[position]);
        let mut k: usize = 0;
        while k < sorted.len() && sorted[k].lastupdate < next.lastupdate
            invariant
                k <= sorted.len(),
                sorted@ == placed,
                forall|j: int| 0 <= j < k ==> (#[trigger] placed[j]).lastupdate < next.lastupdate,
            decreases sorted.len() - k,
        {
            k += 1;
        }
        sorted.insert(k, next);
        proof {
            origin = from.insert(k as int, position);
            assert forall|j: int| 0 <= j < sorted.len() implies rest.len() <= #[trigger] origin[j]
                < input.len() && sorted@[j] == input[origin[j]] by {
                if j > k {
                    assert(origin[j] == from[j - 1]);
                    assert(sorted@[j] == placed[j - 1]);
                }
            }
            assert forall|a: int, b: int| 0 <= a < b < sorted.len() implies fires_before(
                keys,
                #[trigger] origin[a],
                #[trigger] origin[b],
            ) by {
                if b < k {
                } else if a < k && b == k {
                    assert(placed[a].lastupdate < next.lastupdate);
                } else if a < k {
                    assert(origin[b] == from[b - 1]);
                } else if a == k {
                    assert(origin[b] == from[b - 1]);
                    assert(sorted@[b] == placed[b - 1]);
                    if b - 1 > k {
                        assert(fires_before(keys, from[k as int], from[b - 1]));
                    }
                    assert(placed[k as int].lastupdate >= next.lastupdate);
                } else {
                    assert(origin[a] == from[a - 1]);
                    assert(origin[b] == from[b - 1]);
                }
            }
        }
    }
    proof {
        assert(is_firing_order(keys, origin));
        lemma_firing_order_is_unique(keys, origin, firing_order(keys));
        assert(triggers.deep_view() =~= input.map_values(|t: Trigger| t@));
        assert(sorted.deep_view() =~= scheduled(triggers.deep_view()));
        lemma_schedule_is_stable_and_ascending(triggers.deep_view());
    }
    sorted
}

} // verus!
