//! The wait on one trigger.
//!
//! A trigger is waited on by polling its region until the reported
//! timestamp differs from the baseline. A failed poll changes nothing and is
//! simply followed by the next one: there is no cap on retries.

use crate::resolve::reported;
use crate::resolve::FetchError;
use crate::resolve::Trigger;
use crate::resolve::UpdateInfo;
use vstd::prelude::*;

verus! {

/// Where one trigger stands: resolved and not yet waited on, being polled,
/// or fired. There is no way back.
#[derive(Clone, Copy, Debug, PartialEq, Eq)]
pub enum WaitState {
    Resolved,
    Polling,
    Fired,
}

/// Whether a poll's answer shows an update: the lookup succeeded and the
/// timestamp differs from the baseline.
pub open spec fn shows_update(baseline: i32, answer: Option<i32>) -> bool {
    answer matches Some(lastupdate) && lastupdate != baseline
}

/// The state after one poll. Only a trigger that is being polled reacts.
pub open spec fn after_poll(state: WaitState, baseline: i32, answer: Option<i32>) -> WaitState {
    match state {
        WaitState::Polling => if shows_update(baseline, answer) {
            WaitState::Fired
        } else {
            WaitState::Polling
        },
        other => other,
    }
}

/// The state after a series of polls.
pub open spec fn after_polls(state: WaitState, baseline: i32, answers: Seq<Option<i32>>) -> WaitState
    decreases answers.len(),
{
    if answers.len() == 0 {
        state
    } else {
        after_poll(after_polls(state, baseline, answers.drop_last()), baseline, answers.last())
    }
}

/// Begins the wait: a resolved trigger is polled from now on.
pub fn begin_wait(state: WaitState) -> (next: WaitState)
    ensures
        next == (match state {
            WaitState::Resolved => WaitState::Polling,
            other => other,
        }),
{
    match state {
        WaitState::Resolved => WaitState::Polling,
        other => other,
    }
}

/// Whether the answer of a poll shows that the trigger's region has
/// updated.
pub fn update_detected(trigger: &Trigger, fetched: &Result<UpdateInfo, FetchError>) -> (detected:
    bool)
    ensures
        detected == shows_update(trigger.lastupdate, reported(*fetched)),
{
    match fetched {
        Ok(info) => info.lastupdate != trigger.lastupdate,
        Err(_) => false,
    }
}

/// Takes one poll's answer into account.
pub fn poll(state: WaitState, trigger: &Trigger, fetched: &Result<UpdateInfo, FetchError>) -> (next:
    WaitState)
    ensures
        next == after_poll(state, trigger.lastupdate, reported(*fetched)),
        next is Fired <==> state is Fired || (state is Polling && shows_update(
            trigger.lastupdate,
            reported(*fetched),
        )),
{
    match state {
        WaitState::Polling => if update_detected(trigger, fetched) {
            WaitState::Fired
        } else {
            WaitState::Polling
        },
        other => other,
    }
}

/// A trigger that is being polled stays so through any number of polls that
/// fail or report the baseline.
pub proof fn lemma_stays_polling(baseline: i32, answers: Seq<Option<i32>>)
    requires
        forall|k: int| 0 <= k < answers.len() ==> !shows_update(baseline, #[trigger] answers[k]),
    ensures
        after_polls(WaitState::Polling, baseline, answers) == WaitState::Polling,
    decreases answers.len(),
{
    if answers.len() > 0 {
        let earlier = answers.drop_last();
        assert forall|k: int| 0 <= k < earlier.len() implies !shows_update(
            baseline,
            #[trigger] earlier[k],
        ) by {
            assert(earlier[k] == answers[k]);
        }
        lemma_stays_polling(baseline, earlier);
    }
}

/// Once fired, a trigger stays fired whatever is polled.
pub proof fn lemma_fired_is_final(baseline: i32, answers: Seq<Option<i32>>)
    ensures
        after_polls(WaitState::Fired, baseline, answers) == WaitState::Fired,
    decreases answers.len(),
{
    if answers.len() > 0 {
        lemma_fired_is_final(baseline, answers.drop_last());
    }
}

/// A trigger fires exactly on the first poll that shows an update: it is
/// still being polled after every poll before that one, and fired after it
/// and after every later poll.
pub proof fn lemma_fires_on_first_update(baseline: i32, answers: Seq<Option<i32>>, first: int)
    requires
        0 <= first < answers.len(),
        shows_update(baseline, answers[first]),
        forall|k: int| 0 <= k < first ==> !shows_update(baseline, #[trigger] answers[k]),
    ensures
        forall|n: int|
            0 <= n <= first ==> after_polls(WaitState::Polling, baseline, #[trigger] answers.take(n))
                == WaitState::Polling,
        forall|n: int|
            first < n <= answers.len() ==> after_polls(
                WaitState::Polling,
                baseline,
                #[trigger] answers.take(n),
            ) == WaitState::Fired,
{
    assert forall|n: int| 0 <= n <= first implies after_polls(
        WaitState::Polling,
        baseline,
        #[trigger] answers.take(n),
    ) == WaitState::Polling by {
        lemma_stays_polling(baseline, answers.take(n));
    }
    assert forall|n: int| first < n <= answers.len() implies after_polls(
        WaitState::Polling,
        baseline,
        #[trigger] answers.take(n),
    ) == WaitState::Fired by {
        lemma_fired_after(baseline, answers, first, n);
    }
}

/// The induction behind `lemma_fires_on_first_update`.
proof fn lemma_fired_after(baseline: i32, answers: Seq<Option<i32>>, first: int, n: int)
    requires
        0 <= first < n <= answers.len(),
        shows_update(baseline, answers[first]),
        forall|k: int| 0 <= k < first ==> !shows_update(baseline, #[trigger] answers[k]),
    ensures
        after_polls(WaitState::Polling, baseline, answers.take(n)) == WaitState::Fired,
    decreases n,
{
    let seen = answers.take(n);
    assert(seen.drop_last() =~= answers.take(n - 1));
    assert(seen.last() == answers[n - 1]);
    if n == first + 1 {
        lemma_stays_polling(baseline, answers.take(first));
    } else {
        lemma_fired_after(baseline, answers, first, n - 1);
    }
}

} // verus!
