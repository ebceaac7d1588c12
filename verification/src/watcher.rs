//! The run as a state machine.
//!
//! A run looks up the two reference regions, resolves every entry, puts the
//! resolved triggers in firing order and then waits on them one at a time.
//! Every lookup is made by the caller, one poll interval after the last; the
//! machine says which region to look up next, takes the answer, and says
//! what to show, sound and send. It never waits on two triggers at once.

use crate::api::estimate_resolve_seconds;
use crate::api::resolve_seconds;
use crate::notify::fired_line;
use crate::notify::fired_message;
use crate::notify::notice;
use crate::notify::notification;
use crate::notify::update_message;
use crate::notify::update_message_of;
use crate::notify::uppercased;
use crate::notify::Payload;
use crate::notify::PayloadView;
use crate::notify::Phase;
use crate::poll::after_poll;
use crate::poll::shows_update;
use crate::poll::poll;
use crate::poll::WaitState;
use crate::precursor::TriggerPrecursor;
use crate::precursor::TriggerSpec;
use crate::resolve::already_updated;
use crate::resolve::cycle_is_active;
use crate::resolve::pass_is_active;
use crate::resolve::reported;
use crate::resolve::resolution;
use crate::resolve::resolve;
use crate::resolve::FetchError;
use crate::resolve::Resolution;
use crate::resolve::ResolutionView;
use crate::resolve::Trigger;
use crate::resolve::TriggerView;
use crate::resolve::UpdateInfo;
use crate::resolve::MAJOR_REFERENCE;
use crate::resolve::MINOR_REFERENCE;
use crate::schedule::ascending;
use crate::schedule::lemma_schedule_is_stable_and_ascending;
use crate::schedule::schedule;
use crate::schedule::scheduled;
use vstd::prelude::*;
use vstd::string::StringExecFns;

verus! {

/// Where a run stands.
#[derive(Clone, Copy, Debug, PartialEq, Eq)]
pub enum Stage {
    /// The major reference region is being looked up.
    ProbeMajor,
    /// The minor reference region is being looked up.
    ProbeMinor,
    /// The entries are being resolved, in file order.
    Resolving,
    /// The triggers are being waited on, in firing order.
    Polling,
    /// The last trigger has fired.
    Finished,
    /// A reference region could not be looked up: the run cannot go on.
    Failed,
}

/// Something for the caller to show, sound or send.
#[derive(Debug)]
pub enum Effect {
    /// Resolution begins and will take about this many seconds.
    Resolving { seconds: u64 },
    /// An entry was dropped: its region has already updated in this pass.
    AlreadyUpdated { region: String },
    /// An entry was dropped: its region could not be looked up.
    LookupFailed { region: String },
    /// The triggers are in firing order.
    Sorted,
    /// The wait on a region begins.
    Waiting { region: String },
    /// A notification is to be sent, once. A failure to send is not fatal.
    Notify { phase: Phase, region: String, payload: Payload },
    /// A poll failed; the next one follows as usual.
    PollFailed,
    /// A trigger has fired: sound the local alert.
    Alert,
    /// A trigger has fired: show this line.
    Fired { line: String },
    /// A reference region could not be looked up.
    ProbeFailed { region: String },
}

/// The mathematical value of an `Effect`.
pub enum EffectView {
    Resolving { seconds: u64 },
    AlreadyUpdated { region: Seq<char> },
    LookupFailed { region: Seq<char> },
    Sorted,
    Waiting { region: Seq<char> },
    Notify { phase: Phase, region: Seq<char>, payload: PayloadView },
    PollFailed,
    Alert,
    Fired { line: Seq<char> },
    ProbeFailed { region: Seq<char> },
}

impl View for Effect {
    type V = EffectView;

    open spec fn view(&self) -> EffectView {
        match self {
            Effect::Resolving { seconds } => EffectView::Resolving { seconds: *seconds },
            Effect::AlreadyUpdated { region } => EffectView::AlreadyUpdated { region: region@ },
            Effect::LookupFailed { region } => EffectView::LookupFailed { region: region@ },
            Effect::Sorted => EffectView::Sorted,
            Effect::Waiting { region } => EffectView::Waiting { region: region@ },
            Effect::Notify { phase, region, payload } => EffectView::Notify {
                phase: *phase,
                region: region@,
                payload: payload@,
            },
            Effect::PollFailed => EffectView::PollFailed,
            Effect::Alert => EffectView::Alert,
            Effect::Fired { line } => EffectView::Fired { line: line@ },
            Effect::ProbeFailed { region } => EffectView::ProbeFailed { region: region@ },
        }
    }
}

impl DeepView for Effect {
    type V = EffectView;

    open spec fn deep_view(&self) -> EffectView {
        self@
    }
}

/// The mathematical value of a `Watcher`.
pub struct WatcherView {
    pub stage: Stage,
    /// Whether a destination for notifications is configured.
    pub notify: bool,
    /// The poll interval, in milliseconds.
    pub poll_ms: u64,
    /// The parsed entries, in file order.
    pub entries: Seq<TriggerSpec>,
    /// While resolving: the position of the entry that is looked up.
    pub cursor: nat,
    /// The timestamp of the major reference region.
    pub major_lastupdate: i32,
    /// Whether the update pass was found to be under way.
    pub cycle_active: bool,
    /// While resolving: the triggers resolved so far, in file order. After
    /// that: the triggers in firing order.
    pub triggers: Seq<TriggerView>,
    /// While polling: the position of the trigger that is waited on.
    pub current: nat,
}

impl WatcherView {
    /// The invariant of a run: the positions are in range, no trigger had
    /// already updated when it was resolved, and once resolution is over
    /// the triggers stand in ascending order of baseline.
    pub open spec fn well_formed(self) -> bool {
        &&& self.stage is Resolving ==> self.cursor < self.entries.len()
        &&& self.stage is Polling ==> self.current < self.triggers.len()
        &&& self.stage is Finished ==> self.current == self.triggers.len()
        &&& (self.stage is ProbeMajor || self.stage is ProbeMinor) ==> self.triggers.len() == 0
        &&& forall|k: int|
            0 <= k < self.triggers.len() ==> !already_updated(
                self.cycle_active,
                self.major_lastupdate,
                (#[trigger] self.triggers[k]).lastupdate,
            )
        &&& (self.stage is Polling || self.stage is Finished) ==> ascending(self.triggers)
    }

    /// The region to look up next, one poll interval from now; `None` when
    /// the run is over.
    pub open spec fn next_lookup(self) -> Option<Seq<char>> {
        match self.stage {
            Stage::ProbeMajor => Some(MAJOR_REFERENCE@),
            Stage::ProbeMinor => Some(MINOR_REFERENCE@),
            Stage::Resolving => if self.cursor < self.entries.len() {
                Some(self.entries[self.cursor as int].region)
            } else {
                None
            },
            Stage::Polling => if self.current < self.triggers.len() {
                Some(self.triggers[self.current as int].region)
            } else {
                None
            },
            Stage::Finished => None,
            Stage::Failed => None,
        }
    }
}

/// The state at the start of a run.
pub open spec fn initial(entries: Seq<TriggerSpec>, notify: bool, poll_ms: u64) -> WatcherView {
    WatcherView {
        stage: Stage::ProbeMajor,
        notify,
        poll_ms,
        entries,
        cursor: 0,
        major_lastupdate: 0,
        cycle_active: false,
        triggers: Seq::empty(),
        current: 0,
    }
}

/// What is shown and sent when the wait on `trigger` begins.
pub open spec fn wait_effects(notify: bool, trigger: TriggerView, timestring: Seq<char>) -> Seq<
    EffectView,
> {
    let start = seq![EffectView::Waiting { region: trigger.region }];
    match notice(Phase::Waiting, notify, trigger, timestring) {
        Some(payload) => start.push(
            EffectView::Notify { phase: Phase::Waiting, region: trigger.region, payload },
        ),
        None => start,
    }
}

/// What is sounded, sent and shown when `trigger` fires.
pub open spec fn fire_effects(notify: bool, trigger: TriggerView, timestring: Seq<char>) -> Seq<
    EffectView,
> {
    let line = EffectView::Fired {
        line: fired_line(
            timestring,
            update_message(trigger.region, trigger.comment, uppercased(trigger.region)),
        ),
    };
    match notice(Phase::Updated, notify, trigger, timestring) {
        Some(payload) => seq![
            EffectView::Alert,
            EffectView::Notify { phase: Phase::Updated, region: trigger.region, payload },
            line,
        ],
        None => seq![EffectView::Alert, line],
    }
}

/// The state and the effects once the wait turns to the trigger at
/// `position`: the wait on it begins, or the run is finished if there is
/// none.
pub open spec fn turn_to(state: WatcherView, position: nat, timestring: Seq<char>) -> (
    WatcherView,
    Seq<EffectView>,
) {
    if position < state.triggers.len() {
        (
            WatcherView { stage: Stage::Polling, current: position, ..state },
            wait_effects(state.notify, state.triggers[position as int], timestring),
        )
    } else {
        (
            WatcherView { stage: Stage::Finished, current: state.triggers.len(), ..state },
            Seq::empty(),
        )
    }
}

/// The state and the effects once the entry at `position` is to be
/// resolved: it is looked up next, or, if there is none, the triggers are
/// put in firing order and the wait turns to the first of them.
pub open spec fn resolve_from(state: WatcherView, position: nat, timestring: Seq<char>) -> (
    WatcherView,
    Seq<EffectView>,
) {
    if position < state.entries.len() {
        (WatcherView { stage: Stage::Resolving, cursor: position, ..state }, Seq::empty())
    } else {
        let sorted = WatcherView { triggers: scheduled(state.triggers), ..state };
        let (next, effects) = turn_to(sorted, 0, timestring);
        (next, seq![EffectView::Sorted] + effects)
    }
}

/// The transition of the machine: the state after the answer to the lookup
/// that `state.next_lookup()` asked for, and the effects of that answer, in
/// order. `answer` is the reported timestamp, `None` where the lookup
/// failed; `timestring` is the time of day to show.
///
/// A state whose position has run past its list, which no run reaches, moves
/// on as if the list had just been exhausted.
pub open spec fn transition(state: WatcherView, answer: Option<i32>, timestring: Seq<char>) -> (
    WatcherView,
    Seq<EffectView>,
) {
    match state.stage {
        Stage::ProbeMajor => match answer {
            Some(lastupdate) => (
                WatcherView { stage: Stage::ProbeMinor, major_lastupdate: lastupdate, ..state },
                Seq::empty(),
            ),
            None => (
                WatcherView { stage: Stage::Failed, ..state },
                seq![EffectView::ProbeFailed { region: MAJOR_REFERENCE@ }],
            ),
        },
        Stage::ProbeMinor => match answer {
            Some(lastupdate) => {
                let probed = WatcherView {
                    cycle_active: pass_is_active(state.major_lastupdate, lastupdate),
                    ..state
                };
                let (next, effects) = resolve_from(probed, 0, timestring);
                (
                    next,
                    seq![
                        EffectView::Resolving {
                            seconds: resolve_seconds(state.entries.len(), state.poll_ms as nat) as u64,
                        },
                    ] + effects,
                )
            },
            None => (
                WatcherView { stage: Stage::Failed, ..state },
                seq![EffectView::ProbeFailed { region: MINOR_REFERENCE@ }],
            ),
        },
        Stage::Resolving => if state.cursor < state.entries.len() {
            let entry = state.entries[state.cursor as int];
            let (resolved, report) = match resolution(
                entry,
                answer,
                state.cycle_active,
                state.major_lastupdate,
            ) {
                ResolutionView::Resolved(trigger) => (
                    WatcherView { triggers: state.triggers.push(trigger), ..state },
                    Seq::<EffectView>::empty(),
                ),
                ResolutionView::AlreadyUpdated => (
                    state,
                    seq![EffectView::AlreadyUpdated { region: entry.region }],
                ),
                ResolutionView::Unavailable => (
                    state,
                    seq![EffectView::LookupFailed { region: entry.region }],
                ),
            };
            let (next, effects) = resolve_from(resolved, state.cursor + 1, timestring);
            (next, report + effects)
        } else {
            resolve_from(state, state.cursor, timestring)
        },
        Stage::Polling => if state.current < state.triggers.len() {
            let trigger = state.triggers[state.current as int];
            if shows_update(trigger.lastupdate, answer) {
                let (next, effects) = turn_to(state, state.current + 1, timestring);
                (next, fire_effects(state.notify, trigger, timestring) + effects)
            } else if answer is None {
                (state, seq![EffectView::PollFailed])
            } else {
                (state, Seq::empty())
            }
        } else {
            turn_to(state, state.current, timestring)
        },
        Stage::Finished => (state, Seq::empty()),
        Stage::Failed => (state, Seq::empty()),
    }
}

/// The transition keeps the invariant of a run.
pub proof fn lemma_transition_keeps_invariant(
    state: WatcherView,
    answer: Option<i32>,
    timestring: Seq<char>,
)
    requires
        state.well_formed(),
    ensures
        transition(state, answer, timestring).0.well_formed(),
        initial(state.entries, state.notify, state.poll_ms).well_formed(),
{
    lemma_schedule_is_stable_and_ascending(state.triggers);
    match state.stage {
        Stage::ProbeMinor => {
            assert(scheduled(state.triggers) =~= Seq::<TriggerView>::empty());
        },
        Stage::Resolving => {
            let entry = state.entries[state.cursor as int];
            match resolution(entry, answer, state.cycle_active, state.major_lastupdate) {
                ResolutionView::Resolved(trigger) => {
                    let grown = state.triggers.push(trigger);
                    lemma_schedule_is_stable_and_ascending(grown);
                },
                _ => {},
            }
        },
        _ => {},
    }
}

/// Triggers fire in firing order: in every state of a run in which triggers
/// are waited on, the triggers that have fired and the one that is waited
/// on stand in ascending order of baseline, and none of them had already
/// updated when it was resolved.
pub proof fn lemma_fires_in_ascending_order(state: WatcherView, earlier: int, later: int)
    requires
        state.well_formed(),
        state.stage is Polling || state.stage is Finished,
        0 <= earlier <= later < state.triggers.len(),
    ensures
        state.triggers[earlier].lastupdate <= state.triggers[later].lastupdate,
        !already_updated(
            state.cycle_active,
            state.major_lastupdate,
            state.triggers[later].lastupdate,
        ),
{
}

/// An entry whose region has already updated in the pass under way is
/// dropped with a warning: the transition reports it and the list of
/// triggers gains nothing.
pub proof fn lemma_already_updated_entry_is_dropped(
    state: WatcherView,
    lastupdate: i32,
    timestring: Seq<char>,
)
    requires
        state.stage is Resolving,
        state.cursor < state.entries.len(),
        state.cycle_active,
        lastupdate > state.major_lastupdate,
    ensures
        ({
            let (next, effects) = transition(state, Some(lastupdate), timestring);
            &&& effects.len() > 0
            &&& effects[0] == EffectView::AlreadyUpdated {
                region: state.entries[state.cursor as int].region,
            }
            &&& next.triggers.len() == state.triggers.len()
            &&& next.stage is Resolving ==> next.triggers == state.triggers
        }),
{
    lemma_schedule_is_stable_and_ascending(state.triggers);
}

/// Where the trigger at `position` of the schedule stands while triggers
/// are waited on: fired if the wait has passed it, being polled if the wait
/// is on it, resolved if the wait has yet to reach it.
pub open spec fn wait_state(state: WatcherView, position: int) -> WaitState {
    if position < state.current {
        WaitState::Fired
    } else if position == state.current && state.stage is Polling {
        WaitState::Polling
    } else {
        WaitState::Resolved
    }
}

/// One trigger is polled at a time, and each goes from resolved to polled
/// to fired without a way back: a poll's answer moves the trigger that is
/// waited on as `after_poll` says; when it fires, the next trigger begins
/// its wait; every other trigger stays where it stands.
pub proof fn lemma_wait_states_advance(
    state: WatcherView,
    answer: Option<i32>,
    timestring: Seq<char>,
    position: int,
)
    requires
        state.well_formed(),
        state.stage is Polling,
        0 <= position < state.triggers.len(),
    ensures
        ({
            let next = transition(state, answer, timestring).0;
            let before = wait_state(state, position);
            let after = wait_state(next, position);
            let polled = state.triggers[state.current as int];
            &&& next.triggers == state.triggers
            &&& position == state.current ==> after == after_poll(before, polled.lastupdate, answer)
            &&& before is Fired ==> after is Fired
            &&& (before is Resolved && position == state.current + 1 && shows_update(
                polled.lastupdate,
                answer,
            )) ==> after is Polling
            &&& (before is Resolved && !(position == state.current + 1 && shows_update(
                polled.lastupdate,
                answer,
            ))) ==> after is Resolved
            &&& forall|other: int|
                wait_state(next, other) is Polling && after is Polling ==> other == position
        }),
{
}

/// Whether `effect` is the sending of a notification of `phase`.
pub open spec fn is_notice(effect: EffectView, phase: Phase) -> bool {
    effect matches EffectView::Notify { phase: sent, .. } && sent == phase
}

/// The sending of the notification of `phase` for `trigger`, if the phase
/// calls for one.
pub open spec fn notice_effect(
    phase: Phase,
    notify: bool,
    trigger: TriggerView,
    timestring: Seq<char>,
) -> Option<EffectView> {
    match notice(phase, notify, trigger, timestring) {
        Some(payload) => Some(EffectView::Notify { phase, region: trigger.region, payload }),
        None => None,
    }
}

/// Whether `effects` sends nothing but `waiting` and `updated`, and each of
/// them at most once.
pub open spec fn sends_at_most(
    effects: Seq<EffectView>,
    waiting: Option<EffectView>,
    updated: Option<EffectView>,
) -> bool {
    &&& forall|i: int|
        0 <= i < effects.len() && (#[trigger] effects[i]) is Notify ==> {
            ||| (is_notice(effects[i], Phase::Waiting) && waiting == Some(effects[i]))
            ||| (is_notice(effects[i], Phase::Updated) && updated == Some(effects[i]))
        }
    &&& forall|i: int, j: int|
        0 <= i < j < effects.len() && (#[trigger] effects[i]) is Notify && (
        #[trigger] effects[j]) is Notify ==> is_notice(effects[i], Phase::Waiting) != is_notice(
            effects[j],
            Phase::Waiting,
        )
}

/// What two lists of effects send, one after the other.
proof fn lemma_sends_in_turn(
    first: Seq<EffectView>,
    second: Seq<EffectView>,
    waiting: Option<EffectView>,
    updated: Option<EffectView>,
)
    requires
        sends_at_most(first, None, updated),
        sends_at_most(second, waiting, None),
    ensures
        sends_at_most(first + second, waiting, updated),
{
    let both = first + second;
    assert forall|i: int| 0 <= i < both.len() && (#[trigger] both[i]) is Notify implies {
        ||| (is_notice(both[i], Phase::Waiting) && waiting == Some(both[i]))
        ||| (is_notice(both[i], Phase::Updated) && updated == Some(both[i]))
    } by {
        if i < first.len() {
            assert(both[i] == first[i]);
        } else {
            assert(both[i] == second[i - first.len()]);
        }
    }
    assert forall|i: int, j: int|
        0 <= i < j < both.len() && (#[trigger] both[i]) is Notify && (
        #[trigger] both[j]) is Notify implies is_notice(both[i], Phase::Waiting) != is_notice(
        both[j],
        Phase::Waiting,
    ) by {
        if j < first.len() {
            assert(both[i] == first[i] && both[j] == first[j]);
        } else if i < first.len() {
            assert(both[i] == first[i]);
            assert(both[j] == second[j - first.len()]);
        } else {
            assert(both[i] == second[i - first.len()]);
            assert(both[j] == second[j - first.len()]);
        }
    }
}

/// What turning to a trigger sends: the notification of its wait, if it
/// calls for one.
proof fn lemma_turn_sends(state: WatcherView, position: nat, timestring: Seq<char>)
    ensures
        ({
            let (next, effects) = turn_to(state, position, timestring);
            sends_at_most(
                effects,
                if position < state.triggers.len() {
                    notice_effect(
                        Phase::Waiting,
                        state.notify,
                        state.triggers[position as int],
                        timestring,
                    )
                } else {
                    None
                },
                None,
            )
        }),
{
}

/// What going on with resolution sends: nothing, or what turning to the
/// first scheduled trigger sends.
proof fn lemma_resolve_sends(state: WatcherView, position: nat, timestring: Seq<char>)
    ensures
        ({
            let (next, effects) = resolve_from(state, position, timestring);
            sends_at_most(
                effects,
                if next.stage is Polling {
                    notice_effect(
                        Phase::Waiting,
                        next.notify,
                        next.triggers[next.current as int],
                        timestring,
                    )
                } else {
                    None
                },
                None,
            )
        }),
{
    if position >= state.entries.len() {
        let sorted = WatcherView { triggers: scheduled(state.triggers), ..state };
        lemma_turn_sends(sorted, 0, timestring);
        let (next, effects) = turn_to(sorted, 0, timestring);
        assert(sends_at_most(seq![EffectView::Sorted], None, None));
        lemma_sends_in_turn(
            seq![EffectView::Sorted],
            effects,
            if next.stage is Polling {
                notice_effect(
                    Phase::Waiting,
                    next.notify,
                    next.triggers[next.current as int],
                    timestring,
                )
            } else {
                None
            },
            None,
        );
    }
}

/// A notification is attempted at most once per phase and trigger. One
/// transition sends at most one notification of each phase: that of an
/// update only when the trigger that is waited on has just fired, and for
/// that trigger; that of a wait only when the wait has just turned to a
/// trigger, and for that trigger. Each is the notification that the
/// notifier builds.
pub proof fn lemma_one_notice_per_phase(
    state: WatcherView,
    answer: Option<i32>,
    timestring: Seq<char>,
)
    ensures
        ({
            let (next, effects) = transition(state, answer, timestring);
            let fired = state.stage is Polling && state.current < state.triggers.len()
                && shows_update(state.triggers[state.current as int].lastupdate, answer);
            let turned = next.stage is Polling && (state.stage is Polling ==> next.current
                != state.current);
            sends_at_most(
                effects,
                if turned {
                    notice_effect(
                        Phase::Waiting,
                        next.notify,
                        next.triggers[next.current as int],
                        timestring,
                    )
                } else {
                    None
                },
                if fired {
                    notice_effect(
                        Phase::Updated,
                        state.notify,
                        state.triggers[state.current as int],
                        timestring,
                    )
                } else {
                    None
                },
            )
        }),
{
    let (next, effects) = transition(state, answer, timestring);
    match state.stage {
        Stage::ProbeMajor => {},
        Stage::ProbeMinor => {
            if let Some(lastupdate) = answer {
                let probed = WatcherView {
                    cycle_active: pass_is_active(state.major_lastupdate, lastupdate),
                    ..state
                };
                lemma_resolve_sends(probed, 0, timestring);
                let (after, rest) = resolve_from(probed, 0, timestring);
                let first = seq![
                    EffectView::Resolving {
                        seconds: resolve_seconds(state.entries.len(), state.poll_ms as nat) as u64,
                    },
                ];
                assert(sends_at_most(first, None, None));
                lemma_sends_in_turn(
                    first,
                    rest,
                    if after.stage is Polling {
                        notice_effect(
                            Phase::Waiting,
                            after.notify,
                            after.triggers[after.current as int],
                            timestring,
                        )
                    } else {
                        None
                    },
                    None,
                );
            }
        },
        Stage::Resolving => {
            if state.cursor < state.entries.len() {
                let entry = state.entries[state.cursor as int];
                let (resolved, report) = match resolution(
                    entry,
                    answer,
                    state.cycle_active,
                    state.major_lastupdate,
                ) {
                    ResolutionView::Resolved(trigger) => (
                        WatcherView { triggers: state.triggers.push(trigger), ..state },
                        Seq::<EffectView>::empty(),
                    ),
                    ResolutionView::AlreadyUpdated => (
                        state,
                        seq![EffectView::AlreadyUpdated { region: entry.region }],
                    ),
                    ResolutionView::Unavailable => (
                        state,
                        seq![EffectView::LookupFailed { region: entry.region }],
                    ),
                };
                lemma_resolve_sends(resolved, state.cursor + 1, timestring);
                let (after, rest) = resolve_from(resolved, state.cursor + 1, timestring);
                assert(sends_at_most(report, None, None));
                lemma_sends_in_turn(
                    report,
                    rest,
                    if after.stage is Polling {
                        notice_effect(
                            Phase::Waiting,
                            after.notify,
                            after.triggers[after.current as int],
                            timestring,
                        )
                    } else {
                        None
                    },
                    None,
                );
            } else {
                lemma_resolve_sends(state, state.cursor, timestring);
            }
        },
        Stage::Polling => {
            if state.current < state.triggers.len() {
                let trigger = state.triggers[state.current as int];
                if shows_update(trigger.lastupdate, answer) {
                    lemma_turn_sends(state, state.current + 1, timestring);
                    let (after, rest) = turn_to(state, state.current + 1, timestring);
                    let fire = fire_effects(state.notify, trigger, timestring);
                    assert(sends_at_most(
                        fire,
                        None,
                        notice_effect(Phase::Updated, state.notify, trigger, timestring),
                    ));
                    lemma_sends_in_turn(
                        fire,
                        rest,
                        if state.current + 1 < state.triggers.len() {
                            notice_effect(
                                Phase::Waiting,
                                state.notify,
                                state.triggers[state.current as int + 1],
                                timestring,
                            )
                        } else {
                            None
                        },
                        notice_effect(Phase::Updated, state.notify, trigger, timestring),
                    );
                }
            } else {
                lemma_turn_sends(state, state.current, timestring);
            }
        },
        Stage::Finished => {},
        Stage::Failed => {},
    }
}

/// A run: the parsed entries, the operator's settings, and how far the run
/// has come.
#[derive(Debug)]
pub struct Watcher {
    pub stage: Stage,
    /// Whether a destination for notifications is configured.
    pub notify: bool,
    /// The poll interval, in milliseconds.
    pub poll_ms: u64,
    /// The parsed entries, in file order.
    pub entries: Vec<TriggerPrecursor>,
    /// While resolving: the position of the entry that is looked up.
    pub cursor: usize,
    /// The timestamp of the major reference region.
    pub major_lastupdate: i32,
    /// Whether the update pass was found to be under way.
    pub cycle_active: bool,
    /// While resolving: the triggers resolved so far. After that: the
    /// triggers in firing order.
    pub triggers: Vec<Trigger>,
    /// While polling: the position of the trigger that is waited on.
    pub current: usize,
}

impl View for Watcher {
    type V = WatcherView;

    open spec fn view(&self) -> WatcherView {
        WatcherView {
            stage: self.stage,
            notify: self.notify,
            poll_ms: self.poll_ms,
            entries: self.entries.deep_view(),
            cursor: self.cursor as nat,
            major_lastupdate: self.major_lastupdate,
            cycle_active: self.cycle_active,
            triggers: self.triggers.deep_view(),
            current: self.current as nat,
        }
    }
}

/// Adds one effect to the end of `effects`.
fn emit(effects: &mut Vec<Effect>, effect: Effect)
    ensures
        final(effects).deep_view() == old(effects).deep_view().push(effect@),
{
    effects.push(effect);
    assert(effects.deep_view() =~= old(effects).deep_view().push(effect@));
}

/// Adds what is shown and sent when the wait on `trigger` begins.
fn emit_wait(effects: &mut Vec<Effect>, notify: bool, trigger: &Trigger, timestring: &str)
    ensures
        final(effects).deep_view() == old(effects).deep_view() + wait_effects(
            notify,
            trigger@,
            timestring@,
        ),
{
    emit(effects, Effect::Waiting { region: trigger.region.clone() });
    match notification(Phase::Waiting, notify, trigger, timestring) {
        Some(payload) => {
            emit(
                effects,
                Effect::Notify { phase: Phase::Waiting, region: trigger.region.clone(), payload },
            );
        },
        None => {},
    }
    assert(effects.deep_view() =~= old(effects).deep_view() + wait_effects(
        notify,
        trigger@,
        timestring@,
    ));
}

/// Adds what is sounded, sent and shown when `trigger` fires.
fn emit_fire(effects: &mut Vec<Effect>, notify: bool, trigger: &Trigger, timestring: &str)
    ensures
        final(effects).deep_view() == old(effects).deep_view() + fire_effects(
            notify,
            trigger@,
            timestring@,
        ),
{
    emit(effects, Effect::Alert);
    match notification(Phase::Updated, notify, trigger, timestring) {
        Some(payload) => {
            emit(
                effects,
                Effect::Notify { phase: Phase::Updated, region: trigger.region.clone(), payload },
            );
        },
        None => {},
    }
    let message = update_message_of(trigger);
    emit(effects, Effect::Fired { line: fired_message(timestring, message.as_str()) });
    assert(effects.deep_view() =~= old(effects).deep_view() + fire_effects(
        notify,
        trigger@,
        timestring@,
    ));
}

/// Turns the wait to the trigger at `position`.
fn turn_watcher_to(watcher: Watcher, position: usize, timestring: &str, effects: &mut Vec<Effect>) -> (next:
    Watcher)
    ensures
        next@ == turn_to(watcher@, position as nat, timestring@).0,
        final(effects).deep_view() == old(effects).deep_view() + turn_to(
            watcher@,
            position as nat,
            timestring@,
        ).1,
{
    let mut next = watcher;
    if position < next.triggers.len() {
        emit_wait(effects, next.notify, &next.triggers[position], timestring);
        next.stage = Stage::Polling;
        next.current = position;
    } else {
        next.stage = Stage::Finished;
        next.current = next.triggers.len();
        assert(effects.deep_view() =~= old(effects).deep_view() + Seq::<EffectView>::empty());
    }
    next
}

/// Goes on resolving at the entry at `position`.
fn resolve_watcher_from(
    watcher: Watcher,
    position: usize,
    timestring: &str,
    effects: &mut Vec<Effect>,
) -> (next: Watcher)
    ensures
        next@ == resolve_from(watcher@, position as nat, timestring@).0,
        final(effects).deep_view() == old(effects).deep_view() + resolve_from(
            watcher@,
            position as nat,
            timestring@,
        ).1,
{
    let mut next = watcher;
    if position < next.entries.len() {
        next.stage = Stage::Resolving;
        next.cursor = position;
        assert(effects.deep_view() =~= old(effects).deep_view() + Seq::<EffectView>::empty());
        next
    } else {
        let Watcher {
            stage,
            notify,
            poll_ms,
            entries,
            cursor,
            major_lastupdate,
            cycle_active,
            triggers,
            current,
        } = next;
        let sorted = Watcher {
            stage,
            notify,
            poll_ms,
            entries,
            cursor,
            major_lastupdate,
            cycle_active,
            triggers: schedule(triggers),
            current,
        };
        emit(effects, Effect::Sorted);
        let turned = turn_watcher_to(sorted, 0, timestring, effects);
        assert(effects.deep_view() =~= old(effects).deep_view() + resolve_from(
            watcher@,
            position as nat,
            timestring@,
        ).1);
        turned
    }
}

impl Watcher {
    /// A run that is about to begin.
    pub fn new(entries: Vec<TriggerPrecursor>, notify: bool, poll_ms: u64) -> (watcher: Watcher)
        ensures
            watcher@ == initial(entries.deep_view(), notify, poll_ms),
            watcher@.well_formed(),
    {
        let watcher = Watcher {
            stage: Stage::ProbeMajor,
            notify,
            poll_ms,
            entries,
            cursor: 0,
            major_lastupdate: 0,
            cycle_active: false,
            triggers: Vec::new(),
            current: 0,
        };
        assert(watcher.triggers.deep_view() =~= Seq::<TriggerView>::empty());
        watcher
    }

    /// The region to look up next, one poll interval from now; `None` when
    /// the run is over.
    pub fn next_lookup(&self) -> (region: Option<String>)
        ensures
            region.deep_view() == self@.next_lookup(),
    {
        match self.stage {
            Stage::ProbeMajor => Some(String::from_str(MAJOR_REFERENCE)),
            Stage::ProbeMinor => Some(String::from_str(MINOR_REFERENCE)),
            Stage::Resolving => if self.cursor < self.entries.len() {
                Some(self.entries[self.cursor].region.clone())
            } else {
                None
            },
            Stage::Polling => if self.current < self.triggers.len() {
                Some(self.triggers[self.current].region.clone())
            } else {
                None
            },
            Stage::Finished => None,
            Stage::Failed => None,
        }
    }

    /// Takes the answer to the lookup that `next_lookup` asked for and
    /// returns the run's next state with what is to be shown, sounded and
    /// sent, in order. `timestring` is the time of day to show.
    pub fn step(self, fetched: &Result<UpdateInfo, FetchError>, timestring: &str) -> (out: (
        Watcher,
        Vec<Effect>,
    ))
        ensures
            (out.0@, out.1.deep_view()) == transition(self@, reported(*fetched), timestring@),
            self@.well_formed() ==> out.0@.well_formed(),
    {
        proof {
            if self@.well_formed() {
                lemma_transition_keeps_invariant(self@, reported(*fetched), timestring@);
            }
        }
        let mut effects: Vec<Effect> = Vec::new();
        assert(effects.deep_view() =~= Seq::<EffectView>::empty());
        let mut watcher = self;
        match watcher.stage {
            Stage::ProbeMajor => {
                match fetched {
                    Ok(info) => {
                        watcher.stage = Stage::ProbeMinor;
                        watcher.major_lastupdate = info.lastupdate;
                    },
                    Err(_) => {
                        watcher.stage = Stage::Failed;
                        emit(
                            &mut effects,
                            Effect::ProbeFailed { region: String::from_str(MAJOR_REFERENCE) },
                        );
                        assert(effects.deep_view() =~= seq![
                            EffectView::ProbeFailed { region: MAJOR_REFERENCE@ },
                        ]);
                    },
                }
                (watcher, effects)
            },
            Stage::ProbeMinor => {
                match fetched {
                    Ok(info) => {
                        watcher.cycle_active = cycle_is_active(watcher.major_lastupdate, info.lastupdate);
                        let seconds = estimate_resolve_seconds(
                            watcher.entries.len(),
                            watcher.poll_ms,
                        );
                        emit(&mut effects, Effect::Resolving { seconds });
                        let ghost first = effects.deep_view();
                        let next = resolve_watcher_from(watcher, 0, timestring, &mut effects);
                        assert(first =~= seq![EffectView::Resolving { seconds }]);
                        (next, effects)
                    },
                    Err(_) => {
                        watcher.stage = Stage::Failed;
                        emit(
                            &mut effects,
                            Effect::ProbeFailed { region: String::from_str(MINOR_REFERENCE) },
                        );
                        assert(effects.deep_view() =~= seq![
                            EffectView::ProbeFailed { region: MINOR_REFERENCE@ },
                        ]);
                        (watcher, effects)
                    },
                }
            },
            Stage::Resolving => {
                if watcher.cursor < watcher.entries.len() {
                    let position = watcher.cursor;
                    let entry = watcher.entries[position].clone();
                    let region = entry.region.clone();
                    match resolve(entry, fetched, watcher.cycle_active, watcher.major_lastupdate) {
                        Resolution::Resolved(trigger) => {
                            let ghost before = watcher.triggers.deep_view();
                            watcher.triggers.push(trigger);
                            assert(watcher.triggers.deep_view() =~= before.push(trigger@));
                        },
                        Resolution::AlreadyUpdated => {
                            emit(&mut effects, Effect::AlreadyUpdated { region });
                            assert(effects.deep_view() =~= seq![
                                EffectView::AlreadyUpdated { region: region@ },
                            ]);
                        },
                        Resolution::Unavailable => {
                            emit(&mut effects, Effect::LookupFailed { region });
                            assert(effects.deep_view() =~= seq![
                                EffectView::LookupFailed { region: region@ },
                            ]);
                        },
                    }
                    let next = resolve_watcher_from(watcher, position + 1, timestring, &mut effects);
                    (next, effects)
                } else {
                    let position = watcher.cursor;
                    let next = resolve_watcher_from(watcher, position, timestring, &mut effects);
                    assert(effects.deep_view() =~= resolve_from(
                        self@,
                        position as nat,
                        timestring@,
                    ).1);
                    (next, effects)
                }
            },
            Stage::Polling => {
                let position = watcher.current;
                if position < watcher.triggers.len() {
                    let polled = poll(WaitState::Polling, &watcher.triggers[position], fetched);
                    if let WaitState::Fired = polled {
                        emit_fire(
                            &mut effects,
                            watcher.notify,
                            &watcher.triggers[position],
                            timestring,
                        );
                        assert(effects.deep_view() =~= fire_effects(
                            watcher.notify,
                            watcher.triggers[position as int]@,
                            timestring@,
                        ));
                        let next = turn_watcher_to(watcher, position + 1, timestring, &mut effects);
                        (next, effects)
                    } else {
                        if fetched.is_err() {
                            emit(&mut effects, Effect::PollFailed);
                            assert(effects.deep_view() =~= seq![EffectView::PollFailed]);
                        }
                        (watcher, effects)
                    }
                } else {
                    let next = turn_watcher_to(watcher, position, timestring, &mut effects);
                    assert(effects.deep_view() =~= turn_to(self@, position as nat, timestring@).1);
                    (next, effects)
                }
            },
            Stage::Finished => (watcher, effects),
            Stage::Failed => (watcher, effects),
        }
    }
}

} // verus!
