//! What the watchdog over the active node promises.
use crate::controller::failover;
use crate::controller::failover::{
    ActionView, CycleEvent, CycleStart, CycleState, CycleView, CycleWork, EventView,
    FailoverAction, FailoverConfig, StatusView,
};
use crate::controller::ranking::ScoreView;
use crate::time::{Duration, Instant};
use vstd::prelude::*;

verus! {

/// So many nanoseconds have passed since a moment, or there was none.
pub open spec fn is_over(moment: Option<Instant>, now: Instant, span: Duration) -> bool {
    moment matches Some(then) ==> now.nanos - then.nanos >= span.nanos
}

/// A moment lies before now, by fewer nanoseconds than a span.
pub open spec fn is_within(moment: Option<Instant>, now: Instant, span: Duration) -> bool {
    moment matches Some(then) && 0 <= now.nanos - then.nanos < span.nanos
}

/// The position is that of the first passing score at or behind another one.
pub open spec fn is_first_passing(scores: Seq<ScoreView>, from: int, index: int) -> bool {
    &&& from <= index < scores.len()
    &&& scores[index].passes
    &&& forall|i: int| from <= i < index ==> !(#[trigger] scores[i]).passes
}

/// No score at or behind a position passes.
pub open spec fn none_passes(scores: Seq<ScoreView>, from: int) -> bool {
    forall|i: int| from <= i < scores.len() ==> !(#[trigger] scores[i]).passes
}

/// A cycle watches the active node unless the user switched less than the configured
/// nanoseconds ago: then it leaves everything alone, and only then. Without an active
/// node there is nothing to do, and with the tunnel down it is to be restored.
pub proof fn law_cycles_watch_the_active_node(
    config: FailoverConfig,
    start: CycleStart<Seq<char>>,
    status: StatusView,
    now: Instant,
)
    ensures
        ({
            let (next, state) = failover::begun(config, start, status, now);
            let span = config.min_time_since_manual_switch;
            &&& next.active_node == start.active
            &&& next.degraded == start.degraded
            &&& next.consecutive_failures == status.consecutive_failures
            &&& next.cycles_since_rescore == status.cycles_since_rescore
            &&& next.last_action == status.last_action
            &&& next.last_action_at == status.last_action_at
            &&& next.shortlist == status.shortlist || (!start.degraded && start.active is None
                && next.shortlist.len() == 0)
            &&& start.degraded ==> state is Healing
            &&& !start.degraded && start.active is None ==> state == CycleView::Finished(
                FailoverAction::Idle,
            )
            &&& !start.degraded && start.active is Some && is_over(
                start.last_manual_switch,
                now,
                span,
            ) ==> state == (CycleView::ProbingActive {
                label: start.active->0,
                last_auto_switch: start.last_auto_switch,
            })
            &&& !start.degraded && start.active is Some && is_within(
                start.last_manual_switch,
                now,
                span,
            ) ==> state == CycleView::Finished(FailoverAction::ManualWindow)
            &&& state == CycleView::Finished(FailoverAction::ManualWindow) ==> !start.degraded
                && start.active is Some && start.last_manual_switch is Some && now.nanos
                - start.last_manual_switch->0.nanos < span.nanos
        }),
{
}

/// A trial of the active node that failed: the failures are counted; below the required
/// number the node is only inspected; with that number reached, the node is left unless
/// the watchdog itself switched less than the configured nanoseconds ago.
pub proof fn law_failed_trials_are_counted_and_then_escalate(
    config: FailoverConfig,
    label: Seq<char>,
    last_auto_switch: Option<Instant>,
    status: StatusView,
    now: Instant,
    hour: u8,
)
    requires
        status.consecutive_failures < usize::MAX,
    ensures
        ({
            let (next, state) = failover::stepped(
                config,
                CycleView::ProbingActive { label, last_auto_switch },
                EventView::Probed { passes: false },
                status,
                now,
                hour,
            );
            let failures = status.consecutive_failures + 1;
            let enough = failures >= config.required_consecutive_failures;
            let span = config.cooldown_after_auto_switch;
            &&& next.consecutive_failures == failures
            &&& next.cycles_since_rescore == status.cycles_since_rescore
            &&& next.shortlist == status.shortlist
            &&& next.active_node == status.active_node
            &&& next.degraded == status.degraded
            &&& !enough ==> state == (CycleView::Prearming { failures: failures as usize })
            &&& enough && is_over(last_auto_switch, now, span) ==> state
                == (CycleView::Escalating { label })
            &&& enough && is_within(last_auto_switch, now, span) ==> state
                == CycleView::Finished(FailoverAction::Cooldown)
            &&& state == CycleView::Finished(FailoverAction::Cooldown) ==> enough
                && last_auto_switch is Some && now.nanos - last_auto_switch->0.nanos < span.nanos
        }),
{
}

/// A trial of the active node that passed: the failures are forgotten, the healthy cycle
/// is counted, and the shortlist is refreshed where so many cycles or a quiet hour make it
/// due. The quiet window begins with its first hour, ends before its last, and may go
/// past midnight.
pub proof fn law_passed_trials_forget_failures(
    config: FailoverConfig,
    label: Seq<char>,
    last_auto_switch: Option<Instant>,
    status: StatusView,
    now: Instant,
    hour: u8,
)
    requires
        status.cycles_since_rescore < u32::MAX,
    ensures
        ({
            let (next, state) = failover::stepped(
                config,
                CycleView::ProbingActive { label, last_auto_switch },
                EventView::Probed { passes: true },
                status,
                now,
                hour,
            );
            let cycles = status.cycles_since_rescore + 1;
            let counted = 0 < config.background_rescore_cycles <= cycles;
            let quiet = config.quiet_hours_utc matches Some((from, to)) && (if from <= to {
                from <= hour && hour < to
            } else {
                from <= hour || hour < to
            });
            &&& next.consecutive_failures == 0
            &&& next.cycles_since_rescore == cycles
            &&& next.shortlist == status.shortlist
            &&& next.active_node == status.active_node
            &&& next.degraded == status.degraded
            &&& counted || quiet ==> state is Rearming
            &&& !counted && !quiet ==> state == CycleView::Finished(FailoverAction::Healthy)
        }),
{
}

/// With the scores of the catalog in hand, the node that failed is taken off the list and
/// nothing else is. The first candidate that passed is to be confirmed; where only the
/// node that failed passed, it stays; and where nothing passed, the tunnel is dropped.
pub proof fn law_escalations_confirm_the_first_passing_candidate(
    config: FailoverConfig,
    label: Seq<char>,
    scores: Seq<ScoreView>,
    status: StatusView,
    now: Instant,
    hour: u8,
)
    requires
        scores.len() <= usize::MAX,
    ensures
        ({
            let (next, state) = failover::stepped(
                config,
                CycleView::Escalating { label },
                EventView::Rescored(scores),
                status,
                now,
                hour,
            );
            let list = next.shortlist;
            &&& list == scores.filter(|s: ScoreView| s.label != label)
            &&& next.consecutive_failures == status.consecutive_failures
            &&& next.cycles_since_rescore == status.cycles_since_rescore
            &&& next.active_node == status.active_node
            &&& next.degraded == status.degraded
            &&& match state {
                CycleState::Confirming { index } => is_first_passing(list, 0, index as int),
                CycleState::Finished(action) => action is Unconfirmed && none_passes(list, 0)
                    && !none_passes(scores, 0),
                CycleState::Degrading => none_passes(scores, 0),
                _ => false,
            }
        }),
{
    lemma_without_label(scores, label);
    let list = failover::without_label(scores, label);
    failover::lemma_next_passing(list, 0);
    failover::lemma_next_passing(scores, 0);
    if none_passes(scores, 0) {
        failover::lemma_without_label(scores, label);
        assert forall|i: int| 0 <= i < list.len() implies !(#[trigger] list[i]).passes by {
            assert(scores.contains(list[i]));
        }
    }
}

proof fn lemma_without_label(scores: Seq<ScoreView>, label: Seq<char>)
    ensures
        failover::without_label(scores, label) == scores.filter(|s: ScoreView| s.label != label),
    decreases scores.len(),
{
    reveal(Seq::filter);
    if scores.len() > 0 {
        lemma_without_label(scores.drop_last(), label);
    }
}

/// A candidate that is confirmed is switched to; where it fails, the next passing one of
/// the list is confirmed, and where there is none, the active node stays. A switch that
/// was done ends the cycle and forgets the failures; one that failed ends it with what
/// went wrong.
pub proof fn law_confirmations_lead_to_switches(
    config: FailoverConfig,
    index: usize,
    status: StatusView,
    label: Seq<char>,
    reason: Seq<char>,
    now: Instant,
    hour: u8,
)
    requires
        status.shortlist.len() <= usize::MAX,
    ensures
        ({
            let confirming = CycleView::Confirming { index };
            let switching = CycleView::Switching { index };
            let passed = EventView::Probed { passes: true };
            let (unmoved, other) = failover::stepped(
                config,
                confirming,
                EventView::Probed { passes: false },
                status,
                now,
                hour,
            );
            let (done, ended) = failover::stepped(
                config,
                switching,
                EventView::SwitchDone(label),
                status,
                now,
                hour,
            );
            &&& failover::stepped(config, confirming, passed, status, now, hour) == (
                status,
                switching,
            )
            &&& unmoved == status
            &&& match other {
                CycleState::Confirming { index: next } => is_first_passing(
                    status.shortlist,
                    index + 1,
                    next as int,
                ),
                CycleState::Finished(action) => action is Unconfirmed && none_passes(
                    status.shortlist,
                    index + 1,
                ),
                _ => false,
            }
            &&& ended == CycleView::Finished(FailoverAction::Switched { label })
            &&& done.consecutive_failures == 0
            &&& done.shortlist == status.shortlist
            &&& done.active_node == status.active_node
            &&& done.cycles_since_rescore == status.cycles_since_rescore
            &&& failover::stepped(
                config,
                switching,
                EventView::SwitchFailed(reason),
                status,
                now,
                hour,
            ) == (status, CycleView::Finished(FailoverAction::Error("switch failed: "@ + reason)))
        }),
{
    failover::lemma_next_passing(status.shortlist, index + 1);
}

/// Restoring the tunnel: the first candidate that passed is confirmed and switched to;
/// where the confirmation or the switch fails, the next passing one is tried; and where
/// there is none left, or nothing to choose from, the tunnel stays down.
pub proof fn law_healing_tries_every_passing_candidate(
    config: FailoverConfig,
    scores: Seq<ScoreView>,
    index: usize,
    status: StatusView,
    label: Seq<char>,
    reason: Seq<char>,
    now: Instant,
    hour: u8,
)
    requires
        scores.len() <= usize::MAX,
        status.shortlist.len() <= usize::MAX,
    ensures
        ({
            let down = CycleView::Finished(FailoverAction::Degraded);
            let confirming = CycleView::HealConfirming { index };
            let switching = CycleView::HealSwitching { index };
            let step = |state: CycleView, event: EventView|
                failover::stepped(config, state, event, status, now, hour);
            let (armed, first) = step(CycleView::Healing, EventView::Rescored(scores));
            let (kept, second) = step(confirming, EventView::Probed { passes: false });
            let (done, ended) = step(switching, EventView::SwitchDone(label));
            &&& armed.shortlist == scores
            &&& armed.consecutive_failures == status.consecutive_failures
            &&& armed.degraded == status.degraded
            &&& match first {
                CycleState::HealConfirming { index: next } => is_first_passing(
                    scores,
                    0,
                    next as int,
                ),
                other => other == down && none_passes(scores, 0),
            }
            &&& kept == status
            &&& match second {
                CycleState::HealConfirming { index: next } => is_first_passing(
                    status.shortlist,
                    index + 1,
                    next as int,
                ),
                other => other == down && none_passes(status.shortlist, index + 1),
            }
            &&& step(confirming, EventView::Probed { passes: true }) == (status, switching)
            &&& step(switching, EventView::SwitchFailed(reason)) == (kept, second)
            &&& ended == CycleView::Finished(FailoverAction::Healed { label })
            &&& done.consecutive_failures == 0
            &&& done.shortlist == status.shortlist
            &&& step(CycleView::Healing, EventView::CatalogUnavailable(reason)) == (status, down)
            &&& step(CycleView::Healing, EventView::RescoreFailed(reason)) == (status, down)
        }),
{
    failover::lemma_next_passing(status.shortlist, index + 1);
    failover::lemma_next_passing(scores, 0);
}

/// A refreshed shortlist is the one that was made. While the active node is healthy, the
/// count of healthy cycles begins anew; while it is inspected, the failures stay; and a
/// shortlist that could not be made changes nothing, but an escalation ends with why.
pub proof fn law_shortlists_are_taken_over(
    config: FailoverConfig,
    scores: Seq<ScoreView>,
    failures: usize,
    status: StatusView,
    label: Seq<char>,
    reason: Seq<char>,
    now: Instant,
    hour: u8,
)
    requires
        scores.len() <= usize::MAX,
    ensures
        ({
            let step = |state: CycleView, event: EventView|
                failover::stepped(config, state, event, status, now, hour);
            let healthy = CycleView::Finished(FailoverAction::Healthy);
            let inspecting = CycleView::Prearming { failures };
            let inspected = CycleView::Finished(FailoverAction::Inspecting { failures });
            let escalating = CycleView::Escalating { label };
            let unavailable = EventView::CatalogUnavailable(reason);
            let failed = EventView::RescoreFailed(reason);
            let (rearmed, first) = step(CycleView::Rearming, EventView::Rescored(scores));
            let (prearmed, second) = step(inspecting, EventView::Rescored(scores));
            let (dropped, third) = step(CycleView::Degrading, EventView::Dropped);
            &&& rearmed.shortlist == scores
            &&& rearmed.cycles_since_rescore == 0
            &&& rearmed.consecutive_failures == status.consecutive_failures
            &&& first == CycleView::Finished(
                FailoverAction::Rearmed { shortlist: scores.len() as usize },
            )
            &&& prearmed.shortlist == scores
            &&& prearmed.cycles_since_rescore == status.cycles_since_rescore
            &&& prearmed.consecutive_failures == status.consecutive_failures
            &&& second == inspected
            &&& step(CycleView::Rearming, unavailable) == (status, healthy)
            &&& step(CycleView::Rearming, failed) == (status, healthy)
            &&& step(inspecting, unavailable) == (status, inspected)
            &&& step(inspecting, failed) == (status, inspected)
            &&& step(escalating, unavailable) == (
                status,
                CycleView::Finished(FailoverAction::Error("catalog unavailable: "@ + reason)),
            )
            &&& step(escalating, failed) == (
                status,
                CycleView::Finished(FailoverAction::Error("rescore failed: "@ + reason)),
            )
            &&& dropped.consecutive_failures == 0
            &&& third == CycleView::Finished(FailoverAction::Degraded)
        }),
{
}

/// The hour of the day is the number of whole hours since the day began.
pub proof fn law_hours_are_counted_from_midnight(secs: u64, days: nat, hour: nat, rest: nat)
    requires
        secs == days * 86400 + hour * 3600 + rest,
        hour < 24,
        rest < 3600,
    ensures
        failover::hour_at(secs) == hour,
{
}

/// What a cycle decided counts as an intervention exactly if other traffic is carried
/// than before: after a switch, after the tunnel was restored, and while it is down.
pub proof fn law_interventions_change_the_traffic(
    label: Seq<char>,
    failures: usize,
    shortlist: usize,
    reason: Seq<char>,
)
    ensures
        failover::intervenes(FailoverAction::Switched { label }),
        failover::intervenes(FailoverAction::Healed { label }),
        failover::intervenes(FailoverAction::Degraded),
        !failover::intervenes(FailoverAction::Healthy),
        !failover::intervenes(FailoverAction::Inspecting { failures }),
        !failover::intervenes(FailoverAction::Rearmed { shortlist }),
        !failover::intervenes(FailoverAction::Unconfirmed),
        !failover::intervenes(FailoverAction::ManualWindow),
        !failover::intervenes(FailoverAction::Cooldown),
        !failover::intervenes(FailoverAction::Idle),
        !failover::intervenes(FailoverAction::Error(reason)),
{
}

/// The line for a user says that the tunnel is down while it is, whatever was decided
/// last; else it carries the label that matters: of the node that was switched to or
/// restored, or of the active one.
pub proof fn law_summaries_tell_what_matters(status: StatusView, label: Seq<char>)
    ensures
        ({
            let line = failover::summary(status);
            let ends = |tail: Seq<char>| tail.is_suffix_of(line);
            &&& status.degraded ==> line
                == "Egress watchdog: DEGRADED to direct \u{2014} hunting for a live node"@
            &&& !status.degraded && (status.last_action == Some(FailoverAction::Switched { label })
                || status.last_action == Some(FailoverAction::Healed { label })) ==> ends(label)
            &&& !status.degraded && status.active_node == Some(label) && (status.last_action
                is None || status.last_action == Some(
                FailoverAction::<Seq<char>>::Unconfirmed,
            )) ==> ends(label)
            &&& !status.degraded && status.last_action == Some(FailoverAction::Error(label))
                ==> ends(label)
        }),
{
    if !status.degraded {
        match status.last_action {
            Some(FailoverAction::Switched { label: l }) => {
                lemma_suffix("Egress watchdog: auto-switched to "@, l);
            },
            Some(FailoverAction::Healed { label: l }) => {
                lemma_suffix("Egress watchdog: healed, tunnel restored via "@, l);
            },
            Some(FailoverAction::Error(l)) => {
                lemma_suffix("Egress watchdog: error \u{2014} "@, l);
            },
            Some(FailoverAction::Unconfirmed) => {
                lemma_suffix("Egress watchdog: candidate failed confirmation, staying on "@, label);
            },
            None => {
                lemma_suffix("Egress watchdog: monitoring "@, label);
            },
            _ => {},
        }
    }
}

proof fn lemma_suffix(head: Seq<char>, tail: Seq<char>)
    ensures
        tail.is_suffix_of(head + tail),
{
    let all = head + tail;
    assert(tail =~= all.subrange(all.len() - tail.len(), all.len() as int));
}

/// A cycle waits for one thing at a time: for the trial of the active node, for scores,
/// for the trial of the candidate that it is about to switch to, or for that switch,
/// which counts as automatic. Once it is over, it waits for nothing, and nothing changes
/// it.
pub proof fn law_cycles_wait_for_one_thing(
    config: FailoverConfig,
    label: Seq<char>,
    last_auto_switch: Option<Instant>,
    failures: usize,
    index: usize,
    action: ActionView,
    event: EventView,
    status: StatusView,
    now: Instant,
    hour: u8,
)
    ensures
        failover::work_of(CycleView::ProbingActive { label, last_auto_switch })
            is ProbeActive,
        failover::work_of(CycleView::Rearming) is Rescore,
        failover::work_of(CycleView::Prearming { failures }) is Rescore,
        failover::work_of(CycleView::Escalating { label }) is Rescore,
        failover::work_of(CycleView::Healing) is Rescore,
        failover::work_of(CycleView::Confirming { index }) == (CycleWork::Confirm { index }),
        failover::work_of(CycleView::HealConfirming { index }) == (CycleWork::Confirm { index }),
        failover::work_of(CycleView::Switching { index }) == (CycleWork::Switch {
            index,
            automatic: true,
        }),
        failover::work_of(CycleView::HealSwitching { index }) == (CycleWork::Switch {
            index,
            automatic: true,
        }),
        failover::work_of(CycleView::Degrading) is Degrade,
        failover::work_of(CycleView::Finished(action)) is Done,
        failover::stepped(config, CycleView::Finished(action), event, status, now, hour) == (
            status,
            CycleView::Finished(action),
        ),
{
}

/// What a cycle does not wait for changes nothing.
pub proof fn law_unexpected_events_change_nothing(
    config: FailoverConfig,
    state: CycleView,
    event: EventView,
    status: StatusView,
    now: Instant,
    hour: u8,
)
    requires
        match failover::work_of(state) {
            CycleWork::ProbeActive | CycleWork::Confirm { .. } => !(event is Probed),
            CycleWork::Rescore => !(event is Rescored) && !(event is RescoreFailed) && !(
            event is CatalogUnavailable),
            CycleWork::Switch { .. } => !(event is SwitchDone) && !(event is SwitchFailed),
            CycleWork::Degrade => !(event is Dropped),
            CycleWork::Done => true,
        },
    ensures
        failover::stepped(config, state, event, status, now, hour) == (status, state),
{
}

} // verus!
