//! The egress watchdog: when to leave a node, what to switch to, and when to
//! drop the tunnel.
//!
//! A node must fail on consecutive cycles before anything happens. Its
//! replacement must pass a trial and an independent confirmation. The tunnel is
//! dropped only when nothing in the catalog passes, and it is restored as soon as
//! something does.
use crate::controller::ranking;
use crate::controller::ranking::{CandidateScore, ScoreView};
use crate::text;
use crate::time;
use crate::time::{Duration, Instant};
use vstd::prelude::*;
use vstd::string::*;

verus! {

/// Timing and escalation knobs of the watchdog.
#[derive(Clone, Copy, Debug, PartialEq, Eq)]
pub struct FailoverConfig {
    /// Time between two cycles.
    pub interval: Duration,
    /// Consecutive failing cycles before anything is done.
    pub required_consecutive_failures: usize,
    /// A switch of the user's that is younger than this is not interfered with.
    pub min_time_since_manual_switch: Duration,
    /// How long to wait after a switch of the watchdog's own.
    pub cooldown_after_auto_switch: Duration,
    /// How many candidates a shortlist holds at most.
    pub rescore_limit: usize,
    /// The shortlist is refreshed every so many healthy cycles; zero is never.
    pub background_rescore_cycles: u32,
    /// The shortlist is also refreshed between these hours, in UTC.
    pub quiet_hours_utc: Option<(u8, u8)>,
}

impl Default for FailoverConfig {
    fn default() -> (r: FailoverConfig)
        ensures
            r == (FailoverConfig {
                interval: time::secs(180),
                required_consecutive_failures: 2,
                min_time_since_manual_switch: time::secs(300),
                cooldown_after_auto_switch: time::secs(300),
                rescore_limit: 8,
                background_rescore_cycles: 4,
                quiet_hours_utc: None,
            }),
    {
        FailoverConfig {
            interval: Duration::from_secs(180),
            required_consecutive_failures: 2,
            min_time_since_manual_switch: Duration::from_secs(300),
            cooldown_after_auto_switch: Duration::from_secs(300),
            rescore_limit: 8,
            background_rescore_cycles: 4,
            quiet_hours_utc: None,
        }
    }
}

/// What one cycle decided, or failed to decide.
#[derive(Clone, Debug, PartialEq, Eq)]
pub enum FailoverAction<T = String> {
    /// The active node passed.
    Healthy,
    /// The active node failed, but not often enough yet.
    Inspecting { failures: usize },
    /// The shortlist was refreshed.
    Rearmed { shortlist: usize },
    /// A candidate passed its trial and the confirmation, and is now active.
    Switched { label: T },
    /// Candidates passed their trials but not the confirmation.
    Unconfirmed,
    /// Nothing in the catalog passed; the tunnel is down.
    Degraded,
    /// The tunnel was down, and a candidate restored it.
    Healed { label: T },
    /// The user switched recently.
    ManualWindow,
    /// The watchdog switched recently.
    Cooldown,
    /// There is nothing to watch.
    Idle,
    /// The cycle could not be carried out.
    Error(T),
}

/// The model of an action.
pub type ActionView = FailoverAction<Seq<char>>;

impl View for FailoverAction {
    type V = FailoverAction<Seq<char>>;

    open spec fn view(&self) -> FailoverAction<Seq<char>> {
        match *self {
            FailoverAction::Healthy => FailoverAction::Healthy,
            FailoverAction::Inspecting { failures } => FailoverAction::Inspecting { failures },
            FailoverAction::Rearmed { shortlist } => FailoverAction::Rearmed { shortlist },
            FailoverAction::Switched { label } => FailoverAction::Switched { label: label@ },
            FailoverAction::Unconfirmed => FailoverAction::Unconfirmed,
            FailoverAction::Degraded => FailoverAction::Degraded,
            FailoverAction::Healed { label } => FailoverAction::Healed { label: label@ },
            FailoverAction::ManualWindow => FailoverAction::ManualWindow,
            FailoverAction::Cooldown => FailoverAction::Cooldown,
            FailoverAction::Idle => FailoverAction::Idle,
            FailoverAction::Error(e) => FailoverAction::Error(e@),
        }
    }
}

/// The action changed what carries the traffic.
pub open spec fn intervenes(a: ActionView) -> bool {
    a is Switched || a is Degraded || a is Healed
}

impl FailoverAction {
    /// Whether the action changed what carries the traffic.
    pub fn is_intervention(&self) -> (r: bool)
        ensures
            r == intervenes(self@),
    {
        match self {
            FailoverAction::Switched { .. } => true,
            FailoverAction::Degraded => true,
            FailoverAction::Healed { .. } => true,
            _ => false,
        }
    }
}

/// The watchdog's public status.
#[derive(Clone, Debug)]
pub struct FailoverStatus<T = String, A = FailoverAction, L = Vec<CandidateScore>> {
    pub active_node: Option<T>,
    pub degraded: bool,
    pub consecutive_failures: usize,
    pub last_action: Option<A>,
    pub last_action_at: Option<Instant>,
    pub shortlist: L,
    /// Healthy cycles since the shortlist was refreshed.
    pub cycles_since_rescore: u32,
}

/// The model of a status.
pub type StatusView = FailoverStatus<Seq<char>, ActionView, Seq<ScoreView>>;

pub open spec fn action_of(a: Option<FailoverAction>) -> Option<ActionView> {
    match a {
        Some(a) => Some(a@),
        None => None,
    }
}

impl View for FailoverStatus {
    type V = FailoverStatus<Seq<char>, ActionView, Seq<ScoreView>>;

    open spec fn view(&self) -> FailoverStatus<Seq<char>, ActionView, Seq<ScoreView>> {
        FailoverStatus {
            active_node: text::text_of(self.active_node),
            degraded: self.degraded,
            consecutive_failures: self.consecutive_failures,
            last_action: action_of(self.last_action),
            last_action_at: self.last_action_at,
            shortlist: ranking::scores_of(self.shortlist@),
            cycles_since_rescore: self.cycles_since_rescore,
        }
    }
}

impl Default for FailoverStatus {
    fn default() -> (r: FailoverStatus)
        ensures
            r@ == (StatusView {
                active_node: None,
                degraded: false,
                consecutive_failures: 0,
                last_action: None,
                last_action_at: None,
                shortlist: Seq::empty(),
                cycles_since_rescore: 0,
            }),
    {
        let shortlist: Vec<CandidateScore> = Vec::new();
        assert(ranking::scores_of(shortlist@) =~= Seq::empty());
        FailoverStatus {
            active_node: None,
            degraded: false,
            consecutive_failures: 0,
            last_action: None,
            last_action_at: None,
            shortlist,
            cycles_since_rescore: 0,
        }
    }
}

impl FailoverStatus {
    /// Notes what a cycle decided, and when.
    pub fn record(&mut self, action: FailoverAction, at: Instant)
        ensures
            final(self)@ == (StatusView {
                last_action: Some(action@),
                last_action_at: Some(at),
                ..old(self)@
            }),
    {
        self.last_action = Some(action);
        self.last_action_at = Some(at);
    }
}

/// What a cycle starts from.
#[derive(Clone, Debug)]
pub struct CycleStart<T = String> {
    /// The label of the active node, if there is one.
    pub active: Option<T>,
    pub degraded: bool,
    pub last_manual_switch: Option<Instant>,
    pub last_auto_switch: Option<Instant>,
}

impl View for CycleStart {
    type V = CycleStart<Seq<char>>;

    open spec fn view(&self) -> CycleStart<Seq<char>> {
        CycleStart {
            active: text::text_of(self.active),
            degraded: self.degraded,
            last_manual_switch: self.last_manual_switch,
            last_auto_switch: self.last_auto_switch,
        }
    }
}

/// What a cycle waits for.
#[derive(Clone, Debug, PartialEq, Eq)]
pub enum CycleState<T = String> {
    /// A trial of the active node.
    ProbingActive { label: T, last_auto_switch: Option<Instant> },
    /// A new shortlist, while the active node is healthy.
    Rearming,
    /// A new shortlist, while the active node is inspected.
    Prearming { failures: usize },
    /// A new shortlist, to leave the active node.
    Escalating { label: T },
    /// The confirmation of a score of the shortlist.
    Confirming { index: usize },
    /// The switch to a score of the shortlist.
    Switching { index: usize },
    /// The tunnel to be dropped.
    Degrading,
    /// A new shortlist, to restore the tunnel.
    Healing,
    /// The confirmation of a score of the shortlist, to restore the tunnel.
    HealConfirming { index: usize },
    /// The switch to a score of the shortlist, to restore the tunnel.
    HealSwitching { index: usize },
    /// Nothing: the cycle is over.
    Finished(FailoverAction<T>),
}

/// The model of a cycle's state.
pub type CycleView = CycleState<Seq<char>>;

impl View for CycleState {
    type V = CycleState<Seq<char>>;

    open spec fn view(&self) -> CycleState<Seq<char>> {
        match *self {
            CycleState::ProbingActive { label, last_auto_switch } => CycleState::ProbingActive {
                label: label@,
                last_auto_switch,
            },
            CycleState::Rearming => CycleState::Rearming,
            CycleState::Prearming { failures } => CycleState::Prearming { failures },
            CycleState::Escalating { label } => CycleState::Escalating { label: label@ },
            CycleState::Confirming { index } => CycleState::Confirming { index },
            CycleState::Switching { index } => CycleState::Switching { index },
            CycleState::Degrading => CycleState::Degrading,
            CycleState::Healing => CycleState::Healing,
            CycleState::HealConfirming { index } => CycleState::HealConfirming { index },
            CycleState::HealSwitching { index } => CycleState::HealSwitching { index },
            CycleState::Finished(a) => CycleState::Finished(a@),
        }
    }
}

/// The work that a cycle waits for.
#[derive(Clone, Copy, Debug, PartialEq, Eq, Structural)]
pub enum CycleWork {
    /// Try the active node.
    ProbeActive,
    /// Make a new shortlist of the catalog.
    Rescore,
    /// Try the node of a score of the shortlist.
    Confirm { index: usize },
    /// Switch to the node of a score of the shortlist, as the watchdog does or as the
    /// user does.
    Switch { index: usize, automatic: bool },
    /// Drop the tunnel.
    Degrade,
    /// Nothing: the cycle is over.
    Done,
}

/// The work that a state waits for. What the watchdog switches, it switches
/// automatically.
pub open spec fn work_of<T>(state: CycleState<T>) -> CycleWork {
    match state {
        CycleState::ProbingActive { .. } => CycleWork::ProbeActive,
        CycleState::Rearming => CycleWork::Rescore,
        CycleState::Prearming { .. } => CycleWork::Rescore,
        CycleState::Escalating { .. } => CycleWork::Rescore,
        CycleState::Healing => CycleWork::Rescore,
        CycleState::Confirming { index } => CycleWork::Confirm { index },
        CycleState::HealConfirming { index } => CycleWork::Confirm { index },
        CycleState::Switching { index } => CycleWork::Switch { index, automatic: true },
        CycleState::HealSwitching { index } => CycleWork::Switch { index, automatic: true },
        CycleState::Degrading => CycleWork::Degrade,
        CycleState::Finished(_) => CycleWork::Done,
    }
}

impl CycleState {
    /// The work that the cycle waits for.
    pub fn work(&self) -> (r: CycleWork)
        ensures
            r == work_of(self@),
    {
        match self {
            CycleState::ProbingActive { .. } => CycleWork::ProbeActive,
            CycleState::Rearming => CycleWork::Rescore,
            CycleState::Prearming { .. } => CycleWork::Rescore,
            CycleState::Escalating { .. } => CycleWork::Rescore,
            CycleState::Healing => CycleWork::Rescore,
            CycleState::Confirming { index } => CycleWork::Confirm { index: *index },
            CycleState::HealConfirming { index } => CycleWork::Confirm { index: *index },
            CycleState::Switching { index } => CycleWork::Switch { index: *index, automatic: true },
            CycleState::HealSwitching { index } => CycleWork::Switch {
                index: *index,
                automatic: true,
            },
            CycleState::Degrading => CycleWork::Degrade,
            CycleState::Finished(_) => CycleWork::Done,
        }
    }
}

/// What came of the work that a cycle waited for.
#[derive(Clone, Debug)]
pub enum CycleEvent<T = String, L = Vec<CandidateScore>> {
    /// A trial ended; it passed or not. A trial that did not come about did not
    /// pass.
    Probed { passes: bool },
    /// A shortlist was made.
    Rescored(L),
    /// The catalog could not be read, for the given reason.
    CatalogUnavailable(T),
    /// The shortlist could not be made, for the given reason.
    RescoreFailed(T),
    /// The switch was made, to the given label.
    SwitchDone(T),
    /// The switch was not made, for the given reason.
    SwitchFailed(T),
    /// The tunnel was dropped.
    Dropped,
}

/// The model of an event.
pub type EventView = CycleEvent<Seq<char>, Seq<ScoreView>>;

impl View for CycleEvent {
    type V = CycleEvent<Seq<char>, Seq<ScoreView>>;

    open spec fn view(&self) -> CycleEvent<Seq<char>, Seq<ScoreView>> {
        match *self {
            CycleEvent::Probed { passes } => CycleEvent::Probed { passes },
            CycleEvent::Rescored(l) => CycleEvent::Rescored(ranking::scores_of(l@)),
            CycleEvent::CatalogUnavailable(e) => CycleEvent::CatalogUnavailable(e@),
            CycleEvent::RescoreFailed(e) => CycleEvent::RescoreFailed(e@),
            CycleEvent::SwitchDone(l) => CycleEvent::SwitchDone(l@),
            CycleEvent::SwitchFailed(e) => CycleEvent::SwitchFailed(e@),
            CycleEvent::Dropped => CycleEvent::Dropped,
        }
    }
}

// ---------------------------------------------------------------------------
// Model
// ---------------------------------------------------------------------------

/// The hour lies in the window, which may go past midnight.
pub open spec fn is_quiet(window: Option<(u8, u8)>, hour: u8) -> bool {
    match window {
        None => false,
        Some((start, end)) => if start <= end {
            start <= hour < end
        } else {
            hour >= start || hour < end
        },
    }
}

/// The hour of the day at a number of seconds since the epoch.
pub open spec fn hour_at(secs: u64) -> u8 {
    (secs / 3600 % 24) as u8
}

/// The shortlist is due after so many healthy cycles, or at this hour.
pub open spec fn is_refresh_due(config: FailoverConfig, cycles: u32, hour: u8) -> bool {
    (config.background_rescore_cycles > 0 && cycles >= config.background_rescore_cycles)
        || is_quiet(config.quiet_hours_utc, hour)
}

/// The moment is less than a span ago.
pub open spec fn is_recent(moment: Option<Instant>, now: Instant, span: Duration) -> bool {
    match moment {
        Some(then) => time::since(now, then).nanos < span.nanos,
        None => false,
    }
}

/// The scores under another label, in order.
pub open spec fn without_label(scores: Seq<ScoreView>, label: Seq<char>) -> Seq<ScoreView>
    decreases scores.len(),
{
    if scores.len() == 0 {
        Seq::empty()
    } else {
        let before = without_label(scores.drop_last(), label);
        if scores.last().label != label {
            before.push(scores.last())
        } else {
            before
        }
    }
}

/// The first passing score at or after a position.
pub open spec fn next_passing(scores: Seq<ScoreView>, from: int) -> Option<usize>
    decreases scores.len() - from,
{
    if from < 0 || from >= scores.len() {
        None
    } else if scores[from].passes {
        Some(from as usize)
    } else {
        next_passing(scores, from + 1)
    }
}

/// The status and the state with which a cycle starts.
pub open spec fn begun(
    config: FailoverConfig,
    start: CycleStart<Seq<char>>,
    status: StatusView,
    now: Instant,
) -> (StatusView, CycleView) {
    let status = FailoverStatus { active_node: start.active, degraded: start.degraded, ..status };
    if start.degraded {
        (status, CycleState::Healing)
    } else {
        match start.active {
            None => (
                FailoverStatus { shortlist: Seq::empty(), ..status },
                CycleState::Finished(FailoverAction::Idle),
            ),
            Some(label) => if is_recent(
                start.last_manual_switch,
                now,
                config.min_time_since_manual_switch,
            ) {
                (status, CycleState::Finished(FailoverAction::ManualWindow))
            } else {
                (
                    status,
                    CycleState::ProbingActive { label, last_auto_switch: start.last_auto_switch },
                )
            },
        }
    }
}

/// The status and the state after the trial of the active node.
pub open spec fn after_probe(
    config: FailoverConfig,
    label: Seq<char>,
    last_auto_switch: Option<Instant>,
    passes: bool,
    status: StatusView,
    now: Instant,
    hour: u8,
) -> (StatusView, CycleView) {
    if passes {
        let cycles = (status.cycles_since_rescore + 1) as u32;
        let status = FailoverStatus {
            consecutive_failures: 0,
            cycles_since_rescore: cycles,
            ..status
        };
        if is_refresh_due(config, cycles, hour) {
            (status, CycleState::Rearming)
        } else {
            (status, CycleState::Finished(FailoverAction::Healthy))
        }
    } else {
        let failures = (status.consecutive_failures + 1) as usize;
        let status = FailoverStatus { consecutive_failures: failures, ..status };
        if failures < config.required_consecutive_failures {
            (status, CycleState::Prearming { failures })
        } else if is_recent(last_auto_switch, now, config.cooldown_after_auto_switch) {
            (status, CycleState::Finished(FailoverAction::Cooldown))
        } else {
            (status, CycleState::Escalating { label })
        }
    }
}

/// What an escalation does with the scores of the catalog and with the shortlist
/// that is left of them without the active node: confirm the first passing score
/// of the shortlist; if there is none, stay if any score passed, and drop the
/// tunnel if none did.
pub open spec fn escalation(scores: Seq<ScoreView>, shortlist: Seq<ScoreView>) -> CycleView {
    match next_passing(shortlist, 0) {
        Some(index) => CycleState::Confirming { index },
        None => if next_passing(scores, 0) is Some {
            CycleState::Finished(FailoverAction::Unconfirmed)
        } else {
            CycleState::Degrading
        },
    }
}

/// What an escalation does when a passing score before a position was not
/// confirmed: confirm the next passing score, and stay if there is none.
pub open spec fn escalation_from(shortlist: Seq<ScoreView>, from: int) -> CycleView {
    match next_passing(shortlist, from) {
        Some(index) => CycleState::Confirming { index },
        None => CycleState::Finished(FailoverAction::Unconfirmed),
    }
}

/// What healing does with a shortlist from a position on: confirm the next
/// passing score; if there is none, the tunnel stays down.
pub open spec fn healing_from(shortlist: Seq<ScoreView>, from: int) -> CycleView {
    match next_passing(shortlist, from) {
        Some(index) => CycleState::HealConfirming { index },
        None => CycleState::Finished(FailoverAction::Degraded),
    }
}

pub open spec fn calm(status: StatusView) -> StatusView {
    FailoverStatus { consecutive_failures: 0, ..status }
}

pub open spec fn armed(status: StatusView, shortlist: Seq<ScoreView>) -> StatusView {
    FailoverStatus { shortlist, ..status }
}

/// The status and the state after an event. An event that was not waited for
/// changes nothing.
pub open spec fn stepped(
    config: FailoverConfig,
    state: CycleView,
    event: EventView,
    status: StatusView,
    now: Instant,
    hour: u8,
) -> (StatusView, CycleView) {
    match (state, event) {
        (
            CycleState::ProbingActive { label, last_auto_switch },
            CycleEvent::Probed { passes },
        ) => after_probe(config, label, last_auto_switch, passes, status, now, hour),
        (CycleState::Rearming, CycleEvent::Rescored(l)) => (
            FailoverStatus { cycles_since_rescore: 0, ..armed(status, l) },
            CycleState::Finished(FailoverAction::Rearmed { shortlist: l.len() as usize }),
        ),
        (CycleState::Rearming, CycleEvent::CatalogUnavailable(_)) => (
            status,
            CycleState::Finished(FailoverAction::Healthy),
        ),
        (CycleState::Rearming, CycleEvent::RescoreFailed(_)) => (
            status,
            CycleState::Finished(FailoverAction::Healthy),
        ),
        (CycleState::Prearming { failures }, CycleEvent::Rescored(l)) => (
            armed(status, l),
            CycleState::Finished(FailoverAction::Inspecting { failures }),
        ),
        (CycleState::Prearming { failures }, CycleEvent::CatalogUnavailable(_)) => (
            status,
            CycleState::Finished(FailoverAction::Inspecting { failures }),
        ),
        (CycleState::Prearming { failures }, CycleEvent::RescoreFailed(_)) => (
            status,
            CycleState::Finished(FailoverAction::Inspecting { failures }),
        ),
        (CycleState::Escalating { label }, CycleEvent::Rescored(l)) => {
            let shortlist = without_label(l, label);
            (armed(status, shortlist), escalation(l, shortlist))
        },
        (CycleState::Escalating { label }, CycleEvent::CatalogUnavailable(e)) => (
            status,
            CycleState::Finished(FailoverAction::Error("catalog unavailable: "@ + e)),
        ),
        (CycleState::Escalating { label }, CycleEvent::RescoreFailed(e)) => (
            status,
            CycleState::Finished(FailoverAction::Error("rescore failed: "@ + e)),
        ),
        (CycleState::Confirming { index }, CycleEvent::Probed { passes }) => if passes {
            (status, CycleState::Switching { index })
        } else {
            (status, escalation_from(status.shortlist, index + 1))
        },
        (CycleState::Switching { index }, CycleEvent::SwitchDone(label)) => (
            calm(status),
            CycleState::Finished(FailoverAction::Switched { label }),
        ),
        (CycleState::Switching { index }, CycleEvent::SwitchFailed(e)) => (
            status,
            CycleState::Finished(FailoverAction::Error("switch failed: "@ + e)),
        ),
        (CycleState::Degrading, CycleEvent::Dropped) => (
            calm(status),
            CycleState::Finished(FailoverAction::Degraded),
        ),
        (CycleState::Healing, CycleEvent::Rescored(l)) => (armed(status, l), healing_from(l, 0)),
        (CycleState::Healing, CycleEvent::CatalogUnavailable(_)) => (
            status,
            CycleState::Finished(FailoverAction::Degraded),
        ),
        (CycleState::Healing, CycleEvent::RescoreFailed(_)) => (
            status,
            CycleState::Finished(FailoverAction::Degraded),
        ),
        (CycleState::HealConfirming { index }, CycleEvent::Probed { passes }) => if passes {
            (status, CycleState::HealSwitching { index })
        } else {
            (status, healing_from(status.shortlist, index + 1))
        },
        (CycleState::HealSwitching { index }, CycleEvent::SwitchDone(label)) => (
            calm(status),
            CycleState::Finished(FailoverAction::Healed { label }),
        ),
        (CycleState::HealSwitching { index }, CycleEvent::SwitchFailed(_)) => (
            status,
            healing_from(status.shortlist, index + 1),
        ),
        (other, _) => (status, other),
    }
}

/// What holds of every state of a cycle: a score that is confirmed or switched to
/// passed its trial, the tunnel is about to be dropped only if no score of the
/// shortlist passed and it is up, and an active node is left only after the
/// required failures.
pub open spec fn is_sound(config: FailoverConfig, state: CycleView, status: StatusView) -> bool {
    let enough = status.consecutive_failures >= config.required_consecutive_failures;
    let passed = |index: usize|
        index < status.shortlist.len() && status.shortlist[index as int].passes;
    match state {
        CycleState::ProbingActive { .. } => !status.degraded,
        CycleState::Escalating { .. } => enough && !status.degraded,
        CycleState::Confirming { index } => enough && !status.degraded && passed(index),
        CycleState::Switching { index } => enough && !status.degraded && passed(index),
        CycleState::Degrading => enough && !status.degraded && forall|i: int|
            0 <= i < status.shortlist.len() ==> !(#[trigger] status.shortlist[i]).passes,
        CycleState::HealConfirming { index } => status.degraded && passed(index),
        CycleState::HealSwitching { index } => status.degraded && passed(index),
        CycleState::Healing => status.degraded,
        _ => true,
    }
}

// ---------------------------------------------------------------------------
// Laws
// ---------------------------------------------------------------------------

pub proof fn lemma_next_passing(scores: Seq<ScoreView>, from: int)
    requires
        0 <= from,
        scores.len() <= usize::MAX,
    ensures
        (match next_passing(scores, from) {
            Some(index) => from <= index < scores.len() && scores[index as int].passes && (forall|
                i: int,
            |
                from <= i < index ==> !(#[trigger] scores[i]).passes),
            None => forall|i: int| from <= i < scores.len() ==> !(#[trigger] scores[i]).passes,
        }),
    decreases scores.len() - from,
{
    if from < scores.len() && !scores[from].passes {
        lemma_next_passing(scores, from + 1);
    }
}

pub proof fn lemma_without_label(scores: Seq<ScoreView>, label: Seq<char>)
    ensures
        without_label(scores, label).len() <= scores.len(),
        forall|i: int|
            0 <= i < without_label(scores, label).len() ==> (#[trigger] without_label(
                scores,
                label,
            )[i]).label != label && scores.contains(without_label(scores, label)[i]),
        forall|x: ScoreView|
            scores.contains(x) && x.label != label ==> #[trigger] without_label(
                scores,
                label,
            ).contains(x),
    decreases scores.len(),
{
    if scores.len() > 0 {
        let rest = scores.drop_last();
        let before = without_label(rest, label);
        let all = without_label(scores, label);
        lemma_without_label(rest, label);
        assert forall|i: int| 0 <= i < all.len() implies (#[trigger] all[i]).label != label
            && scores.contains(all[i]) by {
            if i < before.len() {
                assert(all[i] == before[i]);
                let k = choose|k: int| 0 <= k < rest.len() && rest[k] == before[i];
                assert(scores[k] == all[i]);
            } else {
                assert(scores[scores.len() - 1] == all[i]);
            }
        }
        assert forall|x: ScoreView| scores.contains(x) && x.label != label implies #[trigger] all.contains(
            x,
        ) by {
            let k = choose|k: int| 0 <= k < scores.len() && scores[k] == x;
            if k < rest.len() {
                assert(rest[k] == x);
                assert(rest.contains(x));
                assert(before.contains(x));
                let i = choose|i: int| 0 <= i < before.len() && before[i] == x;
                assert(all[i] == x);
            } else {
                assert(all[before.len() as int] == x);
            }
        }
    }
}

/// A shortlist never leads back to the node that is to be left.
pub proof fn law_the_failed_node_is_no_candidate(scores: Seq<ScoreView>, label: Seq<char>)
    ensures
        forall|i: int|
            0 <= i < without_label(scores, label).len() ==> (#[trigger] without_label(
                scores,
                label,
            )[i]).label != label,
{
    lemma_without_label(scores, label);
}

/// Every cycle starts sound.
pub proof fn law_cycles_start_sound(
    config: FailoverConfig,
    start: CycleStart<Seq<char>>,
    status: StatusView,
    now: Instant,
)
    ensures
        is_sound(
            config,
            begun(config, start, status, now).1,
            begun(config, start, status, now).0,
        ),
{
}

/// Every event keeps a cycle sound: whatever the trials, the confirmations and the
/// switches give, a switch is only made to a candidate that passed its trial, and
/// the tunnel is dropped only when no candidate passed.
pub proof fn law_cycles_stay_sound(
    config: FailoverConfig,
    state: CycleView,
    event: EventView,
    status: StatusView,
    now: Instant,
    hour: u8,
)
    requires
        is_sound(config, state, status),
        status.shortlist.len() <= usize::MAX,
        event matches CycleEvent::Rescored(l) ==> l.len() <= usize::MAX,
        status.consecutive_failures < usize::MAX,
    ensures
        is_sound(
            config,
            stepped(config, state, event, status, now, hour).1,
            stepped(config, state, event, status, now, hour).0,
        ),
{
    match (state, event) {
        (CycleState::Escalating { label }, CycleEvent::Rescored(l)) => {
            lemma_without_label(l, label);
            lemma_next_passing(without_label(l, label), 0);
        },
        (CycleState::Confirming { index }, CycleEvent::Probed { passes }) => {
            lemma_next_passing(status.shortlist, index + 1);
        },
        (CycleState::Healing, CycleEvent::Rescored(l)) => {
            lemma_next_passing(l, 0);
        },
        (CycleState::HealConfirming { index }, CycleEvent::Probed { passes }) => {
            lemma_next_passing(status.shortlist, index + 1);
        },
        (CycleState::HealSwitching { index }, CycleEvent::SwitchFailed(_)) => {
            lemma_next_passing(status.shortlist, index + 1);
        },
        _ => {},
    }
}

/// The tunnel is about to be dropped only when nothing in the catalog passed: not
/// one of the scores of the rescore, that of the active node included.
pub proof fn law_the_tunnel_is_dropped_only_if_nothing_passed(
    config: FailoverConfig,
    state: CycleView,
    event: EventView,
    status: StatusView,
    now: Instant,
    hour: u8,
)
    requires
        !(state is Degrading),
        event matches CycleEvent::Rescored(l) ==> l.len() <= usize::MAX,
        stepped(config, state, event, status, now, hour).1 is Degrading,
    ensures
        state is Escalating,
        event matches CycleEvent::Rescored(l) && forall|i: int|
            0 <= i < l.len() ==> !(#[trigger] l[i]).passes,
{
    match event {
        CycleEvent::Rescored(l) => {
            lemma_next_passing(l, 0);
        },
        _ => {},
    }
}

/// A switch follows a confirmation that passed, and nothing else.
pub proof fn law_switches_are_confirmed(
    config: FailoverConfig,
    state: CycleView,
    event: EventView,
    status: StatusView,
    now: Instant,
    hour: u8,
    index: usize,
)
    requires
        !(state is Switching) && !(state is HealSwitching),
        ({
            let after = stepped(config, state, event, status, now, hour).1;
            ||| after == (CycleView::Switching { index })
            ||| after == (CycleView::HealSwitching { index })
        }),
    ensures
        event == (EventView::Probed { passes: true }),
        state == (CycleView::Confirming { index }) || state == (CycleView::HealConfirming { index }),
{
}

/// A cycle that ends with an intervention ended a switch, dropped the tunnel, or
/// found that it must stay down.
pub proof fn law_interventions_have_a_cause(
    config: FailoverConfig,
    state: CycleView,
    event: EventView,
    status: StatusView,
    now: Instant,
    hour: u8,
)
    requires
        !(state is Finished),
        stepped(config, state, event, status, now, hour).1 is Finished,
        intervenes(stepped(config, state, event, status, now, hour).1->Finished_0),
    ensures
        state is Switching || state is HealSwitching || state is Degrading || state is Healing
            || state is HealConfirming,
        stepped(config, state, event, status, now, hour).1->Finished_0 is Switched ==> state
            is Switching && event is SwitchDone,
{
}

/// While the user's own switch is recent, a cycle asks for nothing.
pub proof fn law_manual_switches_are_respected(
    config: FailoverConfig,
    start: CycleStart<Seq<char>>,
    status: StatusView,
    now: Instant,
)
    requires
        !start.degraded,
        start.active is Some,
        is_recent(start.last_manual_switch, now, config.min_time_since_manual_switch),
    ensures
        begun(config, start, status, now).1 == CycleView::Finished(FailoverAction::ManualWindow),
        begun(config, start, status, now).0.consecutive_failures == status.consecutive_failures,
{
}

/// Where a cycle stands after the first `n` of what happened to it: events, each
/// with the moment and the hour at which it came.
pub open spec fn cycle_after(
    config: FailoverConfig,
    start: CycleStart<Seq<char>>,
    status: StatusView,
    began: Instant,
    happened: Seq<(EventView, Instant, u8)>,
    n: nat,
) -> (StatusView, CycleView)
    decreases n,
{
    if n == 0 {
        begun(config, start, status, began)
    } else {
        let before = cycle_after(config, start, status, began, happened, (n - 1) as nat);
        let (event, now, hour) = happened[n - 1];
        stepped(config, before.1, event, before.0, now, hour)
    }
}

/// Among the first `n` events a rescore gave the score, and it passed.
pub open spec fn was_scored_passing(
    happened: Seq<(EventView, Instant, u8)>,
    n: nat,
    score: ScoreView,
) -> bool {
    score.passes && exists|j: int|
        0 <= j < n && (#[trigger] happened[j]).0 is Rescored && happened[j].0->Rescored_0.contains(
            score,
        )
}

/// The state waits for the confirmation of a score of the shortlist.
pub open spec fn is_confirming(state: CycleView, index: usize) -> bool {
    state == (CycleView::Confirming { index }) || state == (CycleView::HealConfirming { index })
}

/// The state waits for the switch to a score of the shortlist.
pub open spec fn is_switching(state: CycleView, index: usize) -> bool {
    state == (CycleView::Switching { index }) || state == (CycleView::HealSwitching { index })
}

/// Among the first `n` events the score, which had been scored passing before, was
/// confirmed.
pub open spec fn was_confirmed(
    config: FailoverConfig,
    start: CycleStart<Seq<char>>,
    status: StatusView,
    began: Instant,
    happened: Seq<(EventView, Instant, u8)>,
    n: nat,
    score: ScoreView,
) -> bool {
    exists|i: int, index: usize|
        #![trigger is_confirming(
            cycle_after(config, start, status, began, happened, i as nat).1,
            index,
        )]
        {
            let at = cycle_after(config, start, status, began, happened, i as nat);
            &&& 0 <= i < n
            &&& is_confirming(at.1, index)
            &&& index < at.0.shortlist.len()
            &&& at.0.shortlist[index as int] == score
            &&& was_scored_passing(happened, i as nat, score)
            &&& happened[i].0 == (EventView::Probed { passes: true })
        }
}

/// No rescore gave more scores than fit in memory.
pub open spec fn rescores_fit(happened: Seq<(EventView, Instant, u8)>) -> bool {
    forall|j: int|
        0 <= j < happened.len() && (#[trigger] happened[j]).0 is Rescored
            ==> happened[j].0->Rescored_0.len() <= usize::MAX
}

/// Over a whole cycle, a switch is only made to a candidate that a rescore of the
/// same cycle scored passing and that was then confirmed.
pub proof fn law_switches_go_to_confirmed_candidates(
    config: FailoverConfig,
    start: CycleStart<Seq<char>>,
    status: StatusView,
    began: Instant,
    happened: Seq<(EventView, Instant, u8)>,
    n: nat,
    index: usize,
)
    requires
        n <= happened.len(),
        rescores_fit(happened),
        is_switching(cycle_after(config, start, status, began, happened, n).1, index),
    ensures
        ({
            let shortlist = cycle_after(config, start, status, began, happened, n).0.shortlist;
            index < shortlist.len() && was_confirmed(
                config,
                start,
                status,
                began,
                happened,
                n,
                shortlist[index as int],
            )
        }),
{
    lemma_cycle_history(config, start, status, began, happened, n);
}

/// What every state of a whole cycle has behind it.
spec fn has_history(
    config: FailoverConfig,
    start: CycleStart<Seq<char>>,
    status: StatusView,
    began: Instant,
    happened: Seq<(EventView, Instant, u8)>,
    n: nat,
) -> bool {
    let at = cycle_after(config, start, status, began, happened, n);
    let armed = at.1 is Confirming || at.1 is HealConfirming || at.1 is Switching || at.1
        is HealSwitching;
    &&& armed ==> at.0.shortlist.len() <= usize::MAX && forall|k: int|
        0 <= k < at.0.shortlist.len() && (#[trigger] at.0.shortlist[k]).passes
            ==> was_scored_passing(happened, n, at.0.shortlist[k])
    &&& forall|index: usize| #[trigger]
        is_confirming(at.1, index) ==> index < at.0.shortlist.len()
            && at.0.shortlist[index as int].passes
    &&& forall|index: usize| #[trigger]
        is_switching(at.1, index) ==> index < at.0.shortlist.len() && was_confirmed(
            config,
            start,
            status,
            began,
            happened,
            n,
            at.0.shortlist[index as int],
        )
}

proof fn lemma_scored_later(happened: Seq<(EventView, Instant, u8)>, n: nat, score: ScoreView)
    requires
        was_scored_passing(happened, n, score),
    ensures
        was_scored_passing(happened, n + 1, score),
{
    let j = choose|j: int|
        0 <= j < n && (#[trigger] happened[j]).0 is Rescored && happened[j].0->Rescored_0.contains(
            score,
        );
    assert(0 <= j < n + 1 && happened[j].0 is Rescored);
}

proof fn lemma_cycle_history(
    config: FailoverConfig,
    start: CycleStart<Seq<char>>,
    status: StatusView,
    began: Instant,
    happened: Seq<(EventView, Instant, u8)>,
    n: nat,
)
    requires
        n <= happened.len(),
        rescores_fit(happened),
    ensures
        has_history(config, start, status, began, happened, n),
    decreases n,
{
    if n > 0 {
        let m = (n - 1) as nat;
        lemma_cycle_history(config, start, status, began, happened, m);
        let before = cycle_after(config, start, status, began, happened, m);
        let at = cycle_after(config, start, status, began, happened, n);
        let (event, now, hour) = happened[n - 1];
        assert(at == stepped(config, before.1, event, before.0, now, hour));
        let armed = at.1 is Confirming || at.1 is HealConfirming || at.1 is Switching || at.1
            is HealSwitching;
        if armed {
            match (before.1, event) {
                (CycleState::Escalating { label }, CycleEvent::Rescored(l)) => {
                    assert(happened[m as int].0 is Rescored);
                    lemma_without_label(l, label);
                    lemma_next_passing(at.0.shortlist, 0);
                    assert forall|k: int|
                        0 <= k < at.0.shortlist.len() && (
                        #[trigger] at.0.shortlist[k]).passes implies was_scored_passing(
                        happened,
                        n,
                        at.0.shortlist[k],
                    ) by {
                        assert(happened[m as int].0->Rescored_0.contains(at.0.shortlist[k]));
                    }
                },
                (CycleState::Healing, CycleEvent::Rescored(l)) => {
                    assert(happened[m as int].0 is Rescored);
                    lemma_next_passing(l, 0);
                    assert forall|k: int|
                        0 <= k < at.0.shortlist.len() && (
                        #[trigger] at.0.shortlist[k]).passes implies was_scored_passing(
                        happened,
                        n,
                        at.0.shortlist[k],
                    ) by {
                        assert(happened[m as int].0->Rescored_0.contains(l[k]));
                    }
                },
                _ => {
                    assert(at.0.shortlist == before.0.shortlist);
                    match before.1 {
                        CycleState::Confirming { index } => {
                            assert(is_confirming(before.1, index));
                            lemma_next_passing(before.0.shortlist, index + 1);
                        },
                        CycleState::HealConfirming { index } => {
                            assert(is_confirming(before.1, index));
                            lemma_next_passing(before.0.shortlist, index + 1);
                        },
                        CycleState::Switching { index } => {
                            assert(is_switching(before.1, index));
                        },
                        CycleState::HealSwitching { index } => {
                            assert(is_switching(before.1, index));
                            lemma_next_passing(before.0.shortlist, index + 1);
                        },
                        _ => {},
                    }
                    assert forall|k: int|
                        0 <= k < at.0.shortlist.len() && (
                        #[trigger] at.0.shortlist[k]).passes implies was_scored_passing(
                        happened,
                        n,
                        at.0.shortlist[k],
                    ) by {
                        assert(before.0.shortlist[k].passes);
                        lemma_scored_later(happened, m, at.0.shortlist[k]);
                    }
                    assert forall|index: usize| #[trigger] is_switching(at.1, index) implies index
                        < at.0.shortlist.len() && was_confirmed(
                        config,
                        start,
                        status,
                        began,
                        happened,
                        n,
                        at.0.shortlist[index as int],
                    ) by {
                        if is_switching(before.1, index) {
                            lemma_confirmed_later(
                                config,
                                start,
                                status,
                                began,
                                happened,
                                m,
                                at.0.shortlist[index as int],
                            );
                        } else {
                            assert(is_confirming(
                                cycle_after(config, start, status, began, happened, m as int as nat).1,
                                index,
                            ));
                            assert(before.0.shortlist[index as int].passes);
                        }
                    }
                },
            }
        }
    }
}

proof fn lemma_confirmed_later(
    config: FailoverConfig,
    start: CycleStart<Seq<char>>,
    status: StatusView,
    began: Instant,
    happened: Seq<(EventView, Instant, u8)>,
    n: nat,
    score: ScoreView,
)
    requires
        was_confirmed(config, start, status, began, happened, n, score),
    ensures
        was_confirmed(config, start, status, began, happened, n + 1, score),
{
    let (i, index) = choose|i: int, index: usize|
        #![trigger is_confirming(
            cycle_after(config, start, status, began, happened, i as nat).1,
            index,
        )]
        {
            let at = cycle_after(config, start, status, began, happened, i as nat);
            &&& 0 <= i < n
            &&& is_confirming(at.1, index)
            &&& index < at.0.shortlist.len()
            &&& at.0.shortlist[index as int] == score
            &&& was_scored_passing(happened, i as nat, score)
            &&& happened[i].0 == (EventView::Probed { passes: true })
        };
    assert(is_confirming(
        cycle_after(config, start, status, began, happened, i as nat).1,
        index,
    ));
}

/// A switch to the label was done among the first `n` events, while the cycle
/// waited for one: to restore the tunnel, or to leave the active node.
pub open spec fn switch_was_done(
    config: FailoverConfig,
    start: CycleStart<Seq<char>>,
    status: StatusView,
    began: Instant,
    happened: Seq<(EventView, Instant, u8)>,
    n: nat,
    label: Seq<char>,
    healing: bool,
) -> bool {
    exists|i: int|
        {
            let state = cycle_after(config, start, status, began, happened, i as nat).1;
            &&& 0 <= i < n
            &&& (#[trigger] happened[i]).0 == EventView::SwitchDone(label)
            &&& if healing {
                state is HealSwitching
            } else {
                state is Switching
            }
        }
}

/// Over a whole cycle, `Switched` and `Healed` come exactly with a switch done:
/// whenever one was done while the cycle waited for it, and never else.
pub proof fn law_switches_are_reported(
    config: FailoverConfig,
    start: CycleStart<Seq<char>>,
    status: StatusView,
    began: Instant,
    happened: Seq<(EventView, Instant, u8)>,
    n: nat,
    label: Seq<char>,
)
    requires
        n <= happened.len(),
    ensures
        cycle_after(config, start, status, began, happened, n).1 == CycleView::Finished(
            FailoverAction::Switched { label },
        ) <==> switch_was_done(config, start, status, began, happened, n, label, false),
        cycle_after(config, start, status, began, happened, n).1 == CycleView::Finished(
            FailoverAction::Healed { label },
        ) <==> switch_was_done(config, start, status, began, happened, n, label, true),
    decreases n,
{
    if n > 0 {
        let m = (n - 1) as nat;
        law_switches_are_reported(config, start, status, began, happened, m, label);
        let before = cycle_after(config, start, status, began, happened, m);
        let at = cycle_after(config, start, status, began, happened, n);
        let (event, now, hour) = happened[n - 1];
        assert(at == stepped(config, before.1, event, before.0, now, hour));
        assert forall|healing: bool|
            #[trigger] switch_was_done(
                config,
                start,
                status,
                began,
                happened,
                n,
                label,
                healing,
            ) == (switch_was_done(config, start, status, began, happened, m, label, healing) || (
            event == EventView::SwitchDone(label) && (if healing {
                before.1 is HealSwitching
            } else {
                before.1 is Switching
            }))) by {
            if switch_was_done(config, start, status, began, happened, m, label, healing) {
                let i = choose|i: int|
                    {
                        let state = cycle_after(
                            config,
                            start,
                            status,
                            began,
                            happened,
                            i as nat,
                        ).1;
                        &&& 0 <= i < m
                        &&& (#[trigger] happened[i]).0 == EventView::SwitchDone(label)
                        &&& if healing {
                            state is HealSwitching
                        } else {
                            state is Switching
                        }
                    };
                assert(happened[i].0 == EventView::SwitchDone(label));
            }
            assert(happened[m as int].0 == event);
        }
    }
}

/// A cycle that begins with the tunnel down never asks for it to be dropped, and
/// makes no switch but to restore it.
pub proof fn law_degraded_cycles_only_heal(
    config: FailoverConfig,
    start: CycleStart<Seq<char>>,
    status: StatusView,
    began: Instant,
    happened: Seq<(EventView, Instant, u8)>,
    n: nat,
)
    requires
        n <= happened.len(),
        start.degraded,
    ensures
        ({
            let state = cycle_after(config, start, status, began, happened, n).1;
            state is Healing || state is HealConfirming || state is HealSwitching || (state matches
                CycleState::Finished(action) && (action is Degraded || action is Healed))
        }),
    decreases n,
{
    if n > 0 {
        law_degraded_cycles_only_heal(config, start, status, began, happened, (n - 1) as nat);
    }
}

/// One failing trial is not enough where more are required: the node is only
/// inspected.
pub proof fn law_failures_must_be_consecutive(
    config: FailoverConfig,
    label: Seq<char>,
    last: Option<Instant>,
    status: StatusView,
    now: Instant,
    hour: u8,
)
    requires
        status.consecutive_failures + 1 < config.required_consecutive_failures,
    ensures
        after_probe(config, label, last, false, status, now, hour).1 == (CycleView::Prearming {
            failures: (status.consecutive_failures + 1) as usize,
        }),
        after_probe(config, label, last, true, status, now, hour).0.consecutive_failures == 0,
{
}

// ---------------------------------------------------------------------------
// Executable forms
// ---------------------------------------------------------------------------

/// Whether the hour lies in the quiet window.
pub fn in_quiet_hours(config: &FailoverConfig, hour: u8) -> (r: bool)
    ensures
        r == is_quiet(config.quiet_hours_utc, hour),
{
    match config.quiet_hours_utc {
        None => false,
        Some((start, end)) => if start <= end {
            hour >= start && hour < end
        } else {
            hour >= start || hour < end
        },
    }
}

/// The hour of the day, in UTC, at a number of seconds since the epoch.
pub fn utc_hour(secs: u64) -> (r: u8)
    ensures
        r == hour_at(secs),
        r < 24,
{
    (secs / 3600 % 24) as u8
}

fn is_recent_moment(moment: Option<Instant>, now: Instant, span: Duration) -> (r: bool)
    ensures
        r == is_recent(moment, now, span),
{
    match moment {
        Some(then) => now.duration_since(then).nanos < span.nanos,
        None => false,
    }
}

/// Counts a healthy cycle, and says whether the shortlist is due.
pub fn should_refresh_shortlist(
    config: &FailoverConfig,
    status: &mut FailoverStatus,
    hour: u8,
) -> (r: bool)
    requires
        old(status).cycles_since_rescore < u32::MAX,
    ensures
        final(status)@ == (StatusView {
            cycles_since_rescore: (old(status)@.cycles_since_rescore + 1) as u32,
            ..old(status)@
        }),
        r == is_refresh_due(*config, (old(status)@.cycles_since_rescore + 1) as u32, hour),
{
    status.cycles_since_rescore = status.cycles_since_rescore + 1;
    (config.background_rescore_cycles > 0 && status.cycles_since_rescore
        >= config.background_rescore_cycles) || in_quiet_hours(config, hour)
}

fn keep_other_labels(scores: &Vec<CandidateScore>, label: &str) -> (r: Vec<CandidateScore>)
    ensures
        ranking::scores_of(r@) == without_label(ranking::scores_of(scores@), label@),
{
    let ghost all = ranking::scores_of(scores@);
    let mut r: Vec<CandidateScore> = Vec::new();
    let mut i: usize = 0;
    assert(ranking::scores_of(r@) =~= Seq::empty());
    assert(all.take(0) =~= Seq::empty());
    while i < scores.len()
        invariant
            i <= scores@.len(),
            all == ranking::scores_of(scores@),
            ranking::scores_of(r@) == without_label(all.take(i as int), label@),
        decreases scores@.len() - i,
    {
        proof {
            assert(all.take(i + 1).drop_last() =~= all.take(i as int));
            assert(all.take(i + 1).last() == scores@[i as int]@);
        }
        if !text::same(scores[i].label.as_str(), label) {
            let ghost before = ranking::scores_of(r@);
            r.push(scores[i].copy());
            assert(ranking::scores_of(r@) =~= before.push(scores@[i as int]@));
        }
        i += 1;
    }
    assert(all.take(all.len() as int) =~= all);
    r
}

fn find_passing(scores: &Vec<CandidateScore>, from: usize) -> (r: Option<usize>)
    ensures
        r == next_passing(ranking::scores_of(scores@), from as int),
{
    let ghost all = ranking::scores_of(scores@);
    let mut i: usize = from;
    while i < scores.len()
        invariant
            from <= i,
            all == ranking::scores_of(scores@),
            next_passing(all, from as int) == next_passing(all, i as int),
        decreases scores@.len() - i,
    {
        assert(all[i as int] == scores@[i as int]@);
        if scores[i].passes {
            return Some(i);
        }
        i += 1;
    }
    None
}

fn escalate(scores: &Vec<CandidateScore>, shortlist: &Vec<CandidateScore>) -> (r: CycleState)
    ensures
        r@ == escalation(ranking::scores_of(scores@), ranking::scores_of(shortlist@)),
{
    match find_passing(shortlist, 0) {
        Some(index) => CycleState::Confirming { index },
        None => match find_passing(scores, 0) {
            Some(_) => CycleState::Finished(FailoverAction::Unconfirmed),
            None => CycleState::Degrading,
        },
    }
}

fn escalate_from(scores: &Vec<CandidateScore>, from: usize) -> (r: CycleState)
    ensures
        r@ == escalation_from(ranking::scores_of(scores@), from as int),
{
    match find_passing(scores, from) {
        Some(index) => CycleState::Confirming { index },
        None => CycleState::Finished(FailoverAction::Unconfirmed),
    }
}

fn heal_from(scores: &Vec<CandidateScore>, from: usize) -> (r: CycleState)
    ensures
        r@ == healing_from(ranking::scores_of(scores@), from as int),
{
    match find_passing(scores, from) {
        Some(index) => CycleState::HealConfirming { index },
        None => CycleState::Finished(FailoverAction::Degraded),
    }
}

fn failed(reason: &str, error: &str) -> (r: CycleState)
    ensures
        r@ == CycleView::Finished(FailoverAction::Error(reason@ + error@)),
{
    let mut message = reason.to_owned();
    message.append(error);
    CycleState::Finished(FailoverAction::Error(message))
}

/// Starts a cycle.
pub fn begin_cycle(
    config: &FailoverConfig,
    start: &CycleStart,
    status: &mut FailoverStatus,
    now: Instant,
) -> (r: CycleState)
    ensures
        (final(status)@, r@) == begun(*config, start@, old(status)@, now),
{
    status.active_node = text::copy_text(&start.active);
    status.degraded = start.degraded;
    if start.degraded {
        return CycleState::Healing;
    }
    match &start.active {
        None => {
            status.shortlist = Vec::new();
            assert(ranking::scores_of(status.shortlist@) =~= Seq::empty());
            CycleState::Finished(FailoverAction::Idle)
        },
        Some(label) => {
            if is_recent_moment(
                start.last_manual_switch,
                now,
                config.min_time_since_manual_switch,
            ) {
                return CycleState::Finished(FailoverAction::ManualWindow);
            }
            CycleState::ProbingActive {
                label: label.clone(),
                last_auto_switch: start.last_auto_switch,
            }
        },
    }
}

fn active_probed(
    config: &FailoverConfig,
    label: String,
    last_auto_switch: Option<Instant>,
    passes: bool,
    status: &mut FailoverStatus,
    now: Instant,
    hour: u8,
) -> (r: CycleState)
    requires
        old(status).consecutive_failures < usize::MAX,
        old(status).cycles_since_rescore < u32::MAX,
    ensures
        (final(status)@, r@) == after_probe(
            *config,
            label@,
            last_auto_switch,
            passes,
            old(status)@,
            now,
            hour,
        ),
{
    if passes {
        status.consecutive_failures = 0;
        if should_refresh_shortlist(config, status, hour) {
            CycleState::Rearming
        } else {
            CycleState::Finished(FailoverAction::Healthy)
        }
    } else {
        let failures: usize = status.consecutive_failures + 1;
        status.consecutive_failures = failures;
        if failures < config.required_consecutive_failures {
            CycleState::Prearming { failures }
        } else if is_recent_moment(last_auto_switch, now, config.cooldown_after_auto_switch) {
            CycleState::Finished(FailoverAction::Cooldown)
        } else {
            CycleState::Escalating { label }
        }
    }
}

/// Goes on with a cycle after an event.
pub fn step_cycle(
    config: &FailoverConfig,
    state: CycleState,
    event: CycleEvent,
    status: &mut FailoverStatus,
    now: Instant,
    hour: u8,
) -> (r: CycleState)
    requires
        old(status).consecutive_failures < usize::MAX,
        old(status).cycles_since_rescore < u32::MAX,
    ensures
        (final(status)@, r@) == stepped(*config, state@, event@, old(status)@, now, hour),
{
    match (state, event) {
        (
            CycleState::ProbingActive { label, last_auto_switch },
            CycleEvent::Probed { passes },
        ) => active_probed(config, label, last_auto_switch, passes, status, now, hour),
        (CycleState::Rearming, CycleEvent::Rescored(l)) => {
            let shortlist: usize = l.len();
            status.shortlist = l;
            status.cycles_since_rescore = 0;
            CycleState::Finished(FailoverAction::Rearmed { shortlist })
        },
        (CycleState::Rearming, CycleEvent::CatalogUnavailable(_)) => CycleState::Finished(
            FailoverAction::Healthy,
        ),
        (CycleState::Rearming, CycleEvent::RescoreFailed(_)) => CycleState::Finished(
            FailoverAction::Healthy,
        ),
        (CycleState::Prearming { failures }, CycleEvent::Rescored(l)) => {
            status.shortlist = l;
            CycleState::Finished(FailoverAction::Inspecting { failures })
        },
        (CycleState::Prearming { failures }, CycleEvent::CatalogUnavailable(_)) =>
            CycleState::Finished(FailoverAction::Inspecting { failures }),
        (CycleState::Prearming { failures }, CycleEvent::RescoreFailed(_)) => CycleState::Finished(
            FailoverAction::Inspecting { failures },
        ),
        (CycleState::Escalating { label }, CycleEvent::Rescored(l)) => {
            status.shortlist = keep_other_labels(&l, label.as_str());
            escalate(&l, &status.shortlist)
        },
        (CycleState::Escalating { .. }, CycleEvent::CatalogUnavailable(e)) => failed(
            "catalog unavailable: ",
            e.as_str(),
        ),
        (CycleState::Escalating { .. }, CycleEvent::RescoreFailed(e)) => failed(
            "rescore failed: ",
            e.as_str(),
        ),
        (CycleState::Confirming { index }, CycleEvent::Probed { passes }) => {
            if passes {
                CycleState::Switching { index }
            } else if index < status.shortlist.len() {
                escalate_from(&status.shortlist, index + 1)
            } else {
                escalate_from(&status.shortlist, index)
            }
        },
        (CycleState::Switching { .. }, CycleEvent::SwitchDone(label)) => {
            status.consecutive_failures = 0;
            CycleState::Finished(FailoverAction::Switched { label })
        },
        (CycleState::Switching { .. }, CycleEvent::SwitchFailed(e)) => failed(
            "switch failed: ",
            e.as_str(),
        ),
        (CycleState::Degrading, CycleEvent::Dropped) => {
            status.consecutive_failures = 0;
            CycleState::Finished(FailoverAction::Degraded)
        },
        (CycleState::Healing, CycleEvent::Rescored(l)) => {
            status.shortlist = l;
            heal_from(&status.shortlist, 0)
        },
        (CycleState::Healing, CycleEvent::CatalogUnavailable(_)) => CycleState::Finished(
            FailoverAction::Degraded,
        ),
        (CycleState::Healing, CycleEvent::RescoreFailed(_)) => CycleState::Finished(
            FailoverAction::Degraded,
        ),
        (CycleState::HealConfirming { index }, CycleEvent::Probed { passes }) => {
            if passes {
                CycleState::HealSwitching { index }
            } else if index < status.shortlist.len() {
                heal_from(&status.shortlist, index + 1)
            } else {
                heal_from(&status.shortlist, index)
            }
        },
        (CycleState::HealSwitching { .. }, CycleEvent::SwitchDone(label)) => {
            status.consecutive_failures = 0;
            CycleState::Finished(FailoverAction::Healed { label })
        },
        (CycleState::HealSwitching { index }, CycleEvent::SwitchFailed(_)) => {
            if index < status.shortlist.len() {
                heal_from(&status.shortlist, index + 1)
            } else {
                heal_from(&status.shortlist, index)
            }
        },
        (other, _) => other,
    }
}

// ---------------------------------------------------------------------------
// Texts
// ---------------------------------------------------------------------------

/// The line that tells a user what the watchdog is doing.
pub open spec fn summary(status: StatusView) -> Seq<char> {
    let active = match status.active_node {
        Some(label) => label,
        None => "no active node"@,
    };
    if status.degraded {
        "Egress watchdog: DEGRADED to direct \u{2014} hunting for a live node"@
    } else {
        match status.last_action {
            None => "Egress watchdog: monitoring "@ + active,
            Some(action) => match action {
                FailoverAction::Healthy => "Egress watchdog: "@ + active + " healthy"@,
                FailoverAction::Inspecting { failures } => "Egress watchdog: inspecting "@ + active
                    + " ("@ + text::decimal(failures as nat) + " consecutive misses)"@,
                FailoverAction::Rearmed { shortlist } => "Egress watchdog: shortlist refreshed ("@
                    + text::decimal(shortlist as nat) + " candidates)"@,
                FailoverAction::Switched { label } => "Egress watchdog: auto-switched to "@ + label,
                FailoverAction::Unconfirmed =>
                    "Egress watchdog: candidate failed confirmation, staying on "@ + active,
                FailoverAction::Degraded => "Egress watchdog: degraded to direct"@,
                FailoverAction::Healed { label } =>
                    "Egress watchdog: healed, tunnel restored via "@ + label,
                FailoverAction::ManualWindow => "Egress watchdog: deferring to manual control"@,
                FailoverAction::Cooldown => "Egress watchdog: in post-switch cooldown"@,
                FailoverAction::Idle => "Egress watchdog: idle (no active node)"@,
                FailoverAction::Error(e) => "Egress watchdog: error \u{2014} "@ + e,
            },
        }
    }
}

fn joined(first: &str, second: &str) -> (r: String)
    ensures
        r@ == first@ + second@,
{
    let mut r = first.to_owned();
    r.append(second);
    r
}

/// The line that tells a user what the watchdog is doing.
pub fn watchdog_summary(status: &FailoverStatus) -> (r: String)
    ensures
        r@ == summary(status@),
{
    if status.degraded {
        return "Egress watchdog: DEGRADED to direct \u{2014} hunting for a live node".to_owned();
    }
    let active = match &status.active_node {
        Some(label) => label.as_str(),
        None => "no active node",
    };
    match &status.last_action {
        None => joined("Egress watchdog: monitoring ", active),
        Some(action) => match action {
            FailoverAction::Healthy => {
                let mut r = joined("Egress watchdog: ", active);
                r.append(" healthy");
                r
            },
            FailoverAction::Inspecting { failures } => {
                let mut r = joined("Egress watchdog: inspecting ", active);
                r.append(" (");
                r.append(text::decimal_text(*failures as u64).as_str());
                r.append(" consecutive misses)");
                r
            },
            FailoverAction::Rearmed { shortlist } => {
                let mut r = joined(
                    "Egress watchdog: shortlist refreshed (",
                    text::decimal_text(*shortlist as u64).as_str(),
                );
                r.append(" candidates)");
                r
            },
            FailoverAction::Switched { label } => joined(
                "Egress watchdog: auto-switched to ",
                label.as_str(),
            ),
            FailoverAction::Unconfirmed => joined(
                "Egress watchdog: candidate failed confirmation, staying on ",
                active,
            ),
            FailoverAction::Degraded => "Egress watchdog: degraded to direct".to_owned(),
            FailoverAction::Healed { label } => joined(
                "Egress watchdog: healed, tunnel restored via ",
                label.as_str(),
            ),
            FailoverAction::ManualWindow =>
                "Egress watchdog: deferring to manual control".to_owned(),
            FailoverAction::Cooldown => "Egress watchdog: in post-switch cooldown".to_owned(),
            FailoverAction::Idle => "Egress watchdog: idle (no active node)".to_owned(),
            FailoverAction::Error(e) => joined("Egress watchdog: error \u{2014} ", e.as_str()),
        },
    }
}

} // verus!
