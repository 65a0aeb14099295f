//! The gateway heartbeat: probing the gateway's health and publishing
//! reachability.
//!
//! While the gateway answers, it is probed on the fixed interval; while it is
//! unreachable, the next probe waits out a delay drawn from the reconnect
//! backoff, and when the backoff's budget is exhausted the loop gives up.
//! Observers hear about transitions only. Every transition also feeds the
//! menu's reachability, and while the gateway is reachable the profile state
//! and the model catalog are refreshed, each on its own, until both are ready;
//! then the selection is restored exactly once.

use crate::gateway::HEALTH_PROBE_TIMEOUT;
use crate::status::{Activity, Severity, StatusBarUpdate};
use crate::text::{holds_text, same_text, text_option, texts};
use vstd::prelude::*;

pub mod refresh;

verus! {

/// The status line announcing that the gateway answers its health probe.
pub const CONNECTED_LABEL: &'static str = "Connected to gateway";

/// The description riding the connected announcement.
pub const CONNECTED_DESCRIPTION: &'static str = "the gateway answers its health probe";

/// The status line announcing that the gateway does not answer.
pub const UNREACHABLE_LABEL: &'static str = "Gateway unreachable";

/// The description riding the unreachable announcement.
pub const UNREACHABLE_DESCRIPTION: &'static str = "the gateway does not answer its health probe";

/// The status line announcing that the loop gave up.
pub const STOPPED_LABEL: &'static str = "Gateway reconnect stopped";

/// The description riding the give-up announcement.
pub const STOPPED_DESCRIPTION: &'static str =
    "the reconnect budget is exhausted; restart the workshop to retry";

/// How often the heartbeat probes a reachable gateway, in seconds.
pub const HEARTBEAT_INTERVAL: u64 = 5;

/// A probe is given up before the next one is due.
pub proof fn law_probe_fits_interval()
    ensures
        HEALTH_PROBE_TIMEOUT < HEARTBEAT_INTERVAL,
{
}

/// Gateway reachability, written by the heartbeat and read by the
/// gateway-dependent routes. It starts optimistic: until the first probe
/// lands, a request flows to the gateway and fails or succeeds on its own
/// merits.
#[derive(Debug)]
pub struct GatewayHealth {
    reachable: bool,
}

impl GatewayHealth {
    /// Whether the gateway is believed reachable.
    pub closed spec fn reachable(&self) -> bool {
        self.reachable
    }

    /// Starts the flag optimistic.
    #[must_use]
    pub fn new() -> (health: GatewayHealth)
        ensures
            health.reachable(),
    {
        GatewayHealth { reachable: true }
    }

    /// Whether the gateway is currently believed reachable.
    #[must_use]
    pub fn is_reachable(&self) -> (reachable: bool)
        ensures
            reachable == self.reachable(),
    {
        self.reachable
    }

    /// Publishes one probe outcome, and says whether it changed the flag:
    /// subscribers are notified only then.
    pub fn publish(&mut self, reachable: bool) -> (changed: bool)
        ensures
            final(self).reachable() == reachable,
            changed == (old(self).reachable() != reachable),
    {
        let changed = self.reachable != reachable;
        self.reachable = reachable;
        changed
    }
}

impl Default for GatewayHealth {
    fn default() -> (health: GatewayHealth)
        ensures
            health.reachable(),
    {
        GatewayHealth::new()
    }
}

/// Whether a status line is one of the heartbeat's transition announcements.
pub open spec fn is_transition(label: Seq<char>) -> bool {
    label == CONNECTED_LABEL@ || label == UNREACHABLE_LABEL@
}

/// The status frame that a joining session hears first: the retained frame,
/// unless that frame is one of the heartbeat's transition announcements. A
/// transition describes a past moment, so the line is recomputed from the
/// current reachability.
#[must_use]
pub fn join_status(retained: Option<StatusBarUpdate>, health: &GatewayHealth) -> (frame: Option<
    StatusBarUpdate,
>)
    ensures
        retained is None ==> frame is None,
        retained matches Some(update) ==> {
            &&& frame matches Some(shown)
            &&& !is_transition(update.label@) ==> shown == update
            &&& is_transition(update.label@) ==> {
                &&& shown.label@ == if health.reachable() {
                    "Ready"@
                } else {
                    UNREACHABLE_LABEL@
                }
                &&& shown.description@ == if health.reachable() {
                    "idle"@
                } else {
                    UNREACHABLE_DESCRIPTION@
                }
                &&& shown.progress is None
                &&& shown.severity == Severity::Info
                &&& shown.activity == Activity::General
            }
        },
{
    match retained {
        None => None,
        Some(update) => {
            if !same_text(update.label.as_str(), CONNECTED_LABEL) && !same_text(
                update.label.as_str(),
                UNREACHABLE_LABEL,
            ) {
                return Some(update);
            }
            let reachable = health.is_reachable();
            let label = if reachable {
                "Ready"
            } else {
                UNREACHABLE_LABEL
            };
            let description = if reachable {
                "idle"
            } else {
                UNREACHABLE_DESCRIPTION
            };
            Some(StatusBarUpdate::informing(label, description))
        },
    }
}

/// The status line of a transition: that the gateway answers its health probe,
/// or that it does not.
pub fn announcement(reachable: bool) -> (line: StatusBarUpdate)
    ensures
        line.label@ == if reachable {
            CONNECTED_LABEL@
        } else {
            UNREACHABLE_LABEL@
        },
        line.description@ == if reachable {
            CONNECTED_DESCRIPTION@
        } else {
            UNREACHABLE_DESCRIPTION@
        },
        line.progress is None,
        line.severity == Severity::Info,
        line.activity == Activity::General,
{
    if reachable {
        StatusBarUpdate::informing(CONNECTED_LABEL, CONNECTED_DESCRIPTION)
    } else {
        StatusBarUpdate::informing(UNREACHABLE_LABEL, UNREACHABLE_DESCRIPTION)
    }
}

/// The status line of a loop that gave up: the reconnect budget is exhausted,
/// which is a failure.
pub fn gave_up() -> (line: StatusBarUpdate)
    ensures
        line.label@ == STOPPED_LABEL@,
        line.description@ == STOPPED_DESCRIPTION@,
        line.progress is None,
        line.severity == Severity::Error,
        line.activity == Activity::General,
{
    StatusBarUpdate {
        label: STOPPED_LABEL.to_owned(),
        description: STOPPED_DESCRIPTION.to_owned(),
        progress: None,
        severity: Severity::Error,
        activity: Activity::General,
    }
}

/// Which of the gateway-owned menu sources have been brought up.
#[derive(Clone, Copy, Debug, PartialEq, Eq, Structural)]
pub struct RefreshState {
    /// The profile state is ready.
    pub profiles_ready: bool,
    /// A selectable model is ready.
    pub catalog_ready: bool,
    /// The selection was restored.
    pub selection_restored: bool,
}

/// Nothing is ready.
pub open spec fn nothing_ready() -> RefreshState {
    RefreshState { profiles_ready: false, catalog_ready: false, selection_restored: false }
}

/// What the loop does next.
#[derive(Clone, Copy, Debug, PartialEq, Eq, Structural)]
pub enum Next {
    /// Probe the gateway.
    Probe,
    /// Wait out the interval, then probe.
    Wait,
    /// Draw a delay from the reconnect backoff.
    Draw,
    /// Wait out a drawn delay, then probe.
    Delay {
        /// The whole seconds of the delay.
        seconds: u64,
        /// The nanoseconds beyond them.
        nanos: u32,
    },
    /// Refresh the sources that are not ready.
    Refresh {
        /// The profile state.
        profiles: bool,
        /// The model catalog.
        catalog: bool,
    },
    /// Report that the loop gave up, and stop.
    GiveUp,
    /// Stop.
    Stop,
}

/// What interrupts a wait, a probe, or a refresh.
#[derive(Clone, Copy, Debug, PartialEq, Eq, Structural)]
pub enum Interrupt {
    /// The stop signal.
    Stop,
    /// A replacement of the gateway was published.
    Rebound,
    /// No replacement can be published any more.
    BindingGone,
}

/// What follows from a probe.
#[derive(Clone, Copy, Debug, PartialEq, Eq, Structural)]
pub struct ProbeReport {
    /// The outcome to publish, none where the probed generation is no longer
    /// the current one.
    pub published: Option<bool>,
    /// The transition to announce on the menu and the status bar.
    pub announced: Option<bool>,
    /// Whether to restore the selection.
    pub restore: bool,
    /// What the loop does next.
    pub next: Next,
}

/// What follows from a refresh.
#[derive(Clone, Copy, Debug, PartialEq, Eq, Structural)]
pub struct RefreshReport {
    /// Whether to restore the selection.
    pub restore: bool,
    /// What the loop does next.
    pub next: Next,
}

/// The state of the probe loop.
#[derive(Clone, Copy, Debug, PartialEq, Eq, Structural)]
pub struct HeartbeatLoop {
    /// The last probe's outcome, none before the first probe of a binding.
    pub last: Option<bool>,
    /// What has been refreshed since the gateway became reachable.
    pub refresh: RefreshState,
}

/// A loop that has probed nothing.
pub open spec fn unprobed() -> HeartbeatLoop {
    HeartbeatLoop { last: None, refresh: nothing_ready() }
}

/// What the loop does at its top: the first probe runs at once, a reachable
/// gateway is probed on the interval, an unreachable one after a drawn delay.
pub open spec fn at_top(s: HeartbeatLoop) -> Next {
    match s.last {
        None => Next::Probe,
        Some(true) => Next::Wait,
        Some(false) => Next::Draw,
    }
}

/// Both sources are ready and the selection has not been restored for them.
pub open spec fn restore_due(r: RefreshState) -> bool {
    r.profiles_ready && r.catalog_ready && !r.selection_restored
}

/// The refresh state once a restore that is due has been made.
pub open spec fn restored(r: RefreshState) -> RefreshState {
    if restore_due(r) {
        RefreshState { selection_restored: true, ..r }
    } else {
        r
    }
}

/// The transition that a probe announces: none where the probe before it had
/// the same outcome.
pub open spec fn announces(s: HeartbeatLoop, reachable: bool) -> Option<bool> {
    if s.last == Some(reachable) {
        None
    } else {
        Some(reachable)
    }
}

/// The loop after a probe of the current generation.
pub open spec fn after_probe(s: HeartbeatLoop, reachable: bool) -> HeartbeatLoop {
    HeartbeatLoop {
        last: Some(reachable),
        refresh: if !reachable {
            nothing_ready()
        } else if s.refresh.profiles_ready && s.refresh.catalog_ready {
            restored(s.refresh)
        } else {
            s.refresh
        },
    }
}

/// The refresh state after a refresh: each source that was refreshed is as
/// ready as the refresh says, the others are unchanged.
pub open spec fn after_refresh(
    r: RefreshState,
    profiles: Option<bool>,
    catalog: Option<bool>,
) -> RefreshState {
    RefreshState {
        profiles_ready: match profiles {
            Some(ready) => ready,
            None => r.profiles_ready,
        },
        catalog_ready: match catalog {
            Some(ready) => ready,
            None => r.catalog_ready,
        },
        selection_restored: r.selection_restored,
    }
}

impl HeartbeatLoop {
    /// A loop that has probed nothing.
    pub fn new() -> (state: HeartbeatLoop)
        ensures
            state == unprobed(),
    {
        HeartbeatLoop {
            last: None,
            refresh: RefreshState {
                profiles_ready: false,
                catalog_ready: false,
                selection_restored: false,
            },
        }
    }

    /// What the loop does at its top.
    pub fn next(&self) -> (next: Next)
        ensures
            next == at_top(*self),
    {
        match self.last {
            None => Next::Probe,
            Some(reachable) => if reachable {
                Next::Wait
            } else {
                Next::Draw
            },
        }
    }

    /// What follows from a draw from the backoff: a delay, in seconds and
    /// nanoseconds, or, where the budget is exhausted, the end of the loop.
    pub fn drawn(&self, delay: Option<(u64, u32)>) -> (next: Next)
        ensures
            next == match delay {
                Some((seconds, nanos)) => Next::Delay { seconds, nanos },
                None => Next::GiveUp,
            },
    {
        match delay {
            Some((seconds, nanos)) => Next::Delay { seconds, nanos },
            None => Next::GiveUp,
        }
    }

    /// What follows from an interrupt. The stop signal wins, and a replaced
    /// gateway is probed at once, from the start.
    pub fn interrupted(&mut self, interrupt: Interrupt) -> (next: Next)
        ensures
            interrupt == Interrupt::Rebound ==> next == Next::Probe && *final(self) == unprobed(),
            interrupt != Interrupt::Rebound ==> next == Next::Stop && *final(self) == *old(self),
    {
        match interrupt {
            Interrupt::Rebound => {
                *self = HeartbeatLoop::new();
                Next::Probe
            },
            Interrupt::Stop | Interrupt::BindingGone => Next::Stop,
        }
    }

    /// What follows from a probe of `generation` once the current generation
    /// is `current`.
    pub fn probed(&mut self, generation: u64, current: u64, reachable: bool) -> (report: ProbeReport)
        ensures
            generation != current ==> *final(self) == unprobed() && report == (ProbeReport {
                published: None,
                announced: None,
                restore: false,
                next: Next::Probe,
            }),
            generation == current ==> {
                &&& *final(self) == after_probe(*old(self), reachable)
                &&& report.published == Some(reachable)
                &&& report.announced == announces(*old(self), reachable)
                &&& report.restore == (reachable && restore_due(old(self).refresh))
                &&& report.next == if !reachable {
                    Next::Draw
                } else if old(self).refresh.profiles_ready && old(self).refresh.catalog_ready {
                    Next::Wait
                } else {
                    Next::Refresh {
                        profiles: !old(self).refresh.profiles_ready,
                        catalog: !old(self).refresh.catalog_ready,
                    }
                }
            },
    {
        if generation != current {
            *self = HeartbeatLoop::new();
            return ProbeReport {
                published: None,
                announced: None,
                restore: false,
                next: Next::Probe,
            };
        }
        let same = match self.last {
            Some(last) => last == reachable,
            None => false,
        };
        let announced = if same {
            None
        } else {
            Some(reachable)
        };
        self.last = Some(reachable);
        if !reachable {
            self.refresh = HeartbeatLoop::new().refresh;
            return ProbeReport {
                published: Some(reachable),
                announced,
                restore: false,
                next: Next::Draw,
            };
        }
        if !self.refresh.profiles_ready || !self.refresh.catalog_ready {
            return ProbeReport {
                published: Some(reachable),
                announced,
                restore: false,
                next: Next::Refresh {
                    profiles: !self.refresh.profiles_ready,
                    catalog: !self.refresh.catalog_ready,
                },
            };
        }
        let restore = self.take_restore();
        ProbeReport { published: Some(reachable), announced, restore, next: Next::Wait }
    }

    /// What follows from a refresh, which says of each source that it
    /// refreshed whether it is ready.
    pub fn refreshed(&mut self, profiles: Option<bool>, catalog: Option<bool>) -> (report: RefreshReport)
        requires
            old(self).last == Some(true),
        ensures
            final(self).last == old(self).last,
            final(self).refresh == restored(after_refresh(old(self).refresh, profiles, catalog)),
            report.restore == restore_due(after_refresh(old(self).refresh, profiles, catalog)),
            report.next == Next::Wait,
    {
        match profiles {
            Some(ready) => {
                self.refresh.profiles_ready = ready;
            },
            None => {},
        }
        match catalog {
            Some(ready) => {
                self.refresh.catalog_ready = ready;
            },
            None => {},
        }
        let restore = self.take_restore();
        RefreshReport { restore, next: Next::Wait }
    }

    fn take_restore(&mut self) -> (restore: bool)
        ensures
            final(self).last == old(self).last,
            final(self).refresh == restored(old(self).refresh),
            restore == restore_due(old(self).refresh),
    {
        if self.refresh.profiles_ready && self.refresh.catalog_ready
            && !self.refresh.selection_restored {
            self.refresh.selection_restored = true;
            true
        } else {
            false
        }
    }
}

/// A restored selection belongs to sources that are both ready.
pub open spec fn converging(s: HeartbeatLoop) -> bool {
    s.refresh.selection_restored ==> s.refresh.profiles_ready && s.refresh.catalog_ready
}

/// The selection is restored exactly once per convergence: a restore marks the
/// state, and from a marked state no probe and no refresh of what is not ready
/// restores again, until the gateway is lost or replaced.
pub proof fn law_restored_once(s: HeartbeatLoop, profiles: Option<bool>, catalog: Option<bool>)
    requires
        converging(s),
    ensures
        converging(unprobed()),
        converging(after_probe(s, true)),
        converging(after_probe(s, false)),
        restore_due(s.refresh) ==> !restore_due(after_probe(s, true).refresh),
        !restore_due(restored(after_refresh(s.refresh, profiles, catalog))),
        s.refresh.selection_restored ==> !restore_due(s.refresh),
        s.refresh.selection_restored ==> after_probe(s, true).refresh == s.refresh,
        !after_probe(s, false).refresh.selection_restored,
{
}

/// What the loop makes of one probe and of the refresh behind it, if any.
#[verifier::ext_equal]
pub struct Tick {
    /// The probe's outcome.
    pub reachable: bool,
    /// Whether a refresh followed.
    pub refreshed: bool,
    /// Whether the refresh brought up the profile state.
    pub profiles: Option<bool>,
    /// Whether the refresh brought up a selectable model.
    pub catalog: Option<bool>,
}

/// The loop after one tick.
pub open spec fn after_tick(s: HeartbeatLoop, tick: Tick) -> HeartbeatLoop {
    let probed = after_probe(s, tick.reachable);
    if tick.refreshed {
        HeartbeatLoop {
            refresh: restored(after_refresh(probed.refresh, tick.profiles, tick.catalog)),
            ..probed
        }
    } else {
        probed
    }
}

/// A loop that starts fresh, after its first `n` ticks.
pub open spec fn after_ticks(ticks: Seq<Tick>, n: nat) -> HeartbeatLoop
    decreases n,
{
    if n == 0 || n > ticks.len() {
        unprobed()
    } else {
        after_tick(after_ticks(ticks, (n - 1) as nat), ticks[n - 1])
    }
}

/// A steady state is silent: of any run of probes, whatever was refreshed
/// between them, the first is announced, and each later one exactly where its
/// outcome differs from the one before.
pub proof fn law_only_transitions_are_announced(ticks: Seq<Tick>, n: nat)
    requires
        n < ticks.len(),
    ensures
        announces(after_ticks(ticks, n), ticks[n as int].reachable) == if n == 0
            || ticks[n as int].reachable != ticks[n - 1].reachable {
            Some(ticks[n as int].reachable)
        } else {
            None
        },
{
}

/// A delay is drawn from the backoff only while the gateway is unreachable.
pub proof fn law_backoff_only_when_unreachable(s: HeartbeatLoop)
    ensures
        at_top(s) == Next::Draw <==> s.last == Some(false),
        at_top(unprobed()) == Next::Probe,
{
}

/// Whether the profile state is ready: the gateway named profiles, and the
/// active one is among them.
pub open spec fn profiles_are_ready(
    profiles: Option<Seq<Seq<char>>>,
    active: Option<Seq<char>>,
) -> bool {
    &&& profiles matches Some(names)
    &&& names.len() > 0
    &&& active matches Some(name)
    &&& names.contains(name)
}

/// An optional list of strings as texts.
pub open spec fn names_of(profiles: Option<Vec<String>>) -> Option<Seq<Seq<char>>> {
    match profiles {
        Some(names) => Some(texts(names@)),
        None => None,
    }
}

/// Whether the profile state that a refresh brought is ready. A gateway
/// without profile support is a state, not an error.
pub fn profiles_ready(profiles: &Option<Vec<String>>, active: &Option<String>) -> (ready: bool)
    ensures
        ready == profiles_are_ready(names_of(*profiles), text_option(*active)),
{
    match (profiles, active) {
        (Some(names), Some(name)) => names.len() > 0 && holds_text(names, name.as_str()),
        _ => false,
    }
}

/// What the heartbeat announces: that the gateway answers, that it does not,
/// and that the loop gave up, each in its own words.
pub proof fn law_announcements()
    ensures
        CONNECTED_LABEL@ == "Connected to gateway"@,
        CONNECTED_DESCRIPTION@ == "the gateway answers its health probe"@,
        UNREACHABLE_LABEL@ == "Gateway unreachable"@,
        UNREACHABLE_DESCRIPTION@ == "the gateway does not answer its health probe"@,
        STOPPED_LABEL@ == "Gateway reconnect stopped"@,
        STOPPED_DESCRIPTION@ == "the reconnect budget is exhausted; restart the workshop to retry"@,
        HEARTBEAT_INTERVAL == 5,
{
}

/// A transition line is one that says either verdict; no other line is.
pub proof fn law_only_the_verdicts_are_transitions(label: Seq<char>)
    ensures
        is_transition("Connected to gateway"@),
        is_transition("Gateway unreachable"@),
        is_transition(label) ==> label == "Connected to gateway"@ || label
            == "Gateway unreachable"@,
{
}

/// A probe is remembered whatever stood before it, and the next step follows
/// from it: a gateway that answered is waited for, one that did not draws a
/// delay.
pub proof fn law_a_probe_is_remembered(s: HeartbeatLoop, reachable: bool)
    ensures
        after_probe(s, reachable).last == Some(reachable),
        at_top(after_probe(s, reachable)) == if reachable {
            Next::Wait
        } else {
            Next::Draw
        },
        announces(after_probe(s, reachable), reachable) is None,
        announces(after_probe(s, reachable), !reachable) == Some(!reachable),
        s.last is None ==> at_top(s) == Next::Probe && announces(s, reachable) == Some(reachable),
{
}

/// A lost gateway is brought up again from nothing: neither source is ready,
/// and the selection is not restored. One that answers keeps what is ready.
pub proof fn law_a_lost_gateway_starts_over(s: HeartbeatLoop)
    ensures
        !after_probe(s, false).refresh.profiles_ready,
        !after_probe(s, false).refresh.catalog_ready,
        !after_probe(s, false).refresh.selection_restored,
        after_probe(s, true).refresh.profiles_ready == s.refresh.profiles_ready,
        after_probe(s, true).refresh.catalog_ready == s.refresh.catalog_ready,
        s.refresh.selection_restored ==> after_probe(s, true).refresh.selection_restored,
        !unprobed().refresh.profiles_ready,
        !unprobed().refresh.catalog_ready,
        !unprobed().refresh.selection_restored,
        unprobed().last is None,
{
}

/// A source is as ready as its refresh says, and one that was not refreshed is
/// as ready as it was; the selection is restored once both are ready, and
/// restoring changes nothing else.
pub proof fn law_a_refresh_speaks_for_its_source(
    r: RefreshState,
    profiles: Option<bool>,
    catalog: Option<bool>,
)
    ensures
        profiles matches Some(ready) ==> after_refresh(r, profiles, catalog).profiles_ready == ready,
        profiles is None ==> after_refresh(r, profiles, catalog).profiles_ready == r.profiles_ready,
        catalog matches Some(ready) ==> after_refresh(r, profiles, catalog).catalog_ready == ready,
        catalog is None ==> after_refresh(r, profiles, catalog).catalog_ready == r.catalog_ready,
        after_refresh(r, profiles, catalog).selection_restored == r.selection_restored,
        restored(r).profiles_ready == r.profiles_ready,
        restored(r).catalog_ready == r.catalog_ready,
        r.profiles_ready && r.catalog_ready ==> restored(r).selection_restored,
        !(r.profiles_ready && r.catalog_ready) ==> !restore_due(r)
            && restored(r).selection_restored == r.selection_restored,
        r.profiles_ready && r.catalog_ready ==> restore_due(r) == !r.selection_restored,
{
}

/// The profile state is ready exactly where the active profile is known and
/// stands somewhere in a list that was fetched.
pub proof fn law_ready_profiles_hold_the_active_one(
    names: Seq<Seq<char>>,
    name: Seq<char>,
    i: int,
    active: Option<Seq<char>>,
)
    ensures
        0 <= i < names.len() && names[i] == name ==> profiles_are_ready(Some(names), Some(name)),
        (forall|k: int| 0 <= k < names.len() ==> #[trigger] names[k] != name)
            ==> !profiles_are_ready(Some(names), Some(name)),
        !profiles_are_ready(Some(names), None),
        !profiles_are_ready(None, active),
{
}

} // verus!
