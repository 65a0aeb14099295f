//! The gateway progress subscriber: importing the gateway's progress events.
//!
//! It subscribes while the gateway reads reachable and idles while it does
//! not. Each subscription tracks one import per upstream operation id, so
//! interleaved work stays separate and a finished operation detaches without
//! closing the long-lived event stream. When the subscription drops, its
//! imports detach with it: progress from a gateway that can no longer be heard
//! is stale.

use std::collections::HashSet;
use vstd::prelude::*;

verus! {

broadcast use vstd::std_specs::hash::group_hash_axioms;

/// How long a resubscribe waits, in seconds, when the stream ended while the
/// gateway still reads reachable.
pub const RESUBSCRIBE_DELAY: u64 = 5;

/// Where the subscription loop stands.
#[derive(Clone, Copy, Debug, PartialEq, Eq, Structural)]
pub enum Phase {
    /// The gateway reads unreachable: wait for it, or for a replacement.
    Idle,
    /// A subscription is being opened.
    Connecting,
    /// Events are being imported.
    Streaming,
    /// Wait out the resubscribe delay.
    Delaying,
    /// The loop has ended.
    Stopped,
}

/// What happens to the loop.
#[derive(Clone, Copy, Debug, PartialEq, Eq, Structural)]
pub enum Event {
    /// The stop signal.
    Stop,
    /// Reachability was published anew.
    HealthChanged,
    /// Reachability will not be published any more.
    HealthGone,
    /// A replacement of the gateway was published.
    Rebound,
    /// No replacement can be published any more.
    BindingGone,
    /// The subscription is open.
    Connected,
    /// The subscription could not be opened.
    ConnectFailed,
    /// The stream ended.
    StreamEnded,
    /// The resubscribe delay has passed.
    DelayElapsed,
}

/// What to do with a progress event.
#[derive(Clone, Copy, Debug, PartialEq, Eq, Structural)]
pub enum Import {
    /// Attach an import for the operation and apply the event to it.
    Attach,
    /// Apply the event to the operation's import.
    Apply,
    /// Detach the operation's import.
    Detach,
    /// There is nothing to do.
    Ignore,
}

/// The subscription loop.
#[derive(Debug)]
pub struct SubscriberLoop {
    phase: Phase,
    imports: HashSet<u64>,
}

/// [`SubscriberLoop`] over plain values.
pub struct LoopModel {
    /// Where the loop stands.
    pub phase: Phase,
    /// The operations that have an import.
    pub imports: Set<u64>,
}

/// Where the loop goes at its top.
pub open spec fn at_top(reachable: bool) -> Phase {
    if reachable {
        Phase::Connecting
    } else {
        Phase::Idle
    }
}

/// Where the loop goes when its stream has ended.
pub open spec fn after_stream(reachable: bool) -> Phase {
    if reachable {
        Phase::Delaying
    } else {
        Phase::Idle
    }
}

/// Where an event takes the loop, given the reachability that reads now.
pub open spec fn phase_after(phase: Phase, event: Event, reachable: bool) -> Phase {
    match (phase, event) {
        (Phase::Stopped, _) => Phase::Stopped,
        (_, Event::Stop) => Phase::Stopped,
        (_, Event::BindingGone) => Phase::Stopped,
        (Phase::Idle, Event::HealthGone) => Phase::Stopped,
        (_, Event::Rebound) => at_top(reachable),
        (Phase::Streaming, Event::HealthChanged) => after_stream(reachable),
        (Phase::Streaming, Event::HealthGone) => after_stream(reachable),
        (Phase::Streaming, Event::StreamEnded) => after_stream(reachable),
        (_, Event::HealthChanged) => at_top(reachable),
        (_, Event::HealthGone) => at_top(reachable),
        (Phase::Connecting, Event::Connected) => Phase::Streaming,
        (Phase::Connecting, Event::ConnectFailed) => Phase::Delaying,
        (Phase::Delaying, Event::DelayElapsed) => at_top(reachable),
        _ => phase,
    }
}

/// The imports after an event: they live no longer than the stream.
pub open spec fn imports_after(m: LoopModel, event: Event, reachable: bool) -> Set<u64> {
    if m.phase == Phase::Streaming && phase_after(m.phase, event, reachable) == Phase::Streaming {
        m.imports
    } else {
        Set::empty()
    }
}

/// What a progress event for `operation` asks for.
pub open spec fn import_for(m: LoopModel, operation: u64, operation_finished: bool) -> Import {
    if m.phase != Phase::Streaming {
        Import::Ignore
    } else if operation_finished {
        if m.imports.contains(operation) {
            Import::Detach
        } else {
            Import::Ignore
        }
    } else if m.imports.contains(operation) {
        Import::Apply
    } else {
        Import::Attach
    }
}

/// The imports after a progress event for `operation`.
pub open spec fn imports_with(m: LoopModel, operation: u64, operation_finished: bool) -> Set<u64> {
    match import_for(m, operation, operation_finished) {
        Import::Attach => m.imports.insert(operation),
        Import::Detach => m.imports.remove(operation),
        _ => m.imports,
    }
}

impl View for SubscriberLoop {
    type V = LoopModel;

    closed spec fn view(&self) -> LoopModel {
        LoopModel { phase: self.phase, imports: self.imports@ }
    }
}

impl SubscriberLoop {
    /// Imports live no longer than the stream.
    #[verifier::type_invariant]
    spec fn well_formed(self) -> bool {
        self.phase != Phase::Streaming ==> self.imports@ == Set::<u64>::empty()
    }

    /// A loop at its top.
    pub fn new(reachable: bool) -> (state: SubscriberLoop)
        ensures
            state@.phase == at_top(reachable),
            state@.imports == Set::<u64>::empty(),
    {
        SubscriberLoop {
            phase: if reachable {
                Phase::Connecting
            } else {
                Phase::Idle
            },
            imports: HashSet::new(),
        }
    }

    /// Where the loop stands.
    pub fn phase(&self) -> (phase: Phase)
        ensures
            phase == self@.phase,
    {
        self.phase
    }

    /// Takes the loop on by one event, given the reachability that reads now.
    /// The stop signal wins in every phase.
    pub fn on_event(&mut self, event: Event, reachable: bool)
        ensures
            final(self)@.phase == phase_after(old(self)@.phase, event, reachable),
            final(self)@.imports == imports_after(old(self)@, event, reachable),
    {
        proof {
            use_type_invariant(&*self);
        }
        let top = if reachable {
            Phase::Connecting
        } else {
            Phase::Idle
        };
        let ended = if reachable {
            Phase::Delaying
        } else {
            Phase::Idle
        };
        let next = match (self.phase, event) {
            (Phase::Stopped, _) => Phase::Stopped,
            (_, Event::Stop) => Phase::Stopped,
            (_, Event::BindingGone) => Phase::Stopped,
            (Phase::Idle, Event::HealthGone) => Phase::Stopped,
            (_, Event::Rebound) => top,
            (Phase::Streaming, Event::HealthChanged) => ended,
            (Phase::Streaming, Event::HealthGone) => ended,
            (Phase::Streaming, Event::StreamEnded) => ended,
            (_, Event::HealthChanged) => top,
            (_, Event::HealthGone) => top,
            (Phase::Connecting, Event::Connected) => Phase::Streaming,
            (Phase::Connecting, Event::ConnectFailed) => Phase::Delaying,
            (Phase::Delaying, Event::DelayElapsed) => top,
            (phase, _) => phase,
        };
        if self.phase == Phase::Streaming && next == Phase::Streaming {
        } else {
            *self = SubscriberLoop { phase: next, imports: HashSet::new() };
        }
    }

    /// Takes in one progress event: the first event of an operation attaches
    /// an import, later ones apply to it, and the operation's own terminal
    /// event detaches that import alone.
    pub fn on_progress(&mut self, operation: u64, operation_finished: bool) -> (import: Import)
        ensures
            import == import_for(old(self)@, operation, operation_finished),
            final(self)@.phase == old(self)@.phase,
            final(self)@.imports == imports_with(old(self)@, operation, operation_finished),
    {
        proof {
            use_type_invariant(&*self);
        }
        if self.phase != Phase::Streaming {
            return Import::Ignore;
        }
        if self.imports.contains(&operation) {
            if !operation_finished {
                return Import::Apply;
            }
            let mut imports: HashSet<u64> = HashSet::new();
            std::mem::swap(&mut imports, &mut self.imports);
            imports.remove(&operation);
            self.imports = imports;
            Import::Detach
        } else {
            if operation_finished {
                return Import::Ignore;
            }
            let mut imports: HashSet<u64> = HashSet::new();
            std::mem::swap(&mut imports, &mut self.imports);
            imports.insert(operation);
            self.imports = imports;
            Import::Attach
        }
    }
}

/// The stop signal wins in every phase, and a stopped loop stays stopped and
/// holds no import.
pub proof fn law_stop_wins(m: LoopModel, event: Event, reachable: bool)
    ensures
        phase_after(m.phase, Event::Stop, reachable) == Phase::Stopped,
        imports_after(m, Event::Stop, reachable) == Set::<u64>::empty(),
        phase_after(Phase::Stopped, event, reachable) == Phase::Stopped,
{
}

/// While the gateway reads unreachable no event opens a subscription, and one
/// that was open is dropped with its imports as soon as the verdict changes.
pub proof fn law_unreachable_holds_nothing(m: LoopModel, event: Event)
    ensures
        m.phase != Phase::Connecting ==> phase_after(m.phase, event, false) != Phase::Connecting,
        m.phase == Phase::Streaming ==> phase_after(m.phase, Event::HealthChanged, false)
            == Phase::Idle && imports_after(m, Event::HealthChanged, false) == Set::<u64>::empty(),
{
}

/// A stream that ends while the gateway reads reachable is reopened only after
/// the delay, and with no import left over; a replaced gateway is subscribed
/// to at once.
pub proof fn law_resubscribes_fresh(m: LoopModel)
    requires
        m.phase == Phase::Streaming,
    ensures
        phase_after(m.phase, Event::StreamEnded, true) == Phase::Delaying,
        phase_after(Phase::Delaying, Event::DelayElapsed, true) == Phase::Connecting,
        phase_after(m.phase, Event::Rebound, true) == Phase::Connecting,
        imports_after(m, Event::StreamEnded, true) == Set::<u64>::empty(),
        imports_after(m, Event::Rebound, true) == Set::<u64>::empty(),
{
}

/// Interleaved operations stay separate: an event of one operation neither
/// attaches nor detaches the import of another, and an operation's terminal
/// event leaves the stream open.
pub proof fn law_operations_stay_separate(
    m: LoopModel,
    operation: u64,
    operation_finished: bool,
    other: u64,
)
    requires
        other != operation,
    ensures
        imports_with(m, operation, operation_finished).contains(other) == m.imports.contains(other),
        m.phase == Phase::Streaming && operation_finished ==> !imports_with(
            m,
            operation,
            operation_finished,
        ).contains(operation),
        m.phase == Phase::Streaming && !operation_finished ==> imports_with(
            m,
            operation,
            operation_finished,
        ).contains(operation),
{
}

/// The loop ends by the stop signal, or because nothing can be published any
/// more that it waits for, and by nothing else.
pub proof fn law_the_loop_ends_for_a_reason(phase: Phase, event: Event, reachable: bool)
    requires
        phase != Phase::Stopped,
    ensures
        phase_after(phase, event, reachable) == Phase::Stopped <==> {
            ||| event == Event::Stop
            ||| event == Event::BindingGone
            ||| event == Event::HealthGone && phase == Phase::Idle
        },
{
}

/// Events are imported only from a subscription that was opened, and until
/// something ends it: a verdict on the gateway, a replacement, the end of the
/// stream, or the end of the loop.
pub proof fn law_a_stream_is_opened_and_held(phase: Phase, event: Event, reachable: bool)
    ensures
        phase_after(phase, event, reachable) == Phase::Streaming <==> {
            ||| phase == Phase::Connecting && event == Event::Connected
            ||| phase == Phase::Streaming && (event == Event::Connected || event
                == Event::ConnectFailed || event == Event::DelayElapsed)
        },
{
}

/// The delay is waited out only behind a subscription that could not be opened
/// or a stream that ended while the gateway reads reachable, and until it has
/// passed or the gateway's state is published anew.
pub proof fn law_a_delay_follows_a_failure(phase: Phase, event: Event, reachable: bool)
    ensures
        phase_after(phase, event, reachable) == Phase::Delaying <==> {
            ||| phase == Phase::Connecting && event == Event::ConnectFailed
            ||| phase == Phase::Streaming && reachable && (event == Event::StreamEnded || event
                == Event::HealthChanged || event == Event::HealthGone)
            ||| phase == Phase::Delaying && (event == Event::Connected || event
                == Event::ConnectFailed || event == Event::StreamEnded)
        },
        RESUBSCRIBE_DELAY == 5,
{
}

/// What is published anew is acted on at once, outside a stream: a subscription
/// is opened where the gateway reads reachable, and the loop idles where it
/// does not.
pub proof fn law_the_verdict_is_followed(phase: Phase, reachable: bool)
    requires
        phase != Phase::Stopped,
    ensures
        phase_after(phase, Event::Rebound, reachable) == if reachable {
            Phase::Connecting
        } else {
            Phase::Idle
        },
        phase != Phase::Streaming ==> phase_after(phase, Event::HealthChanged, reachable)
            == phase_after(phase, Event::Rebound, reachable),
        phase == Phase::Delaying ==> phase_after(phase, Event::DelayElapsed, reachable)
            == phase_after(phase, Event::Rebound, reachable),
        phase == Phase::Streaming && !reachable ==> phase_after(phase, Event::HealthChanged, false)
            == Phase::Idle && phase_after(phase, Event::StreamEnded, false) == Phase::Idle,
        phase == Phase::Idle ==> phase_after(phase, Event::DelayElapsed, reachable) == Phase::Idle
            && phase_after(phase, Event::StreamEnded, reachable) == Phase::Idle && phase_after(
            phase,
            Event::Connected,
            reachable,
        ) == Phase::Idle && phase_after(phase, Event::ConnectFailed, reachable) == Phase::Idle,
{
}

/// Imports live as long as their stream: while it is held every import stays,
/// and when it is not none does.
pub proof fn law_imports_live_with_the_stream(m: LoopModel, event: Event, reachable: bool, operation: u64)
    requires
        m.phase == Phase::Streaming,
    ensures
        imports_after(m, event, reachable).contains(operation) == (m.imports.contains(operation)
            && phase_after(m.phase, event, reachable) == Phase::Streaming),
{
}

/// An operation's import is attached by its first event, applied to by each
/// later one, and detached by its end, behind which a new event attaches anew.
pub proof fn law_an_operation_is_attached_once(m: LoopModel, operation: u64)
    requires
        m.phase == Phase::Streaming,
        !m.imports.contains(operation),
    ensures
        import_for(m, operation, false) == Import::Attach,
        import_for(m, operation, true) == Import::Ignore,
        ({
            let attached = LoopModel { imports: imports_with(m, operation, false), ..m };
            let gone = LoopModel { imports: imports_with(attached, operation, true), ..m };
            &&& import_for(attached, operation, false) == Import::Apply
            &&& imports_with(attached, operation, false) == attached.imports
            &&& import_for(attached, operation, true) == Import::Detach
            &&& gone.imports == m.imports
            &&& import_for(gone, operation, false) == Import::Attach
        }),
{
    assert(m.imports.insert(operation).remove(operation) =~= m.imports);
}

} // verus!
