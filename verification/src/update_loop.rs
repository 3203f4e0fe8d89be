//! The update loop: one reload cycle after the other.
//!
//! A cycle waits for a change signal, announces the reload and waits until
//! no subscriber holds it back, takes exclusive access to the coordinator,
//! reloads, and tells the subscribers. The host runs the loop on a thread of
//! its own: it does what an action says, reports what came of it as an
//! event, and gets the next action.

use crate::error::HotReloaderError;
use vstd::prelude::*;

verus! {

/// The delay in milliseconds before exclusive access is tried again.
pub const ACCESS_RETRY_MS: u64 = 1;

/// Where in a cycle the loop stands.
#[derive(Clone, Copy, Debug, PartialEq, Eq, Structural)]
pub enum LoopState {
    Idle,
    WaitingForSignal,
    Announcing,
    AcquiringExclusiveAccess,
    Reloading,
    Done,
}

/// What the host reports.
#[derive(Clone, Copy, Debug, PartialEq)]
pub enum LoopEvent {
    /// The host is ready for the next cycle.
    Started,
    /// A change signal came in.
    Signal,
    /// How many holds on the reload are outstanding.
    Blocks { pending: usize },
    /// Whether the attempt at exclusive access to the coordinator succeeded.
    Access { acquired: bool },
    /// How the coordinator's update ended.
    Updated(Result<bool, HotReloaderError>),
    /// The subscribers were told that the reload is over.
    Notified,
}

/// What the host does next.
#[derive(Clone, Copy, Debug, PartialEq, Eq, Structural)]
pub enum LoopAction {
    /// Report `Started`.
    Continue,
    /// Wait for a change signal and report `Signal`.
    WaitForSignal,
    /// Announce the reload to the subscribers and report the holds as `Blocks`.
    Announce,
    /// Wait until a hold is given up and report the holds as `Blocks`.
    WaitForBlocks,
    /// After `after_ms` milliseconds try, without blocking, to get exclusive
    /// access to the coordinator, and report `Access`.
    TryAccess { after_ms: u64 },
    /// Run the coordinator's update to its end and report `Updated`.
    Update,
    /// Tell the subscribers that the reload is over and report `Notified`.
    SendReloaded,
    /// The cycle failed with this error. Make it known and report `Started`.
    Failed(HotReloaderError),
    /// The event was not awaited and nothing changed. Go on as before.
    Ignored,
}

/// The loop as a plain value.
pub struct LoopView {
    /// Where in a cycle the loop stands.
    pub state: LoopState,
    /// How many updates have reloaded.
    pub version: nat,
    /// Whether a reload has succeeded since the flag was last taken.
    pub was_updated: bool,
}

/// The version after one more successful reload. It never decreases: at
/// `usize::MAX` it stays.
pub open spec fn next_version(version: nat) -> nat {
    if version < usize::MAX {
        version + 1
    } else {
        version
    }
}

impl LoopView {
    /// A loop before its first cycle.
    pub open spec fn initial() -> LoopView {
        LoopView { state: LoopState::Idle, version: 0, was_updated: false }
    }

    /// The loop in another state.
    pub open spec fn moved(self, state: LoopState) -> LoopView {
        LoopView { state, ..self }
    }

    /// The loop after a reload has succeeded.
    pub open spec fn reloaded(self) -> LoopView {
        LoopView {
            state: LoopState::Done,
            version: next_version(self.version),
            was_updated: true,
        }
    }

    /// The loop after the flag was read.
    pub open spec fn flag_taken(self) -> LoopView {
        LoopView { was_updated: false, ..self }
    }

    /// The transition relation of the loop, as a function.
    ///
    /// A cycle begins with a change signal, announces the reload, and waits
    /// while holds on it are outstanding. Then it tries for exclusive access
    /// until it has it, and runs the update. An update that reloaded
    /// (`Ok(true)`) moves the version and sets the flag, and the subscribers
    /// are told. One that found nothing pending (`Ok(false)`) ends the cycle
    /// with version and flag as they were, and nobody is told. One that found
    /// the coordinator in use goes back to trying for access; any other error
    /// ends the cycle, with version and flag as they were, and the loop goes
    /// on with the next. An event that the state does not await changes
    /// nothing.
    pub open spec fn step(self, event: LoopEvent) -> (LoopView, LoopAction) {
        match (self.state, event) {
            (LoopState::Idle, LoopEvent::Started) => (
                self.moved(LoopState::WaitingForSignal),
                LoopAction::WaitForSignal,
            ),
            (LoopState::WaitingForSignal, LoopEvent::Signal) => (
                self.moved(LoopState::Announcing),
                LoopAction::Announce,
            ),
            (LoopState::Announcing, LoopEvent::Blocks { pending }) => {
                if pending == 0 {
                    (
                        self.moved(LoopState::AcquiringExclusiveAccess),
                        LoopAction::TryAccess { after_ms: 0 },
                    )
                } else {
                    (self, LoopAction::WaitForBlocks)
                }
            },
            (LoopState::AcquiringExclusiveAccess, LoopEvent::Access { acquired }) => {
                if acquired {
                    (self.moved(LoopState::Reloading), LoopAction::Update)
                } else {
                    (self, LoopAction::TryAccess { after_ms: ACCESS_RETRY_MS })
                }
            },
            (LoopState::Reloading, LoopEvent::Updated(outcome)) => {
                match outcome {
                    Ok(true) => (self.reloaded(), LoopAction::SendReloaded),
                    Ok(false) => (self.moved(LoopState::Idle), LoopAction::Continue),
                    Err(HotReloaderError::LockContention) => (
                        self.moved(LoopState::AcquiringExclusiveAccess),
                        LoopAction::TryAccess { after_ms: ACCESS_RETRY_MS },
                    ),
                    Err(e) => (self.moved(LoopState::Idle), LoopAction::Failed(e)),
                }
            },
            (LoopState::Done, LoopEvent::Notified) => (
                self.moved(LoopState::Idle),
                LoopAction::Continue,
            ),
            _ => (self, LoopAction::Ignored),
        }
    }
}

/// The loop that drives the reload cycles of one library, with the count of
/// successful reloads and the flag that one has happened.
pub struct UpdateLoop {
    state: LoopState,
    version: usize,
    was_updated: bool,
}

impl View for UpdateLoop {
    type V = LoopView;

    closed spec fn view(&self) -> LoopView {
        LoopView { state: self.state, version: self.version as nat, was_updated: self.was_updated }
    }
}

impl UpdateLoop {
    /// A loop before its first cycle, at version 0.
    pub fn new() -> (made: Self)
        ensures
            made@ == LoopView::initial(),
    {
        UpdateLoop { state: LoopState::Idle, version: 0, was_updated: false }
    }

    /// Takes one event and says what the host does next.
    pub fn step(&mut self, event: LoopEvent) -> (action: LoopAction)
        ensures
            (final(self)@, action) == old(self)@.step(event),
    {
        match (self.state, event) {
            (LoopState::Idle, LoopEvent::Started) => {
                self.state = LoopState::WaitingForSignal;
                LoopAction::WaitForSignal
            },
            (LoopState::WaitingForSignal, LoopEvent::Signal) => {
                self.state = LoopState::Announcing;
                LoopAction::Announce
            },
            (LoopState::Announcing, LoopEvent::Blocks { pending }) => {
                if pending == 0 {
                    self.state = LoopState::AcquiringExclusiveAccess;
                    LoopAction::TryAccess { after_ms: 0 }
                } else {
                    LoopAction::WaitForBlocks
                }
            },
            (LoopState::AcquiringExclusiveAccess, LoopEvent::Access { acquired }) => {
                if acquired {
                    self.state = LoopState::Reloading;
                    LoopAction::Update
                } else {
                    LoopAction::TryAccess { after_ms: ACCESS_RETRY_MS }
                }
            },
            (LoopState::Reloading, LoopEvent::Updated(outcome)) => {
                match outcome {
                    Ok(false) => {
                        self.state = LoopState::Idle;
                        LoopAction::Continue
                    },
                    Ok(true) => {
                        self.state = LoopState::Done;
                        if self.version < usize::MAX {
                            self.version = self.version + 1;
                        }
                        self.was_updated = true;
                        LoopAction::SendReloaded
                    },
                    Err(HotReloaderError::LockContention) => {
                        self.state = LoopState::AcquiringExclusiveAccess;
                        LoopAction::TryAccess { after_ms: ACCESS_RETRY_MS }
                    },
                    Err(e) => {
                        self.state = LoopState::Idle;
                        LoopAction::Failed(e)
                    },
                }
            },
            (LoopState::Done, LoopEvent::Notified) => {
                self.state = LoopState::Idle;
                LoopAction::Continue
            },
            _ => LoopAction::Ignored,
        }
    }

    /// Where in a cycle the loop stands.
    pub fn state(&self) -> (state: LoopState)
        ensures
            state == self@.state,
    {
        self.state
    }

    /// How many reloads have succeeded.
    pub fn version(&self) -> (version: usize)
        ensures
            version == self@.version,
    {
        self.version
    }

    /// Whether a reload has succeeded since this was last asked. Asking
    /// resets the flag.
    pub fn was_updated(&mut self) -> (updated: bool)
        ensures
            updated == old(self)@.was_updated,
            final(self)@ == old(self)@.flag_taken(),
    {
        let updated = self.was_updated;
        self.was_updated = false;
        updated
    }
}

/// The loop after the events `events`, in their order.
pub open spec fn loop_run(start: LoopView, events: Seq<LoopEvent>) -> LoopView
    decreases events.len(),
{
    if events.len() == 0 {
        start
    } else {
        loop_run(start, events.drop_last()).step(events.last()).0
    }
}

/// The events of one cycle in which nobody holds the reload back, access
/// is had at once, and the update ends with `outcome`.
pub open spec fn cycle_events(outcome: Result<bool, HotReloaderError>) -> Seq<LoopEvent> {
    seq![
        LoopEvent::Started,
        LoopEvent::Signal,
        LoopEvent::Blocks { pending: 0 },
        LoopEvent::Access { acquired: true },
        LoopEvent::Updated(outcome),
        LoopEvent::Notified,
    ]
}

/// The loop after `n` cycles whose updates all succeeded.
pub open spec fn after_cycles(start: LoopView, n: nat) -> LoopView
    decreases n,
{
    if n == 0 {
        start
    } else {
        loop_run(after_cycles(start, (n - 1) as nat), cycle_events(Ok(true)))
    }
}

/// One cycle whose update reloaded takes an idle loop back to idle, moves
/// the version by one and sets the flag.
pub proof fn law_cycle_counts_once(start: LoopView)
    requires
        start.state == LoopState::Idle,
    ensures
        loop_run(start, cycle_events(Ok(true))) == (LoopView {
            state: LoopState::Idle,
            version: next_version(start.version),
            was_updated: true,
        }),
{
    let events = cycle_events(Ok(true));
    let e1 = events.subrange(0, 1);
    let e2 = events.subrange(0, 2);
    let e3 = events.subrange(0, 3);
    let e4 = events.subrange(0, 4);
    let e5 = events.subrange(0, 5);
    assert(e1.drop_last() =~= Seq::<LoopEvent>::empty());
    assert(e2.drop_last() =~= e1);
    assert(e3.drop_last() =~= e2);
    assert(e4.drop_last() =~= e3);
    assert(e5.drop_last() =~= e4);
    assert(events.drop_last() =~= e5);
    assert(loop_run(start, e1.drop_last()) == start);
    assert(loop_run(start, e1).state == LoopState::WaitingForSignal);
    assert(loop_run(start, e2).state == LoopState::Announcing);
    assert(loop_run(start, e3).state == LoopState::AcquiringExclusiveAccess);
    assert(loop_run(start, e4).state == LoopState::Reloading);
    assert(loop_run(start, e5) == start.reloaded());
}

/// After `n` successful cycles the version is the version at the start plus
/// `n`, as long as that fits the counter; and once a cycle has run, the flag
/// is set.
pub proof fn law_version_counts_cycles(start: LoopView, n: nat)
    requires
        start.state == LoopState::Idle,
        start.version + n <= usize::MAX,
    ensures
        after_cycles(start, n).version == start.version + n,
        after_cycles(start, n).state == LoopState::Idle,
        n > 0 ==> after_cycles(start, n).was_updated,
    decreases n,
{
    if n > 0 {
        law_version_counts_cycles(start, (n - 1) as nat);
        law_cycle_counts_once(after_cycles(start, (n - 1) as nat));
    }
}

/// The flag reads `true` once: the read resets it, so a second read at once
/// gives `false`.
pub proof fn law_flag_reads_once(before: LoopView)
    ensures
        before.flag_taken().was_updated == false,
        before.flag_taken().flag_taken() == before.flag_taken(),
        before.flag_taken().version == before.version,
        before.flag_taken().state == before.state,
{
}

/// No event makes the version smaller.
pub proof fn law_version_never_decreases(before: LoopView, event: LoopEvent)
    ensures
        before.step(event).0.version >= before.version,
{
}

/// While a hold is outstanding the loop stays where it is, however often
/// the holds are reported: no reload begins and the version does not move.
pub proof fn law_held_reload_waits(start: LoopView, reports: Seq<LoopEvent>)
    requires
        start.state == LoopState::Announcing,
        forall|i: int|
            0 <= i < reports.len() ==> (#[trigger] reports[i] matches LoopEvent::Blocks {
                pending,
            } && pending > 0),
    ensures
        loop_run(start, reports) == start,
    decreases reports.len(),
{
    if reports.len() > 0 {
        let earlier = reports.drop_last();
        assert forall|i: int| 0 <= i < earlier.len() implies (#[trigger] earlier[i]
            matches LoopEvent::Blocks { pending } && pending > 0) by {
            assert(earlier[i] == reports[i]);
        }
        law_held_reload_waits(start, earlier);
        assert(reports.last() == reports[reports.len() - 1]);
    }
}

/// The update is begun by one transition only: from waiting for exclusive
/// access, when access is had. So a reload never begins while a hold of its
/// cycle is outstanding, and a cycle begins one reload.
pub proof fn law_update_follows_access(before: LoopView, event: LoopEvent)
    ensures
        before.step(event).1 == LoopAction::Update <==> (before.state
            == LoopState::AcquiringExclusiveAccess && event matches LoopEvent::Access {
            acquired: true,
        }),
        before.step(event).0.state == LoopState::AcquiringExclusiveAccess && before.state
            == LoopState::Announcing ==> event matches LoopEvent::Blocks { pending: 0 },
        before.step(event).0.state == LoopState::Reloading ==> before.state
            == LoopState::Reloading || before.step(event).1 == LoopAction::Update,
{
}

/// The events of a cycle go out in order. A reload is announced only when
/// a change signal has come in, so no cycle is announced while an earlier
/// one is under way; and the subscribers are told of a reload only by the
/// transition that has moved the version and set the flag.
pub proof fn law_events_are_ordered(before: LoopView, event: LoopEvent)
    ensures
        before.step(event).1 == LoopAction::Announce <==> (before.state
            == LoopState::WaitingForSignal && event is Signal),
        before.step(event).1 == LoopAction::SendReloaded <==> (before.state == LoopState::Reloading
            && event matches LoopEvent::Updated(Ok(true))),
        before.step(event).1 == LoopAction::SendReloaded ==> before.step(event).0
            == before.reloaded(),
        before.step(event).0.version != before.version ==> before.step(event).1
            == LoopAction::SendReloaded,
{
}

/// Only a reload counts. No event but the end of an update that reloaded
/// moves the version or sets the flag: an update that found nothing
/// pending, or that failed, adds nothing.
pub proof fn law_only_a_reload_counts(before: LoopView, event: LoopEvent)
    requires
        !(before.state == LoopState::Reloading && event matches LoopEvent::Updated(Ok(true))),
    ensures
        before.step(event).0.version == before.version,
        before.step(event).0.was_updated == before.was_updated,
        before.step(event).1 != LoopAction::SendReloaded,
{
}

/// A cycle whose update found nothing pending, or failed, takes an idle
/// loop back to idle with the version and the flag as they were.
pub proof fn law_cycle_without_reload_counts_nothing(
    start: LoopView,
    outcome: Result<bool, HotReloaderError>,
)
    requires
        start.state == LoopState::Idle,
        outcome != Ok::<bool, HotReloaderError>(true),
        outcome != Err::<bool, HotReloaderError>(HotReloaderError::LockContention),
    ensures
        loop_run(start, cycle_events(outcome)) == start,
{
    let events = cycle_events(outcome);
    let e1 = events.subrange(0, 1);
    let e2 = events.subrange(0, 2);
    let e3 = events.subrange(0, 3);
    let e4 = events.subrange(0, 4);
    let e5 = events.subrange(0, 5);
    assert(e1.drop_last() =~= Seq::<LoopEvent>::empty());
    assert(e2.drop_last() =~= e1);
    assert(e3.drop_last() =~= e2);
    assert(e4.drop_last() =~= e3);
    assert(e5.drop_last() =~= e4);
    assert(events.drop_last() =~= e5);
    assert(loop_run(start, e1.drop_last()) == start);
    assert(loop_run(start, e1).state == LoopState::WaitingForSignal);
    assert(loop_run(start, e2).state == LoopState::Announcing);
    assert(loop_run(start, e3).state == LoopState::AcquiringExclusiveAccess);
    assert(loop_run(start, e4) == start.moved(LoopState::Reloading));
    assert(loop_run(start, e5) == start);
}

/// One signal, one reload. From the announcement on, with no hold left, the
/// loop asks in turn for access, for the update, for the word to the
/// subscribers, and goes back to waiting for a signal: it asks for one
/// update and one broadcast, the version has moved by one, and until the
/// next signal comes in nothing more happens.
pub proof fn law_one_reload_per_signal(announcing: LoopView, later: LoopEvent)
    requires
        announcing.state == LoopState::Announcing,
        !(later is Signal),
    ensures
        announcing.step(LoopEvent::Blocks { pending: 0 }) == (
            announcing.moved(LoopState::AcquiringExclusiveAccess),
            LoopAction::TryAccess { after_ms: 0 },
        ),
        announcing.moved(LoopState::AcquiringExclusiveAccess).step(
            LoopEvent::Access { acquired: true },
        ) == (announcing.moved(LoopState::Reloading), LoopAction::Update),
        announcing.moved(LoopState::Reloading).step(LoopEvent::Updated(Ok(true))) == (
            announcing.reloaded(),
            LoopAction::SendReloaded,
        ),
        announcing.reloaded().step(LoopEvent::Notified) == (
            announcing.reloaded().moved(LoopState::Idle),
            LoopAction::Continue,
        ),
        announcing.reloaded().moved(LoopState::Idle).step(LoopEvent::Started) == (
            announcing.reloaded().moved(LoopState::WaitingForSignal),
            LoopAction::WaitForSignal,
        ),
        announcing.reloaded().moved(LoopState::WaitingForSignal).step(later) == (
            announcing.reloaded().moved(LoopState::WaitingForSignal),
            LoopAction::Ignored,
        ),
        announcing.reloaded().version == next_version(announcing.version),
        announcing.version < usize::MAX ==> announcing.reloaded().version == announcing.version
            + 1,
{
}

} // verus!
