//! The change watcher: what a batch of file-system events means for the
//! watch on the artifact.
//!
//! The host owns the native watch and the debouncing. It reports each
//! coalesced batch, and each attempt to register the watch again, as an
//! event; the watcher answers with the next thing to do.

use vstd::prelude::*;

verus! {

/// The debounce window and the delay between two attempts to arm again, in
/// milliseconds, where the host names none.
pub const DEFAULT_DELAY_MS: u64 = 500;

/// The kind of one file-system event, as far as the watcher tells kinds apart.
#[derive(Clone, Copy, Debug, PartialEq, Eq, Structural)]
pub enum FsEventKind {
    Create,
    Modify,
    Remove,
    Other,
}

/// Whether the watch is in place.
#[derive(Clone, Copy, Debug, PartialEq, Eq, Structural)]
pub enum WatcherState {
    /// The native watch is registered.
    Armed,
    /// The artifact went away: the watch has to be registered again.
    PendingRearm,
    /// The watcher was told to stop.
    Stopped,
}

/// What the host reports.
pub enum WatcherEvent {
    /// One coalesced batch of events, and whether the artifact exists now.
    Batch { kinds: Vec<FsEventKind>, path_exists: bool },
    /// The debouncer handed out errors in place of events.
    Errors,
    /// An attempt to register the watch again: whether the artifact exists,
    /// and whether the registration went through.
    RearmAttempt { path_exists: bool, registered: bool },
    /// The host asks the watcher to stop, or its event source is gone.
    Stop,
}

/// What the host does next.
#[derive(Clone, Copy, Debug, PartialEq, Eq, Structural)]
pub enum WatcherAction {
    /// Wait for the next batch.
    Listen,
    /// Wait `after_ms` milliseconds, try to register the watch, and report
    /// the attempt.
    Rearm { after_ms: u64 },
    /// Read the artifact and offer its fingerprint as a change.
    CheckContent,
    /// Leave the event loop.
    Halt,
}

/// A batch that holds removals and nothing else.
pub open spec fn only_removals(kinds: Seq<FsEventKind>) -> bool {
    &&& kinds.len() > 0
    &&& forall|i: int| 0 <= i < kinds.len() ==> kinds[i] == FsEventKind::Remove
}

/// Whether a batch says that the artifact is gone.
pub open spec fn artifact_gone(kinds: Seq<FsEventKind>, path_exists: bool) -> bool {
    only_removals(kinds) || !path_exists
}

/// The transition relation of the watcher, as a function.
pub open spec fn watcher_step(state: WatcherState, event: WatcherEvent, rearm_delay_ms: u64) -> (
    WatcherState,
    WatcherAction,
) {
    match (state, event) {
        (WatcherState::Stopped, _) => (WatcherState::Stopped, WatcherAction::Halt),
        (_, WatcherEvent::Stop) => (WatcherState::Stopped, WatcherAction::Halt),
        (WatcherState::Armed, WatcherEvent::Batch { kinds, path_exists }) => {
            if artifact_gone(kinds@, path_exists) {
                (WatcherState::PendingRearm, WatcherAction::Rearm { after_ms: 0 })
            } else {
                (WatcherState::Armed, WatcherAction::CheckContent)
            }
        },
        (WatcherState::Armed, _) => (WatcherState::Armed, WatcherAction::Listen),
        (WatcherState::PendingRearm, WatcherEvent::RearmAttempt { path_exists, registered }) => {
            if path_exists && registered {
                (WatcherState::Armed, WatcherAction::CheckContent)
            } else {
                (WatcherState::PendingRearm, WatcherAction::Rearm { after_ms: rearm_delay_ms })
            }
        },
        (WatcherState::PendingRearm, _) => (
            WatcherState::PendingRearm,
            WatcherAction::Rearm { after_ms: rearm_delay_ms },
        ),
    }
}

/// Tests whether a batch holds removals and nothing else.
pub fn was_removed(kinds: &Vec<FsEventKind>) -> (removed: bool)
    ensures
        removed == only_removals(kinds@),
{
    if kinds.len() == 0 {
        return false;
    }
    let mut i: usize = 0;
    while i < kinds.len()
        invariant
            i <= kinds.len(),
            forall|j: int| 0 <= j < i ==> kinds@[j] == FsEventKind::Remove,
        decreases kinds.len() - i,
    {
        match kinds[i] {
            FsEventKind::Remove => {},
            _ => {
                return false;
            },
        }
        i = i + 1;
    }
    true
}

/// The watcher of one artifact.
pub struct ChangeWatcher {
    state: WatcherState,
    debounce_ms: u64,
    rearm_delay_ms: u64,
}

impl ChangeWatcher {
    /// Where the watcher stands.
    pub closed spec fn state(&self) -> WatcherState {
        self.state
    }

    /// The window over which the host coalesces raw events.
    pub closed spec fn debounce(&self) -> u64 {
        self.debounce_ms
    }

    /// The delay between two attempts to arm again.
    pub closed spec fn rearm_delay(&self) -> u64 {
        self.rearm_delay_ms
    }

    /// A watcher whose watch the host has just registered. Without a debounce
    /// window of the host's own, the default holds.
    pub fn new(file_watch_debounce: Option<u64>) -> (watcher: Self)
        ensures
            watcher.state() == WatcherState::Armed,
            watcher.debounce() == match file_watch_debounce {
                Some(ms) => ms,
                None => DEFAULT_DELAY_MS,
            },
            watcher.rearm_delay() == DEFAULT_DELAY_MS,
    {
        let debounce_ms = match file_watch_debounce {
            Some(ms) => ms,
            None => DEFAULT_DELAY_MS,
        };
        ChangeWatcher { state: WatcherState::Armed, debounce_ms, rearm_delay_ms: DEFAULT_DELAY_MS }
    }

    /// Where the watcher stands.
    pub fn current_state(&self) -> (state: WatcherState)
        ensures
            state == self.state(),
    {
        self.state
    }

    /// The debounce window in milliseconds.
    pub fn debounce_ms(&self) -> (ms: u64)
        ensures
            ms == self.debounce(),
    {
        self.debounce_ms
    }

    /// Takes one event and says what the host does next.
    pub fn on_event(&mut self, event: WatcherEvent) -> (action: WatcherAction)
        ensures
            (final(self).state(), action) == watcher_step(
                old(self).state(),
                event,
                old(self).rearm_delay(),
            ),
            final(self).debounce() == old(self).debounce(),
            final(self).rearm_delay() == old(self).rearm_delay(),
    {
        let delay = self.rearm_delay_ms;
        match self.state {
            WatcherState::Stopped => WatcherAction::Halt,
            WatcherState::Armed => match event {
                WatcherEvent::Stop => {
                    self.state = WatcherState::Stopped;
                    WatcherAction::Halt
                },
                WatcherEvent::Batch { kinds, path_exists } => {
                    if was_removed(&kinds) || !path_exists {
                        self.state = WatcherState::PendingRearm;
                        WatcherAction::Rearm { after_ms: 0 }
                    } else {
                        WatcherAction::CheckContent
                    }
                },
                _ => WatcherAction::Listen,
            },
            WatcherState::PendingRearm => match event {
                WatcherEvent::Stop => {
                    self.state = WatcherState::Stopped;
                    WatcherAction::Halt
                },
                WatcherEvent::RearmAttempt { path_exists, registered } => {
                    if path_exists && registered {
                        self.state = WatcherState::Armed;
                        WatcherAction::CheckContent
                    } else {
                        WatcherAction::Rearm { after_ms: delay }
                    }
                },
                _ => WatcherAction::Rearm { after_ms: delay },
            },
        }
    }
}

/// A batch that says that the artifact is gone takes the watch down, and
/// the watcher tries to arm again until the artifact is there and the
/// watch registers. Only then is the content checked, once.
pub proof fn law_watch_is_armed_again(
    kinds: Vec<FsEventKind>,
    path_exists: bool,
    attempt_exists: bool,
    attempt_registered: bool,
    delay: u64,
)
    requires
        artifact_gone(kinds@, path_exists),
    ensures
        watcher_step(WatcherState::Armed, WatcherEvent::Batch { kinds, path_exists }, delay) == (
            WatcherState::PendingRearm,
            WatcherAction::Rearm { after_ms: 0 },
        ),
        watcher_step(
            WatcherState::PendingRearm,
            WatcherEvent::RearmAttempt {
                path_exists: attempt_exists,
                registered: attempt_registered,
            },
            delay,
        ) == if attempt_exists && attempt_registered {
            (WatcherState::Armed, WatcherAction::CheckContent)
        } else {
            (WatcherState::PendingRearm, WatcherAction::Rearm { after_ms: delay })
        },
{
}

/// The content is checked only with the watch in place: after a batch that
/// left the artifact there, or after the watch was armed again.
pub proof fn law_content_is_checked_when_armed(
    state: WatcherState,
    event: WatcherEvent,
    delay: u64,
)
    ensures
        watcher_step(state, event, delay).1 == WatcherAction::CheckContent ==> watcher_step(
            state,
            event,
            delay,
        ).0 == WatcherState::Armed,
        watcher_step(state, event, delay).1 == WatcherAction::CheckContent ==> match event {
            WatcherEvent::Batch { kinds, path_exists } => state == WatcherState::Armed
                && !artifact_gone(kinds@, path_exists),
            WatcherEvent::RearmAttempt { path_exists, registered } => state
                == WatcherState::PendingRearm && path_exists && registered,
            _ => false,
        },
{
}

} // verus!
