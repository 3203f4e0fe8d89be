//! What holds across the parts of the reload cycle.

use crate::file_changes::law_signal_is_queued_for_each_listener;
use crate::lib_reload_events::{
    law_event_is_queued_for_each_subscriber, law_reload_waits_for_every_token,
    law_slot_of_is_first, released_times, slot_of, HubView, Notice,
};
use crate::lib_reloader::ReloaderView;
use crate::update_loop::{LoopAction, LoopEvent, LoopState, LoopView};
use crate::watcher::{
    artifact_gone, watcher_step, FsEventKind, WatcherAction, WatcherEvent, WatcherState,
};
use vstd::prelude::*;

verus! {

/// The artifact is deleted and made again with content of another
/// fingerprint. The batch that tells of the deletion takes the watch down;
/// when it is armed again the content is checked; and offering the new
/// content is one signal more for a subscriber that listens, whatever is
/// offered after it, until an update has taken the change up.
pub proof fn law_recreated_artifact_signals_once<H>(
    kinds: Vec<FsEventKind>,
    path_exists: bool,
    delay: u64,
    reloader: ReloaderView<H>,
    recreated: u32,
    later: u32,
    id: nat,
)
    requires
        artifact_gone(kinds@, path_exists),
        recreated != reloader.fingerprint,
        !reloader.changed,
        reloader.settled(),
        reloader.signals.listens(id),
        reloader.signals.waiting(id) < usize::MAX,
    ensures
        watcher_step(WatcherState::Armed, WatcherEvent::Batch { kinds, path_exists }, delay).0
            == WatcherState::PendingRearm,
        watcher_step(
            WatcherState::PendingRearm,
            WatcherEvent::RearmAttempt { path_exists: true, registered: true },
            delay,
        ) == (WatcherState::Armed, WatcherAction::CheckContent),
        reloader.accepts(recreated),
        reloader.offered(recreated).changed,
        reloader.offered(recreated).signals == reloader.signals.signalled(),
        reloader.offered(recreated).offered(later) == reloader.offered(recreated),
        reloader.offered(recreated).signals.waiting(id) == reloader.signals.waiting(id) + 1,
        reloader.offered(recreated).offered(later).signals.waiting(id) == reloader.signals.waiting(
            id,
        ) + 1,
{
    law_signal_is_queued_for_each_listener(reloader.signals, id);
}

/// The reload waits for the last token. A reload is announced to a notifier
/// with a subscriber that listens, while the loop stands in the
/// announcement. Then at least one hold is outstanding. As long as fewer
/// tokens of the cycle were given up than were handed out, the notifier is
/// not clear and the loop, told of the holds, stays where it is: it asks
/// for no access and no update. When the last is given up the notifier is
/// clear, and the loop goes on to ask for exclusive access.
pub proof fn law_reload_waits_for_the_last_token(
    hub: HubView,
    id: nat,
    announcing: LoopView,
    given_up: nat,
)
    requires
        hub.well_formed(),
        hub.listens(id),
        announcing.state == LoopState::Announcing,
        given_up <= hub.announced().pending <= usize::MAX,
    ensures
        hub.announced().pending >= 1,
        !hub.announced().clear(),
        ({
            let now = released_times(hub.announced(), hub.announced().cycle, given_up);
            let told = announcing.step(LoopEvent::Blocks { pending: now.pending as usize });
            if given_up < hub.announced().pending {
                &&& !now.clear()
                &&& told == (announcing, LoopAction::WaitForBlocks)
            } else {
                &&& now.clear()
                &&& told == (
                    announcing.moved(LoopState::AcquiringExclusiveAccess),
                    LoopAction::TryAccess { after_ms: 0 },
                )
            }
        }),
{
    law_event_is_queued_for_each_subscriber(hub, Notice::Reloaded, id);
    law_reload_waits_for_every_token(hub.announced(), given_up);
    // The subscriber is still there after the announcement, so a token went out.
    let slot = slot_of(hub.announced().boxes, id);
    assert(hub.announced().queue_of(id).len() > 0);
    assert(0 <= slot < hub.announced().boxes.len()) by {
        law_slot_of_is_first(hub.announced().boxes, id);
    }
}

} // verus!
