use sage_hot_lib::artifact::Platform;
use sage_hot_lib::file_changes::FileChangeReceiver;
use sage_hot_lib::lib_reloader::{ReloadReply, ReloadRequest};
use sage_hot_lib::resolver::Resolved;
use sage_hot_lib::update_loop::{LoopAction, LoopEvent, LoopState, UpdateLoop};
use sage_hot_lib::watcher::{ChangeWatcher, FsEventKind, WatcherAction, WatcherEvent, WatcherState};
use sage_hot_lib::{HotReloaderError, LibReloadNotifier, LibReloadObserver, LibReloader};

/// A file system with the one artifact in it, its private copies, and the
/// handles that are open.
struct Host {
    artifact: Option<Vec<u8>>,
    copies: Vec<(String, Vec<u8>)>,
    opened: Vec<u32>,
    next_handle: u32,
    /// Whether the next attempt to open a copy fails.
    fail_open: bool,
}

impl Host {
    fn new() -> Host {
        Host {
            artifact: None,
            copies: Vec::new(),
            opened: Vec::new(),
            next_handle: 1,
            fail_open: false,
        }
    }

    fn copy_names(&self) -> Vec<&str> {
        self.copies.iter().map(|(name, _)| name.as_str()).collect()
    }

    /// Does what the coordinator asks until the load is over.
    fn serve(
        &mut self,
        reloader: &mut LibReloader<u32>,
        first: ReloadRequest<u32>,
    ) -> Result<bool, HotReloaderError> {
        let mut request = first;
        loop {
            let reply = match request {
                ReloadRequest::Done(outcome) => return outcome,
                ReloadRequest::Unexpected(reply) => panic!("out of turn: {reply:?}"),
                ReloadRequest::CloseAndRemove { handle, loaded_file } => {
                    self.opened.retain(|h| Some(*h) != handle);
                    self.copies.retain(|(name, _)| *name != loaded_file);
                    ReloadReply::Closed { ok: true }
                }
                ReloadRequest::ProbeWatched { watched_file } => {
                    assert_eq!(watched_file, "libfoo.so");
                    ReloadReply::Probed { exists: self.artifact.is_some() }
                }
                ReloadRequest::Copy { from, to } => {
                    assert_eq!(from, "libfoo.so");
                    match &self.artifact {
                        Some(bytes) => {
                            self.copies.push((to, bytes.clone()));
                            ReloadReply::Copied { ok: true }
                        }
                        None => ReloadReply::Copied { ok: false },
                    }
                }
                ReloadRequest::ReadCopy { loaded_file } => ReloadReply::Read {
                    content: self
                        .copies
                        .iter()
                        .find(|(name, _)| *name == loaded_file)
                        .map(|(_, bytes)| bytes.clone()),
                },
                ReloadRequest::Open { loaded_file } => {
                    assert!(self.copies.iter().any(|(name, _)| *name == loaded_file));
                    if self.fail_open {
                        self.fail_open = false;
                        ReloadReply::Opened { handle: None }
                    } else {
                        let handle = self.next_handle;
                        self.next_handle += 1;
                        self.opened.push(handle);
                        ReloadReply::Opened { handle: Some(handle) }
                    }
                }
            };
            request = reloader.resume(reply);
        }
    }
}

/// A new coordinator for `foo` in a directory that was found.
fn made(platform: Platform) -> (LibReloader<u32>, ReloadRequest<u32>) {
    LibReloader::<u32>::new(Ok(Resolved::AsGiven), platform, "foo", 99, None).unwrap()
}

/// Runs the update loop from idle through one cycle. Each of `observers`
/// takes its token and gives it up at once.
fn run_cycle(
    host: &mut Host,
    l: &mut UpdateLoop,
    hub: &mut LibReloadNotifier,
    reloader: &mut LibReloader<u32>,
    rx: &FileChangeReceiver,
    observers: &[&LibReloadObserver],
) -> Result<bool, HotReloaderError> {
    assert_eq!(l.step(LoopEvent::Started), LoopAction::WaitForSignal);
    assert!(reloader.take_file_change(rx));
    assert_eq!(l.step(LoopEvent::Signal), LoopAction::Announce);
    hub.send_about_to_reload_event_and_wait_for_blocks();
    for observer in observers {
        observer.wait_for_about_to_reload(hub).release(hub);
    }
    assert_eq!(
        l.step(LoopEvent::Blocks { pending: hub.blocks_pending() }),
        LoopAction::TryAccess { after_ms: 0 }
    );
    assert_eq!(l.step(LoopEvent::Access { acquired: true }), LoopAction::Update);
    let first = reloader.update();
    let outcome = host.serve(reloader, first);
    match l.step(LoopEvent::Updated(outcome)) {
        LoopAction::SendReloaded => {
            hub.send_reloaded_event();
            assert_eq!(l.step(LoopEvent::Notified), LoopAction::Continue);
        }
        LoopAction::Failed(_) => {}
        other => panic!("unexpected action {other:?}"),
    }
    outcome
}

#[test]
fn artifact_appears_and_is_rebuilt() {
    let mut host = Host::new();
    let mut hub = LibReloadNotifier::new();
    let mut l = UpdateLoop::new();
    let mut watcher = ChangeWatcher::new(None);

    // Constructed over an absent artifact: nothing is loaded.
    let (mut reloader, first) = made(Platform::Linux);
    assert_eq!(host.serve(&mut reloader, first), Ok(true));
    let rx = reloader.subscribe_to_file_changes();
    assert_eq!(reloader.get_symbol(b"f"), Err(HotReloaderError::LibraryNotLoaded));
    assert_eq!(l.version(), 0);

    // The artifact is created: one signal.
    host.artifact = Some(b"first build".to_vec());
    let action = watcher.on_event(WatcherEvent::Batch {
        kinds: vec![FsEventKind::Create, FsEventKind::Modify],
        path_exists: true,
    });
    assert_eq!(action, WatcherAction::CheckContent);
    assert!(reloader.file_changed(&host.artifact));
    assert_eq!(reloader.file_changes_waiting(&rx), 1);
    // Later events on the same bytes signal nothing more.
    let action = watcher
        .on_event(WatcherEvent::Batch { kinds: vec![FsEventKind::Modify], path_exists: true });
    assert_eq!(action, WatcherAction::CheckContent);
    assert!(!reloader.file_changed(&host.artifact));
    assert_eq!(reloader.file_changes_waiting(&rx), 1);

    assert_eq!(run_cycle(&mut host, &mut l, &mut hub, &mut reloader, &rx, &[]), Ok(true));
    assert_eq!(l.version(), 1);
    assert!(l.was_updated());
    assert!(!l.was_updated());
    assert_eq!(host.copy_names(), vec!["foo-hot-1.so"]);
    assert_eq!(host.opened, vec![1]);
    assert_eq!(reloader.get_symbol(b"f"), Ok(&1));

    // The reload's own copy, and the unchanged artifact, are no change.
    assert!(!reloader.file_changed(&host.artifact));
    assert_eq!(reloader.file_changes_waiting(&rx), 0);

    // The artifact is overwritten with other bytes.
    host.artifact = Some(b"second build".to_vec());
    watcher.on_event(WatcherEvent::Batch { kinds: vec![FsEventKind::Modify], path_exists: true });
    assert!(reloader.file_changed(&host.artifact));
    assert_eq!(run_cycle(&mut host, &mut l, &mut hub, &mut reloader, &rx, &[]), Ok(true));
    assert_eq!(l.version(), 2);
    assert!(l.was_updated());
    // The earlier private copy is gone, and so is its handle.
    assert_eq!(host.copy_names(), vec!["foo-hot-2.so"]);
    assert_eq!(host.opened, vec![2]);
    assert_eq!(reloader.get_symbol(b"f"), Ok(&2));

    // Teardown closes the handle and deletes the current copy.
    assert_eq!(reloader.teardown(), (Some(2), Some(String::from("foo-hot-2.so"))));
}

#[test]
fn unreleased_token_holds_the_reload_back() {
    let mut host = Host::new();
    host.artifact = Some(b"one".to_vec());
    let mut hub = LibReloadNotifier::new();
    let mut l = UpdateLoop::new();
    let (mut reloader, first) = made(Platform::Linux);
    assert_eq!(host.serve(&mut reloader, first), Ok(true));
    let rx = reloader.subscribe_to_file_changes();
    let observer = hub.subscribe();
    let bystander = hub.subscribe();

    host.artifact = Some(b"two".to_vec());
    assert!(reloader.file_changed(&host.artifact));
    l.step(LoopEvent::Started);
    assert!(reloader.take_file_change(&rx));
    assert_eq!(l.step(LoopEvent::Signal), LoopAction::Announce);
    assert!(!hub.send_about_to_reload_event_and_wait_for_blocks());

    let token = observer.wait_for_about_to_reload(&mut hub);
    let clone = token.duplicate(&mut hub);
    // The old version stays loaded while anyone holds a token.
    for _ in 0..10 {
        assert_eq!(
            l.step(LoopEvent::Blocks { pending: hub.blocks_pending() }),
            LoopAction::WaitForBlocks
        );
        assert_eq!(l.state(), LoopState::Announcing);
        assert_eq!(reloader.get_symbol(b"f"), Ok(&1));
        assert_eq!(l.version(), 0);
    }
    token.release(&mut hub);
    assert_eq!(
        l.step(LoopEvent::Blocks { pending: hub.blocks_pending() }),
        LoopAction::WaitForBlocks
    );
    clone.release(&mut hub);
    assert_eq!(
        l.step(LoopEvent::Blocks { pending: hub.blocks_pending() }),
        LoopAction::WaitForBlocks
    );
    bystander.wait_for_about_to_reload(&mut hub).release(&mut hub);
    assert!(hub.blocks_clear());

    // Now one reload proceeds.
    assert_eq!(
        l.step(LoopEvent::Blocks { pending: hub.blocks_pending() }),
        LoopAction::TryAccess { after_ms: 0 }
    );
    assert_eq!(l.step(LoopEvent::Access { acquired: true }), LoopAction::Update);
    let first = reloader.update();
    let outcome = host.serve(&mut reloader, first);
    assert_eq!(outcome, Ok(true));
    assert_eq!(l.step(LoopEvent::Updated(outcome)), LoopAction::SendReloaded);
    hub.send_reloaded_event();
    assert_eq!(l.step(LoopEvent::Notified), LoopAction::Continue);
    assert_eq!(l.version(), 1);
    assert_eq!(reloader.get_symbol(b"f"), Ok(&2));
    assert!(observer.wait_for_reload_timeout(&mut hub));
    assert!(bystander.wait_for_reload_timeout(&mut hub));
    // No second reload is due.
    assert_eq!(l.step(LoopEvent::Started), LoopAction::WaitForSignal);
    assert!(!reloader.take_file_change(&rx));
    assert_eq!(reloader.update(), ReloadRequest::Done(Ok(false)));
}

#[test]
fn deleted_and_recreated_artifact_signals_once() {
    let mut host = Host::new();
    host.artifact = Some(b"one".to_vec());
    let mut watcher = ChangeWatcher::new(None);
    let (mut reloader, first) = made(Platform::Linux);
    assert_eq!(host.serve(&mut reloader, first), Ok(true));
    let rx = reloader.subscribe_to_file_changes();

    // Deleted.
    host.artifact = None;
    let mut action = watcher
        .on_event(WatcherEvent::Batch { kinds: vec![FsEventKind::Remove], path_exists: false });
    assert_eq!(action, WatcherAction::Rearm { after_ms: 0 });
    for _ in 0..3 {
        assert!(matches!(action, WatcherAction::Rearm { .. }));
        action = watcher
            .on_event(WatcherEvent::RearmAttempt { path_exists: false, registered: false });
        assert_eq!(action, WatcherAction::Rearm { after_ms: 500 });
    }
    assert_eq!(watcher.current_state(), WatcherState::PendingRearm);
    assert_eq!(reloader.file_changes_waiting(&rx), 0);

    // Recreated with other bytes.
    host.artifact = Some(b"two".to_vec());
    action =
        watcher.on_event(WatcherEvent::RearmAttempt { path_exists: true, registered: true });
    assert_eq!(action, WatcherAction::CheckContent);
    assert_eq!(watcher.current_state(), WatcherState::Armed);
    assert!(reloader.file_changed(&host.artifact));
    assert_eq!(reloader.file_changes_waiting(&rx), 1);
    // The creation's own batch comes in after that.
    action = watcher
        .on_event(WatcherEvent::Batch { kinds: vec![FsEventKind::Create], path_exists: true });
    assert_eq!(action, WatcherAction::CheckContent);
    assert!(!reloader.file_changed(&host.artifact));
    assert_eq!(reloader.file_changes_waiting(&rx), 1);
}

#[test]
fn failed_reload_does_not_stop_the_loop() {
    let mut host = Host::new();
    host.artifact = Some(b"one".to_vec());
    let mut hub = LibReloadNotifier::new();
    let mut l = UpdateLoop::new();
    let (mut reloader, first) = made(Platform::Linux);
    assert_eq!(host.serve(&mut reloader, first), Ok(true));
    let rx = reloader.subscribe_to_file_changes();
    let observer = hub.subscribe();

    // The artifact changes and vanishes between the probe and the copy.
    assert!(reloader.file_changed(&Some(b"two".to_vec())));
    l.step(LoopEvent::Started);
    assert!(reloader.take_file_change(&rx));
    l.step(LoopEvent::Signal);
    hub.send_about_to_reload_event_and_wait_for_blocks();
    observer.wait_for_about_to_reload(&mut hub).release(&mut hub);
    l.step(LoopEvent::Blocks { pending: hub.blocks_pending() });
    l.step(LoopEvent::Access { acquired: true });
    assert!(matches!(reloader.update(), ReloadRequest::CloseAndRemove { .. }));
    reloader.resume(ReloadReply::Closed { ok: true });
    reloader.resume(ReloadReply::Probed { exists: true });
    let outcome = match reloader.resume(ReloadReply::Copied { ok: false }) {
        ReloadRequest::Done(outcome) => outcome,
        other => panic!("unexpected request {other:?}"),
    };
    assert_eq!(
        l.step(LoopEvent::Updated(outcome)),
        LoopAction::Failed(HotReloaderError::CopyError)
    );
    assert_eq!(l.version(), 0);
    assert!(!l.was_updated());
    // Nobody is told of a reload, and no handle is left.
    assert!(!observer.ready(&hub, true));
    assert_eq!(reloader.get_symbol(b"f"), Err(HotReloaderError::LibraryNotLoaded));

    // The next change is reloaded.
    host.copies.clear();
    host.artifact = Some(b"three".to_vec());
    assert!(reloader.file_changed(&host.artifact));
    assert_eq!(
        run_cycle(&mut host, &mut l, &mut hub, &mut reloader, &rx, &[&observer]),
        Ok(true)
    );
    assert_eq!(l.version(), 1);
    assert_eq!(host.copy_names(), vec!["foo-hot-2.so"]);
    assert!(observer.wait_for_reload_timeout(&mut hub));
}

#[test]
fn copy_of_a_failed_open_is_deleted_by_the_next_reload() {
    let mut host = Host::new();
    host.artifact = Some(b"one".to_vec());
    let mut hub = LibReloadNotifier::new();
    let mut l = UpdateLoop::new();
    let (mut reloader, first) = made(Platform::Linux);
    assert_eq!(host.serve(&mut reloader, first), Ok(true));
    let rx = reloader.subscribe_to_file_changes();
    assert_eq!(host.copy_names(), vec!["foo-hot-0.so"]);

    // A build that does not load.
    host.artifact = Some(b"broken".to_vec());
    host.fail_open = true;
    assert!(reloader.file_changed(&host.artifact));
    assert_eq!(
        run_cycle(&mut host, &mut l, &mut hub, &mut reloader, &rx, &[]),
        Err(HotReloaderError::LoadError)
    );
    assert_eq!(l.version(), 0);
    assert!(host.opened.is_empty());
    // The old copy is gone; the broken one is on disk and is the loaded file.
    assert_eq!(host.copy_names(), vec!["foo-hot-1.so"]);
    assert_eq!(reloader.loaded_file(), "foo-hot-1.so");

    // The rebuild loads, and the broken copy is deleted on the way.
    host.artifact = Some(b"fixed".to_vec());
    assert!(reloader.file_changed(&host.artifact));
    assert_eq!(run_cycle(&mut host, &mut l, &mut hub, &mut reloader, &rx, &[]), Ok(true));
    assert_eq!(l.version(), 1);
    assert_eq!(host.copy_names(), vec!["foo-hot-2.so"]);
    assert_eq!(host.opened, vec![2]);
    assert_eq!(reloader.teardown(), (Some(2), Some(String::from("foo-hot-2.so"))));
}

#[test]
fn update_with_nothing_pending_moves_no_version() {
    let mut host = Host::new();
    host.artifact = Some(b"one".to_vec());
    let mut l = UpdateLoop::new();
    let (mut reloader, first) = made(Platform::Linux);
    assert_eq!(host.serve(&mut reloader, first), Ok(true));
    l.step(LoopEvent::Started);
    l.step(LoopEvent::Signal);
    l.step(LoopEvent::Blocks { pending: 0 });
    l.step(LoopEvent::Access { acquired: true });
    let first = reloader.update();
    let outcome = host.serve(&mut reloader, first);
    assert_eq!(outcome, Ok(false));
    assert_eq!(l.step(LoopEvent::Updated(outcome)), LoopAction::Continue);
    assert_eq!(l.version(), 0);
    assert!(!l.was_updated());
    assert_eq!(host.opened, vec![1]);
}
