use sage_hot_lib::update_loop::{LoopAction, LoopEvent, LoopState, UpdateLoop, ACCESS_RETRY_MS};
use sage_hot_lib::HotReloaderError;

/// Runs one cycle without holds or contention.
fn cycle(l: &mut UpdateLoop, outcome: Result<bool, HotReloaderError>) -> LoopAction {
    assert_eq!(l.step(LoopEvent::Started), LoopAction::WaitForSignal);
    assert_eq!(l.step(LoopEvent::Signal), LoopAction::Announce);
    assert_eq!(l.step(LoopEvent::Blocks { pending: 0 }), LoopAction::TryAccess { after_ms: 0 });
    assert_eq!(l.step(LoopEvent::Access { acquired: true }), LoopAction::Update);
    l.step(LoopEvent::Updated(outcome))
}

#[test]
fn loop_starts_idle_at_version_zero() {
    let mut l = UpdateLoop::new();
    assert_eq!(l.state(), LoopState::Idle);
    assert_eq!(l.version(), 0);
    assert!(!l.was_updated());
}

#[test]
fn cycle_goes_through_every_state() {
    let mut l = UpdateLoop::new();
    l.step(LoopEvent::Started);
    assert_eq!(l.state(), LoopState::WaitingForSignal);
    l.step(LoopEvent::Signal);
    assert_eq!(l.state(), LoopState::Announcing);
    l.step(LoopEvent::Blocks { pending: 0 });
    assert_eq!(l.state(), LoopState::AcquiringExclusiveAccess);
    l.step(LoopEvent::Access { acquired: true });
    assert_eq!(l.state(), LoopState::Reloading);
    assert_eq!(l.step(LoopEvent::Updated(Ok(true))), LoopAction::SendReloaded);
    assert_eq!(l.state(), LoopState::Done);
    assert_eq!(l.version(), 1);
    assert_eq!(l.step(LoopEvent::Notified), LoopAction::Continue);
    assert_eq!(l.state(), LoopState::Idle);
}

#[test]
fn version_counts_the_successful_cycles() {
    let mut l = UpdateLoop::new();
    for n in 1..=5 {
        assert_eq!(cycle(&mut l, Ok(true)), LoopAction::SendReloaded);
        assert_eq!(l.step(LoopEvent::Notified), LoopAction::Continue);
        assert_eq!(l.version(), n);
    }
    assert_eq!(l.version(), 5);
}

#[test]
fn update_that_found_nothing_pending_counts_nothing() {
    let mut l = UpdateLoop::new();
    assert_eq!(cycle(&mut l, Ok(true)), LoopAction::SendReloaded);
    l.step(LoopEvent::Notified);
    assert!(l.was_updated());
    // Nothing was pending: no version, no flag, nobody is told.
    assert_eq!(cycle(&mut l, Ok(false)), LoopAction::Continue);
    assert_eq!(l.state(), LoopState::Idle);
    assert_eq!(l.version(), 1);
    assert!(!l.was_updated());
    assert_eq!(l.step(LoopEvent::Notified), LoopAction::Ignored);
    // The loop goes on.
    assert_eq!(cycle(&mut l, Ok(true)), LoopAction::SendReloaded);
    assert_eq!(l.version(), 2);
    assert!(l.was_updated());
}

#[test]
fn flag_reads_true_once_per_cycle() {
    let mut l = UpdateLoop::new();
    assert!(!l.was_updated());
    cycle(&mut l, Ok(true));
    assert!(l.was_updated());
    assert!(!l.was_updated());
    l.step(LoopEvent::Notified);
    assert!(!l.was_updated());
    cycle(&mut l, Ok(true));
    l.step(LoopEvent::Notified);
    cycle(&mut l, Ok(true));
    assert!(l.was_updated());
    assert!(!l.was_updated());
    assert_eq!(l.version(), 3);
}

#[test]
fn held_reload_does_not_begin() {
    let mut l = UpdateLoop::new();
    l.step(LoopEvent::Started);
    l.step(LoopEvent::Signal);
    for pending in [3, 3, 2, 1, 1, 1] {
        assert_eq!(l.step(LoopEvent::Blocks { pending }), LoopAction::WaitForBlocks);
        assert_eq!(l.state(), LoopState::Announcing);
        assert_eq!(l.version(), 0);
    }
    assert_eq!(l.step(LoopEvent::Blocks { pending: 0 }), LoopAction::TryAccess { after_ms: 0 });
    assert_eq!(l.state(), LoopState::AcquiringExclusiveAccess);
}

#[test]
fn contended_access_is_tried_again() {
    assert_eq!(ACCESS_RETRY_MS, 1);
    let mut l = UpdateLoop::new();
    l.step(LoopEvent::Started);
    l.step(LoopEvent::Signal);
    l.step(LoopEvent::Blocks { pending: 0 });
    for _ in 0..4 {
        assert_eq!(
            l.step(LoopEvent::Access { acquired: false }),
            LoopAction::TryAccess { after_ms: 1 }
        );
        assert_eq!(l.state(), LoopState::AcquiringExclusiveAccess);
    }
    assert_eq!(l.step(LoopEvent::Access { acquired: true }), LoopAction::Update);
    assert_eq!(
        l.step(LoopEvent::Updated(Err(HotReloaderError::LockContention))),
        LoopAction::TryAccess { after_ms: 1 }
    );
    assert_eq!(l.state(), LoopState::AcquiringExclusiveAccess);
    assert_eq!(l.version(), 0);
    assert_eq!(l.step(LoopEvent::Access { acquired: true }), LoopAction::Update);
    assert_eq!(l.step(LoopEvent::Updated(Ok(true))), LoopAction::SendReloaded);
    assert_eq!(l.version(), 1);
}

#[test]
fn failed_cycle_leaves_version_and_flag() {
    let mut l = UpdateLoop::new();
    assert_eq!(
        cycle(&mut l, Err(HotReloaderError::CopyError)),
        LoopAction::Failed(HotReloaderError::CopyError)
    );
    assert_eq!(l.state(), LoopState::Idle);
    assert_eq!(l.version(), 0);
    assert!(!l.was_updated());
    assert_eq!(
        cycle(&mut l, Err(HotReloaderError::LoadError)),
        LoopAction::Failed(HotReloaderError::LoadError)
    );
    assert_eq!(l.version(), 0);
    // The loop goes on.
    assert_eq!(cycle(&mut l, Ok(true)), LoopAction::SendReloaded);
    assert_eq!(l.version(), 1);
    assert!(l.was_updated());
}

#[test]
fn event_out_of_turn_is_ignored() {
    let mut l = UpdateLoop::new();
    assert_eq!(l.step(LoopEvent::Signal), LoopAction::Ignored);
    assert_eq!(l.step(LoopEvent::Updated(Ok(true))), LoopAction::Ignored);
    assert_eq!(l.step(LoopEvent::Notified), LoopAction::Ignored);
    assert_eq!(l.state(), LoopState::Idle);
    assert_eq!(l.version(), 0);
    l.step(LoopEvent::Started);
    assert_eq!(l.step(LoopEvent::Started), LoopAction::Ignored);
    assert_eq!(l.step(LoopEvent::Blocks { pending: 0 }), LoopAction::Ignored);
    assert_eq!(l.step(LoopEvent::Access { acquired: true }), LoopAction::Ignored);
    assert_eq!(l.state(), LoopState::WaitingForSignal);
    l.step(LoopEvent::Signal);
    assert_eq!(l.step(LoopEvent::Access { acquired: true }), LoopAction::Ignored);
    assert_eq!(l.step(LoopEvent::Updated(Ok(true))), LoopAction::Ignored);
    assert_eq!(l.state(), LoopState::Announcing);
    assert_eq!(l.version(), 0);
    assert!(!l.was_updated());
}
