use benchmark_runner::launcher::{LaunchAction, LaunchError, LaunchEvent, LaunchPhase, Launcher};

fn feed(l: &mut Launcher, events: &[LaunchEvent]) -> Vec<LaunchAction> {
    events.iter().map(|e| l.step(*e)).collect()
}

#[test]
fn empty_slot_submits_after_listing() {
    let mut l = Launcher::new();
    let actions = feed(
        &mut l,
        &[
            LaunchEvent::Begin,
            LaunchEvent::ConfigDeleted,
            LaunchEvent::ConfigCreated(true),
            LaunchEvent::SlotListed(Some(0)),
            LaunchEvent::JobSubmitted(true),
        ],
    );
    assert_eq!(
        actions,
        vec![
            LaunchAction::DeleteConfig,
            LaunchAction::CreateConfig,
            LaunchAction::ClearSlot,
            LaunchAction::SubmitJob,
            LaunchAction::Launched,
        ]
    );
    assert_eq!(l.phase, LaunchPhase::Launched);
}

#[test]
fn occupied_slot_waits_for_deletion_and_rewatches() {
    let mut l = Launcher::new();
    feed(&mut l, &[LaunchEvent::Begin, LaunchEvent::ConfigDeleted, LaunchEvent::ConfigCreated(true)]);
    assert_eq!(l.step(LaunchEvent::SlotListed(Some(1))), LaunchAction::WatchSlot);
    assert_eq!(l.step(LaunchEvent::WatchEnded), LaunchAction::WatchSlot);
    assert_eq!(l.step(LaunchEvent::JobDeleted), LaunchAction::SubmitJob);
    assert_eq!(l.step(LaunchEvent::JobSubmitted(true)), LaunchAction::Launched);
    assert_eq!(l.step(LaunchEvent::Begin), LaunchAction::DeleteConfig);
}

#[test]
fn failed_listing_falls_back_to_the_watch() {
    let mut l = Launcher::new();
    feed(&mut l, &[LaunchEvent::Begin, LaunchEvent::ConfigDeleted, LaunchEvent::ConfigCreated(true)]);
    assert_eq!(l.step(LaunchEvent::SlotListed(None)), LaunchAction::WatchSlot);
}

#[test]
fn rejected_resources_abort() {
    let mut l = Launcher::new();
    feed(&mut l, &[LaunchEvent::Begin, LaunchEvent::ConfigDeleted]);
    assert_eq!(l.step(LaunchEvent::ConfigCreated(false)), LaunchAction::Abort(LaunchError::ConfigRejected));
    assert_eq!(l.step(LaunchEvent::Begin), LaunchAction::Abort(LaunchError::ConfigRejected));

    let mut l = Launcher::new();
    feed(
        &mut l,
        &[LaunchEvent::Begin, LaunchEvent::ConfigDeleted, LaunchEvent::ConfigCreated(true), LaunchEvent::SlotListed(Some(0))],
    );
    assert_eq!(l.step(LaunchEvent::JobSubmitted(false)), LaunchAction::Abort(LaunchError::SubmitRejected));
}

#[test]
fn no_submission_without_an_empty_slot() {
    let mut l = Launcher::new();
    let actions = feed(
        &mut l,
        &[
            LaunchEvent::Begin,
            LaunchEvent::ConfigDeleted,
            LaunchEvent::ConfigCreated(true),
            LaunchEvent::SlotListed(Some(1)),
            LaunchEvent::WatchEnded,
        ],
    );
    assert!(!actions.contains(&LaunchAction::SubmitJob));
}

#[test]
fn out_of_order_events_abort() {
    let mut l = Launcher::new();
    assert_eq!(l.step(LaunchEvent::ConfigDeleted), LaunchAction::Abort(LaunchError::OutOfOrder));
    let mut l = Launcher::new();
    assert_eq!(l.step(LaunchEvent::JobDeleted), LaunchAction::Wait);
    assert_eq!(l.phase, LaunchPhase::Idle);
}
