use benchmark_runner::sync::{control_event, Action, Event, Phase, RunSession, SyncError};

fn feed(s: &mut RunSession, events: &[Event]) -> Vec<Action> {
    events.iter().map(|e| s.step(*e)).collect()
}

const START: Event = Event::Control(Some(true));
const STOP: Event = Event::Control(Some(false));

#[test]
fn start_stop_and_deletion_make_one_recording() {
    let mut s = RunSession::new(vec![42]);
    let actions = feed(&mut s, &[START, Event::RecordingStarted, STOP, Event::RecordingStopped, Event::JobDeleted]);
    assert_eq!(
        actions,
        vec![Action::StartRecording(42), Action::Wait, Action::StopRecording(42), Action::Wait, Action::Finished]
    );
    assert!(s.is_done());
}

#[test]
fn deletion_before_stop_message_is_awaited_too() {
    let mut s = RunSession::new(vec![7]);
    let actions = feed(&mut s, &[START, Event::RecordingStarted, Event::JobDeleted, STOP, Event::RecordingStopped]);
    assert_eq!(
        actions,
        vec![Action::StartRecording(7), Action::Wait, Action::Wait, Action::StopRecording(7), Action::Finished]
    );
    assert_eq!(s.phase(), Phase::Done);
}

#[test]
fn double_start_is_rejected_before_any_stop() {
    let mut s = RunSession::new(vec![9]);
    let actions = feed(&mut s, &[START, Event::RecordingStarted, START, STOP, Event::RecordingStopped]);
    assert_eq!(actions[0], Action::StartRecording(9));
    assert_eq!(actions[2], Action::Abort(SyncError::ExpectedStop));
    assert!(!actions.iter().any(|a| matches!(a, Action::StopRecording(_))));
    assert_eq!(s.phase(), Phase::Failed(SyncError::ExpectedStop));
}

#[test]
fn stop_before_start_is_rejected() {
    let mut s = RunSession::new(vec![1]);
    assert_eq!(s.step(STOP), Action::Abort(SyncError::ExpectedStart));
}

#[test]
fn channel_closing_early_is_rejected() {
    let mut s = RunSession::new(vec![1]);
    assert_eq!(s.step(Event::ChannelClosed), Action::Abort(SyncError::ChannelClosed));
    let mut s = RunSession::new(vec![1]);
    feed(&mut s, &[START, Event::RecordingStarted]);
    assert_eq!(s.step(Event::ChannelClosed), Action::Abort(SyncError::ChannelClosed));
}

#[test]
fn failing_metrics_service_aborts() {
    let mut s = RunSession::new(vec![1]);
    s.step(START);
    assert_eq!(s.step(Event::RecordingFailed), Action::Abort(SyncError::RecordingFailed));
}

#[test]
fn batch_runs_in_order_and_waits_for_deletion_after_the_last() {
    let mut s = RunSession::new(vec![10, 11]);
    let first = feed(&mut s, &[START, Event::RecordingStarted, STOP, Event::RecordingStopped]);
    assert_eq!(first, vec![Action::StartRecording(10), Action::Wait, Action::StopRecording(10), Action::Wait]);
    assert_eq!(s.current(), 1);
    let second = feed(&mut s, &[START, Event::RecordingStarted, STOP, Event::RecordingStopped, Event::JobDeleted]);
    assert_eq!(
        second,
        vec![Action::StartRecording(11), Action::Wait, Action::StopRecording(11), Action::Wait, Action::Finished]
    );
    assert!(s.is_done());
}

#[test]
fn control_messages_decode() {
    assert_eq!(control_event(r#"{"status": true}"#), Event::Control(Some(true)));
    assert_eq!(control_event(r#"{"status":false}"#), Event::Control(Some(false)));
    assert_eq!(control_event(r#"{"status": "yes"}"#), Event::Control(None));
    assert_eq!(control_event("not json"), Event::Control(None));
    assert_eq!(control_event(r#"{"other": true}"#), Event::Control(None));
}

#[test]
fn undecodable_message_aborts() {
    let mut s = RunSession::new(vec![3]);
    assert_eq!(s.step(control_event("garbage")), Action::Abort(SyncError::Undecodable));
}
