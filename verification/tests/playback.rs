use m_guitar::playback::{
    before_event, on_due_wake, on_idle_wake, on_paused_wake, Control, ControlEffect,
    ThreadAction, ThreadCommand, Transport, Wake,
};

#[test]
fn play_starts_the_thread_from_the_start() {
    let mut t = Transport::new();
    let e = t.control(Control::Play, true);
    assert_eq!(t, Transport { playing: true, paused: false });
    assert_eq!(e, ControlEffect { command: Some(ThreadCommand::Play), rewind: true });
}

#[test]
fn play_without_a_running_thread_changes_nothing() {
    let mut t = Transport::new();
    t.control(Control::Pause, false);
    let e = t.control(Control::Play, false);
    assert_eq!(t, Transport { playing: false, paused: true });
    assert_eq!(e, ControlEffect { command: None, rewind: false });
}

#[test]
fn pause_then_resume_plays_again() {
    let mut t = Transport::new();
    t.control(Control::Play, true);
    let e = t.control(Control::Pause, true);
    assert_eq!(t, Transport { playing: false, paused: true });
    assert_eq!(e.command, None);
    let e = t.control(Control::Resume, true);
    assert_eq!(t, Transport { playing: true, paused: false });
    assert!(!e.rewind);
}

#[test]
fn stop_and_rewind_tell_the_thread_to_stop() {
    let mut t = Transport { playing: true, paused: false };
    assert_eq!(
        t.control(Control::Stop, true),
        ControlEffect { command: Some(ThreadCommand::Stop), rewind: false }
    );
    assert_eq!(t, Transport::new());
    let mut t = Transport { playing: false, paused: true };
    assert_eq!(
        t.control(Control::SeekStart, true),
        ControlEffect { command: Some(ThreadCommand::Stop), rewind: true }
    );
    assert_eq!(t, Transport::new());
    assert_eq!(
        t.control(Control::SeekStart, false),
        ControlEffect { command: None, rewind: true }
    );
}

#[test]
fn audio_thread_reactions() {
    assert_eq!(on_idle_wake(Wake::Command(ThreadCommand::Play)), ThreadAction::Start);
    assert_eq!(on_idle_wake(Wake::Command(ThreadCommand::Stop)), ThreadAction::Wait);
    assert_eq!(on_idle_wake(Wake::Disconnected), ThreadAction::Exit);
    assert_eq!(on_paused_wake(Wake::Timeout), ThreadAction::Wait);
    assert_eq!(on_paused_wake(Wake::Command(ThreadCommand::Play)), ThreadAction::Wait);
    assert_eq!(on_paused_wake(Wake::Command(ThreadCommand::Stop)), ThreadAction::Proceed);
    assert_eq!(on_paused_wake(Wake::Disconnected), ThreadAction::Proceed);
    assert_eq!(before_event(false), ThreadAction::Abort);
    assert_eq!(before_event(true), ThreadAction::Proceed);
    assert_eq!(on_due_wake(Wake::Timeout), ThreadAction::Proceed);
    assert_eq!(on_due_wake(Wake::Command(ThreadCommand::Play)), ThreadAction::Abort);
    assert_eq!(on_due_wake(Wake::Disconnected), ThreadAction::Abort);
}
