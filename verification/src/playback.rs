//! The playback transport: what the play, pause, resume, stop and rewind
//! buttons do to the player's state, what they tell the audio thread, and
//! how the audio thread reacts to what wakes it up.

use vstd::prelude::*;

verus! {

/// Whether the player is playing and whether it is paused.
#[derive(Clone, Copy, PartialEq, Eq, Debug, Structural)]
pub struct Transport {
    pub playing: bool,
    pub paused: bool,
}

/// A button of the transport.
#[derive(Clone, Copy, PartialEq, Eq, Debug, Structural)]
pub enum Control {
    Play,
    Pause,
    Resume,
    Stop,
    SeekStart,
}

/// What the audio thread is told.
#[derive(Clone, Copy, PartialEq, Eq, Debug, Structural)]
pub enum ThreadCommand {
    /// Play the score's events from the start.
    Play,
    /// Stop playing (the output stream stays open, rendering silence).
    Stop,
}

/// The effect of a button: the message for the audio thread, if any, and
/// whether the playing position goes back to the start.
#[derive(Clone, Copy, PartialEq, Eq, Debug, Structural)]
pub struct ControlEffect {
    pub command: Option<ThreadCommand>,
    pub rewind: bool,
}

/// The state after pressing `c` in `t`, when the audio thread is running
/// (`ready`) or not. Play does nothing while there is no audio thread.
pub open spec fn spec_control(t: Transport, c: Control, ready: bool) -> (Transport, ControlEffect) {
    match c {
        Control::Play => if ready {
            (Transport { playing: true, paused: false }, ControlEffect { command: Some(ThreadCommand::Play), rewind: true })
        } else {
            (t, ControlEffect { command: None, rewind: false })
        },
        Control::Pause => (Transport { playing: false, paused: true }, ControlEffect { command: None, rewind: false }),
        Control::Resume => (Transport { playing: true, paused: false }, ControlEffect { command: None, rewind: false }),
        Control::Stop => (
            Transport { playing: false, paused: false },
            ControlEffect { command: if ready { Some(ThreadCommand::Stop) } else { None }, rewind: false },
        ),
        Control::SeekStart => (
            Transport { playing: false, paused: false },
            ControlEffect { command: if ready { Some(ThreadCommand::Stop) } else { None }, rewind: true },
        ),
    }
}

impl Transport {
    /// Nothing playing, nothing paused.
    pub fn new() -> (t: Self)
        ensures
            !t.playing && !t.paused,
    {
        Transport { playing: false, paused: false }
    }

    /// Presses a button of the transport.
    pub fn control(&mut self, c: Control, ready: bool) -> (e: ControlEffect)
        ensures
            (*final(self), e) == spec_control(*old(self), c, ready),
    {
        match c {
            Control::Play => {
                if ready {
                    self.paused = false;
                    self.playing = true;
                    ControlEffect { command: Some(ThreadCommand::Play), rewind: true }
                } else {
                    ControlEffect { command: None, rewind: false }
                }
            },
            Control::Pause => {
                self.paused = true;
                self.playing = false;
                ControlEffect { command: None, rewind: false }
            },
            Control::Resume => {
                self.paused = false;
                self.playing = true;
                ControlEffect { command: None, rewind: false }
            },
            Control::Stop => {
                self.playing = false;
                self.paused = false;
                ControlEffect { command: if ready { Some(ThreadCommand::Stop) } else { None }, rewind: false }
            },
            Control::SeekStart => {
                self.playing = false;
                self.paused = false;
                ControlEffect { command: if ready { Some(ThreadCommand::Stop) } else { None }, rewind: true }
            },
        }
    }
}

/// Law of the transport: a player is never playing and paused at once after
/// a button, resuming a pause plays again, and play does nothing while there
/// is no audio thread.
pub proof fn lemma_transport_buttons(t: Transport, c: Control, ready: bool)
    requires
        !(t.playing && t.paused),
    ensures
        !(spec_control(t, c, ready).0.playing && spec_control(t, c, ready).0.paused),
        spec_control(spec_control(t, Control::Pause, ready).0, Control::Resume, ready).0
            == (Transport { playing: true, paused: false }),
        spec_control(t, Control::Play, false) == (t, ControlEffect { command: None, rewind: false }),
{
}

// ── The audio thread ─────────────────────────────────────────────

/// What wakes the audio thread while it waits.
#[derive(Clone, Copy, PartialEq, Eq, Debug, Structural)]
pub enum Wake {
    /// A command arrived.
    Command(ThreadCommand),
    /// The wait ran out.
    Timeout,
    /// The application dropped its end of the channel.
    Disconnected,
}

/// What the thread does next.
#[derive(Clone, Copy, PartialEq, Eq, Debug, Structural)]
pub enum ThreadAction {
    /// Keep waiting.
    Wait,
    /// Go on with the current event.
    Proceed,
    /// Leave the current score.
    Abort,
    /// Start the score just received.
    Start,
    /// Shut the thread down.
    Exit,
}

/// While idle: a score starts it, a stop is nothing to do, a closed channel
/// ends it. An idle wait has no time limit, so a timeout only waits again.
pub open spec fn spec_idle(w: Wake) -> ThreadAction {
    match w {
        Wake::Command(ThreadCommand::Play) => ThreadAction::Start,
        Wake::Command(ThreadCommand::Stop) => ThreadAction::Wait,
        Wake::Timeout => ThreadAction::Wait,
        Wake::Disconnected => ThreadAction::Exit,
    }
}

pub fn on_idle_wake(w: Wake) -> (a: ThreadAction)
    ensures
        a == spec_idle(w),
{
    match w {
        Wake::Command(ThreadCommand::Play) => ThreadAction::Start,
        Wake::Command(ThreadCommand::Stop) => ThreadAction::Wait,
        Wake::Timeout => ThreadAction::Wait,
        Wake::Disconnected => ThreadAction::Exit,
    }
}

/// While paused: a stop or a closed channel ends the pause; anything else
/// keeps waiting.
pub open spec fn spec_paused(w: Wake) -> ThreadAction {
    match w {
        Wake::Command(ThreadCommand::Stop) | Wake::Disconnected => ThreadAction::Proceed,
        _ => ThreadAction::Wait,
    }
}

pub fn on_paused_wake(w: Wake) -> (a: ThreadAction)
    ensures
        a == spec_paused(w),
{
    match w {
        Wake::Command(ThreadCommand::Stop) | Wake::Disconnected => ThreadAction::Proceed,
        _ => ThreadAction::Wait,
    }
}

/// Before an event, once no longer paused: a player that was stopped leaves
/// the score.
pub fn before_event(playing: bool) -> (a: ThreadAction)
    ensures
        a == (if playing { ThreadAction::Proceed } else { ThreadAction::Abort }),
{
    if playing { ThreadAction::Proceed } else { ThreadAction::Abort }
}

/// Waiting for an event's time: the event sounds when the wait runs out;
/// any command or a closed channel leaves the score.
pub open spec fn spec_due(w: Wake) -> ThreadAction {
    match w {
        Wake::Timeout => ThreadAction::Proceed,
        _ => ThreadAction::Abort,
    }
}

pub fn on_due_wake(w: Wake) -> (a: ThreadAction)
    ensures
        a == spec_due(w),
{
    match w {
        Wake::Timeout => ThreadAction::Proceed,
        _ => ThreadAction::Abort,
    }
}

} // verus!
