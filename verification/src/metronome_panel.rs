//! The decisions of the metronome panel: starting and stopping the engine,
//! the pendulum's animation phases, the highlighted slot, and the tempo.
//! The panel's clock readings and the pendulum's angle stay with the
//! interface; it hands in the elapsed time where a decision needs it.

use vstd::prelude::*;
use crate::editor::Bar;
use crate::metronome::MetronomeCmd;

verus! {

/// How long the pendulum takes to come to rest after a stop, in milliseconds.
pub const STOP_ANIMATION_DURATION: u64 = 300;

/// The phase of the pendulum's animation.
#[derive(Debug, Clone, Copy, PartialEq, Eq, Structural)]
pub enum AnimationState {
    Idle,
    Running,
    Stopping,
}

/// What the interface must do after a start/stop click: which command the
/// engine gets, and which animation phase begins (so that it can note the
/// time, and on a stop the pendulum's angle).
#[derive(Debug, Clone, Copy, PartialEq, Eq, Structural)]
pub enum ToggleEffect {
    /// The engine is told to play and the pendulum starts swinging.
    StartSwinging,
    /// The engine is told to play and the pendulum, which was already coming
    /// to rest, swings again.
    ResumeSwinging,
    /// The engine is told to stop and the pendulum starts coming to rest.
    StartStopping,
}

/// The panel's state as plain values.
pub struct PanelState {
    pub active: bool,
    pub current_beat_index: Option<usize>,
    pub bar_editor_active: bool,
    pub state: AnimationState,
    pub bpm: u32,
    pub bar: Bar,
}

/// The start/stop click's effect on the animation, by the phase before it.
pub open spec fn toggle_effect_of(active: bool, state: AnimationState) -> (bool, AnimationState) {
    match state {
        AnimationState::Idle | AnimationState::Stopping => (!active, AnimationState::Running),
        AnimationState::Running => (!active, AnimationState::Stopping),
    }
}

/// The state behind the metronome panel.
pub struct MetronomePanel {
    active: bool,
    current_beat_index: Option<usize>,
    bar_editor_active: bool,
    state: AnimationState,
    bpm: u32,
    bar: Bar,
}

impl View for MetronomePanel {
    type V = PanelState;

    closed spec fn view(&self) -> PanelState {
        PanelState {
            active: self.active,
            current_beat_index: self.current_beat_index,
            bar_editor_active: self.bar_editor_active,
            state: self.state,
            bpm: self.bpm,
            bar: self.bar,
        }
    }
}

impl MetronomePanel {
    /// A stopped panel at 60 beats per minute, on the first slot of `bar`,
    /// with the pattern editor closed.
    pub fn new(bar: Bar) -> (p: Self)
        ensures
            p@ == (PanelState {
                active: false,
                current_beat_index: Some(0),
                bar_editor_active: false,
                state: AnimationState::Idle,
                bpm: 60,
                bar,
            }),
    {
        MetronomePanel {
            active: false,
            current_beat_index: Some(0),
            bar_editor_active: false,
            state: AnimationState::Idle,
            bpm: 60,
            bar,
        }
    }

    /// Whether the engine is playing.
    pub fn is_active(&self) -> (b: bool)
        ensures
            b == self@.active,
    {
        self.active
    }

    /// The phase of the pendulum.
    pub fn animation_state(&self) -> (s: AnimationState)
        ensures
            s == self@.state,
    {
        self.state
    }

    /// The tempo in beats per minute.
    pub fn bpm(&self) -> (b: u32)
        ensures
            b == self@.bpm,
    {
        self.bpm
    }

    /// The slot that the engine last reported.
    pub fn current_beat_index(&self) -> (i: Option<usize>)
        ensures
            i == self@.current_beat_index,
    {
        self.current_beat_index
    }

    /// Whether the pattern editor is open.
    pub fn bar_editor_active(&self) -> (b: bool)
        ensures
            b == self@.bar_editor_active,
    {
        self.bar_editor_active
    }

    /// The bar shown under the pendulum.
    pub fn bar(&self) -> (b: &Bar)
        ensures
            *b == self@.bar,
    {
        &self.bar
    }

    /// The start/stop button: flips between playing and stopped, gives the
    /// command for the engine, and moves the pendulum into its next phase.
    pub fn toggle_active(&mut self) -> (r: (MetronomeCmd, ToggleEffect))
        ensures
            final(self)@ == (PanelState {
                active: toggle_effect_of(old(self)@.active, old(self)@.state).0,
                state: toggle_effect_of(old(self)@.active, old(self)@.state).1,
                ..old(self)@
            }),
            if final(self)@.active {
                r.0 is Play
            } else {
                r.0 is Stop
            },
            r.1 == (match old(self)@.state {
                AnimationState::Idle => ToggleEffect::StartSwinging,
                AnimationState::Stopping => ToggleEffect::ResumeSwinging,
                AnimationState::Running => ToggleEffect::StartStopping,
            }),
    {
        self.active = !self.active;
        let cmd = if self.active {
            MetronomeCmd::Play
        } else {
            MetronomeCmd::Stop
        };
        let effect = match self.state {
            AnimationState::Idle => {
                self.state = AnimationState::Running;
                ToggleEffect::StartSwinging
            },
            AnimationState::Stopping => {
                self.state = AnimationState::Running;
                ToggleEffect::ResumeSwinging
            },
            AnimationState::Running => {
                self.state = AnimationState::Stopping;
                ToggleEffect::StartStopping
            },
        };
        (cmd, effect)
    }

    /// An animation frame: a pendulum that has been coming to rest for longer
    /// than `STOP_ANIMATION_DURATION` milliseconds (`stop_elapsed_ms`, where
    /// the stop time is known) is at rest. Returns whether it came to rest
    /// now.
    pub fn animation_tick(&mut self, stop_elapsed_ms: Option<u64>) -> (settled: bool)
        ensures
            settled == (old(self)@.state == AnimationState::Stopping && (match stop_elapsed_ms {
                Some(ms) => ms > STOP_ANIMATION_DURATION,
                None => false,
            })),
            final(self)@ == (PanelState {
                state: if settled {
                    AnimationState::Idle
                } else {
                    old(self)@.state
                },
                ..old(self)@
            }),
    {
        match self.state {
            AnimationState::Stopping => match stop_elapsed_ms {
                Some(ms) => {
                    if ms > STOP_ANIMATION_DURATION {
                        self.state = AnimationState::Idle;
                        true
                    } else {
                        false
                    }
                },
                None => false,
            },
            _ => false,
        }
    }

    /// The engine reported that slot `idx` began.
    pub fn tick_received(&mut self, idx: usize)
        ensures
            final(self)@ == (PanelState { current_beat_index: Some(idx), ..old(self)@ }),
    {
        self.current_beat_index = Some(idx);
    }

    /// Opens or closes the pattern editor.
    pub fn toggle_measure_editor(&mut self)
        ensures
            final(self)@ == (PanelState {
                bar_editor_active: !old(self)@.bar_editor_active,
                ..old(self)@
            }),
    {
        self.bar_editor_active = !self.bar_editor_active;
    }

    /// Shows a new bar.
    pub fn set_bar(&mut self, bar: Bar)
        ensures
            final(self)@ == (PanelState { bar, ..old(self)@ }),
    {
        self.bar = bar;
    }

    /// Sets the tempo and gives the command that tells the engine.
    pub fn update_bpm(&mut self, bpm: u32) -> (cmd: MetronomeCmd)
        ensures
            final(self)@ == (PanelState { bpm, ..old(self)@ }),
            cmd == MetronomeCmd::SetBPM(bpm),
    {
        self.bpm = bpm;
        MetronomeCmd::SetBPM(bpm)
    }
}

/// Two clicks of the start/stop button leave the engine as it was, and a
/// running pendulum swinging again.
pub proof fn lemma_double_toggle(active: bool, state: AnimationState)
    ensures
        toggle_effect_of(
            toggle_effect_of(active, state).0,
            toggle_effect_of(active, state).1,
        ).0 == active,
        state == AnimationState::Running ==> toggle_effect_of(
            toggle_effect_of(active, state).0,
            toggle_effect_of(active, state).1,
        ).1 == AnimationState::Running,
{
}

} // verus!
