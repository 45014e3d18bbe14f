//! The metronome: the commands and events it exchanges with the interface,
//! and the step sequencer that decides, frame by frame, when the next
//! sixteenth of the bar starts and how loud it is.

use vstd::prelude::*;
use crate::editor::{Bar, BeatAccent};

verus! {

#[verifier::external_type_specification]
#[verifier::external_body]
#[verifier::reject_recursive_types(T)]
pub struct ExSender<T>(std::sync::mpsc::Sender<T>);

/// What the interface asks of the running metronome.
pub enum MetronomeCmd {
    SetBPM(u32),
    SetMeasure(Bar),
    Play,
    Stop,
}

/// What the running metronome reports: the slot of the bar that just began.
pub enum MetronomeEvent {
    Tick(usize),
}

/// A metronome that has not started yet: its bar and where its ticks go.
#[derive(Debug)]
pub struct Metronome {
    pub is_playing: bool,
    measure: Bar,
    event_sender: Option<std::sync::mpsc::Sender<MetronomeEvent>>,
}

impl Metronome {
    /// Whether the metronome is running.
    pub closed spec fn playing(&self) -> bool {
        self.is_playing
    }

    /// The bar the metronome will play.
    pub closed spec fn measure(&self) -> Bar {
        self.measure
    }

    /// Where the metronome will send its ticks.
    pub closed spec fn event_sender(&self) -> Option<std::sync::mpsc::Sender<MetronomeEvent>> {
        self.event_sender
    }

    /// A stopped metronome for `measure` that reports its ticks to `sender`.
    pub fn new(measure: Bar, sender: std::sync::mpsc::Sender<MetronomeEvent>) -> (m: Self)
        ensures
            !m.playing(),
            m.measure() == measure,
            m.event_sender() == Some(sender),
    {
        Metronome { is_playing: false, measure, event_sender: Some(sender) }
    }

    /// The bar and the tick channel, handed to the audio engine when it starts.
    pub fn into_parts(self) -> (r: (Bar, Option<std::sync::mpsc::Sender<MetronomeEvent>>))
        ensures
            r.0 == self.measure(),
            r.1 == self.event_sender(),
    {
        (self.measure, self.event_sender)
    }
}

/// The largest number of samples per beat for which the sample counter,
/// which grows in steps of four, cannot overflow.
pub const MAX_SAMPLES_PER_BEAT: u32 = 0xffff_fffc;

/// The slot that follows slot `index` in a bar of `len` slots, wrapping to
/// the first slot after the last one (and from anywhere past the end).
pub open spec fn index_after(index: int, len: int) -> int {
    if index + 1 >= len {
        0
    } else {
        index + 1
    }
}

/// The slot reached from `index` after `k` ticks.
pub open spec fn index_after_ticks(index: int, len: int, k: nat) -> int
    decreases k,
{
    if k == 0 {
        index
    } else {
        index_after(index_after_ticks(index, len, (k - 1) as nat), len)
    }
}

/// What the step sequencer holds, as plain values.
pub struct SequencerState {
    pub playing: bool,
    pub samples_per_beat: u32,
    pub sample_count: u32,
    pub beep_duration: u32,
    pub beats: Seq<Option<BeatAccent>>,
    pub rhythm_index: usize,
}

/// The integer heart of the metronome's synthesizer: a sample counter that
/// advances four samples per audio frame and, whenever it reaches the
/// length of a beat, starts the next slot of the bar.
pub struct StepSequencer {
    is_playing: bool,
    samples_per_beat: u32,
    current_sample_count: u32,
    beep_duration: u32,
    measure: Bar,
    current_rhythm_index: usize,
}

impl View for StepSequencer {
    type V = SequencerState;

    closed spec fn view(&self) -> SequencerState {
        SequencerState {
            playing: self.is_playing,
            samples_per_beat: self.samples_per_beat,
            sample_count: self.current_sample_count,
            beep_duration: self.beep_duration,
            beats: self.measure.beats@,
            rhythm_index: self.current_rhythm_index,
        }
    }
}

/// The bounds that keep the sequencer's counters from overflowing.
pub open spec fn sequencer_bounds(s: SequencerState) -> bool {
    &&& s.samples_per_beat <= MAX_SAMPLES_PER_BEAT
    &&& s.sample_count <= u32::MAX - 4
    &&& s.rhythm_index < usize::MAX
}

impl StepSequencer {
    #[verifier::type_invariant]
    closed spec fn counters_bounded(self) -> bool {
        sequencer_bounds(self@)
    }

    /// A stopped sequencer at the start of `measure`, with beats of
    /// `samples_per_beat` samples and beeps of `beep_duration` samples.
    pub fn new(samples_per_beat: u32, beep_duration: u32, measure: Bar) -> (s: Self)
        requires
            samples_per_beat <= MAX_SAMPLES_PER_BEAT,
        ensures
            s@ == (SequencerState {
                playing: false,
                samples_per_beat,
                sample_count: 0,
                beep_duration,
                beats: measure.beats@,
                rhythm_index: 0,
            }),
    {
        StepSequencer {
            is_playing: false,
            samples_per_beat,
            current_sample_count: 0,
            beep_duration,
            measure,
            current_rhythm_index: 0,
        }
    }

    /// Whether the sequencer is running.
    pub fn is_playing(&self) -> (b: bool)
        ensures
            b == self@.playing,
    {
        self.is_playing
    }

    /// The length of a beep, in samples.
    pub fn beep_duration(&self) -> (d: u32)
        ensures
            d == self@.beep_duration,
    {
        self.beep_duration
    }

    /// The sample count within the current beat while its beep still sounds,
    /// and nothing once the beep is over.
    pub fn beep_position(&self) -> (p: Option<u32>)
        ensures
            p == (if self@.sample_count < self@.beep_duration {
                Some(self@.sample_count)
            } else {
                None::<u32>
            }),
    {
        if self.current_sample_count < self.beep_duration {
            Some(self.current_sample_count)
        } else {
            None
        }
    }

    /// Slot `index` of the bar, if the bar has one.
    pub fn slot(&self, index: usize) -> (r: Option<Option<BeatAccent>>)
        ensures
            r == (if index < self@.beats.len() {
                Some(self@.beats[index as int])
            } else {
                None::<Option<BeatAccent>>
            }),
    {
        if index < self.measure.beats.len() {
            Some(self.measure.beats[index])
        } else {
            None
        }
    }

    /// Replaces the bar; the position in it is kept.
    pub fn set_measure(&mut self, new_measure: Bar)
        ensures
            final(self)@ == (SequencerState { beats: new_measure.beats@, ..old(self)@ }),
    {
        proof {
            use_type_invariant(&*self);
        }
        self.measure = new_measure;
    }

    /// Changes the length of a beat.
    pub fn set_samples_per_beat(&mut self, samples_per_beat: u32)
        requires
            samples_per_beat <= MAX_SAMPLES_PER_BEAT,
        ensures
            final(self)@ == (SequencerState { samples_per_beat, ..old(self)@ }),
    {
        proof {
            use_type_invariant(&*self);
        }
        self.samples_per_beat = samples_per_beat;
    }

    /// Starts the sequencer where it stands.
    pub fn play(&mut self)
        ensures
            final(self)@ == (SequencerState { playing: true, ..old(self)@ }),
    {
        proof {
            use_type_invariant(&*self);
        }
        self.is_playing = true;
    }

    /// Stops the sequencer and rewinds the current beat to its start.
    pub fn stop(&mut self)
        ensures
            final(self)@ == (SequencerState { playing: false, sample_count: 0, ..old(self)@ }),
    {
        proof {
            use_type_invariant(&*self);
        }
        self.is_playing = false;
        self.current_sample_count = 0;
    }

    /// One audio frame: the counter advances four samples; when it reaches the
    /// length of a beat it restarts, the next slot of the bar begins, and that
    /// slot is returned as a tick.
    pub fn step(&mut self) -> (tick: Option<usize>)
        ensures
            ({
                let o = old(self)@;
                let n = final(self)@;
                &&& n.playing == o.playing
                &&& n.samples_per_beat == o.samples_per_beat
                &&& n.beep_duration == o.beep_duration
                &&& n.beats == o.beats
                &&& if o.sample_count + 4 >= o.samples_per_beat {
                    &&& n.sample_count == 0
                    &&& n.rhythm_index == index_after(o.rhythm_index as int, o.beats.len() as int)
                    &&& tick == Some(n.rhythm_index)
                } else {
                    &&& n.sample_count == o.sample_count + 4
                    &&& n.rhythm_index == o.rhythm_index
                    &&& tick is None
                }
            }),
    {
        proof {
            use_type_invariant(&*self);
        }
        let count = self.current_sample_count + 4;
        if count >= self.samples_per_beat {
            self.current_sample_count = 0;
            let next = self.current_rhythm_index + 1;
            if next >= self.measure.beats.len() {
                self.current_rhythm_index = 0;
            } else {
                self.current_rhythm_index = next;
            }
            Some(self.current_rhythm_index)
        } else {
            self.current_sample_count = count;
            None
        }
    }
}

/// After a tick the sequencer stands inside the bar (at its first slot when
/// the bar is empty).
pub proof fn lemma_tick_lands_in_bar(index: int, len: int)
    requires
        0 <= index,
        0 <= len,
    ensures
        len > 0 ==> 0 <= index_after(index, len) < len,
        len == 0 ==> index_after(index, len) == 0,
{
}

/// From a slot inside the bar, `k` ticks lead to slot `(index + k) mod len`:
/// the metronome plays the bar's slots in order and starts over after the
/// last one.
pub proof fn lemma_ticks_walk_the_bar(index: int, len: int, k: nat)
    requires
        0 <= index < len,
    ensures
        index_after_ticks(index, len, k) == (index + k) % len,
    decreases k,
{
    if k == 0 {
        assert((index + 0) % len == index) by (nonlinear_arith)
            requires
                0 <= index < len,
        ;
    } else {
        lemma_ticks_walk_the_bar(index, len, (k - 1) as nat);
        let prev = (index + k - 1) % len;
        assert(0 <= prev < len) by (nonlinear_arith)
            requires
                len > 0,
                prev == (index + k - 1) % len,
        ;
        if prev + 1 >= len {
            assert((index + k) % len == 0) by (nonlinear_arith)
                requires
                    len > 0,
                    prev == (index + k - 1) % len,
                    prev + 1 >= len,
                    prev < len,
            ;
        } else {
            assert((index + k) % len == prev + 1) by (nonlinear_arith)
                requires
                    len > 0,
                    prev == (index + k - 1) % len,
                    prev + 1 < len,
                    0 <= prev,
            ;
        }
    }
}

/// After as many ticks as the bar has slots, the metronome is back at the
/// slot it started from.
pub proof fn lemma_bar_comes_round(index: int, len: int)
    requires
        0 <= index < len,
    ensures
        index_after_ticks(index, len, len as nat) == index,
{
    lemma_ticks_walk_the_bar(index, len, len as nat);
    assert((index + len) % len == index) by (nonlinear_arith)
        requires
            0 <= index < len,
    ;
}

/// The sample counter `k` frames after the start of a beat of
/// `samples_per_beat` samples, following the rule of `StepSequencer::step`.
pub open spec fn counter_after(samples_per_beat: int, k: nat) -> int
    decreases k,
{
    if k == 0 {
        0
    } else {
        let c = counter_after(samples_per_beat, (k - 1) as nat) + 4;
        if c >= samples_per_beat {
            0
        } else {
            c
        }
    }
}

/// Whether the `k`-th frame after the start of a beat (from 1) starts the
/// next slot.
pub open spec fn ticks_on_frame(samples_per_beat: int, k: nat) -> bool
    recommends
        k >= 1,
{
    counter_after(samples_per_beat, (k - 1) as nat) + 4 >= samples_per_beat
}

/// The number of frames a slot lasts: the samples of a beat at four samples
/// per frame, rounded up, and at least one.
pub open spec fn frames_per_slot(samples_per_beat: int) -> int {
    if samples_per_beat <= 4 {
        1
    } else {
        (samples_per_beat + 3) / 4
    }
}

/// A slot lasts `frames_per_slot` frames: counting from the start of a slot,
/// no frame before that one starts the next slot, and that one does.
pub proof fn lemma_slot_length(samples_per_beat: int, k: nat)
    requires
        samples_per_beat >= 0,
        1 <= k <= frames_per_slot(samples_per_beat),
    ensures
        ticks_on_frame(samples_per_beat, k) <==> k == frames_per_slot(samples_per_beat),
    decreases k,
{
    lemma_counter_counts_up(samples_per_beat, (k - 1) as nat);
    let f = frames_per_slot(samples_per_beat);
    assert(4 * (f - 1) < samples_per_beat || samples_per_beat <= 4) by (nonlinear_arith)
        requires
            f == frames_per_slot(samples_per_beat),
            samples_per_beat >= 0,
    ;
    assert(4 * f >= samples_per_beat) by (nonlinear_arith)
        requires
            f == frames_per_slot(samples_per_beat),
            samples_per_beat >= 0,
    ;
}

proof fn lemma_counter_counts_up(samples_per_beat: int, k: nat)
    requires
        samples_per_beat >= 0,
        k < frames_per_slot(samples_per_beat),
    ensures
        counter_after(samples_per_beat, k) == 4 * k,
    decreases k,
{
    if k > 0 {
        lemma_counter_counts_up(samples_per_beat, (k - 1) as nat);
        assert(4 * k < samples_per_beat) by (nonlinear_arith)
            requires
                k < frames_per_slot(samples_per_beat),
                k >= 1,
                samples_per_beat >= 0,
        ;
    }
}

} // verus!
