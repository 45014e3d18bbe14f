use gradus::editor::{Bar, BeatAccent};
use gradus::metronome::{Metronome, MetronomeEvent, StepSequencer, MAX_SAMPLES_PER_BEAT};
use std::sync::mpsc;

fn bar_of(len: usize) -> Bar {
    Bar { time_signature_upper: 4, time_signature_lower: 4, beats: vec![None; len] }
}

#[test]
fn new_metronome_is_stopped_and_keeps_its_bar() {
    let (tx, rx) = mpsc::channel();
    let m = Metronome::new(Bar::default_from_signature(), tx);
    assert!(!m.is_playing);
    let (bar, sender) = m.into_parts();
    assert_eq!(bar.beats, Bar::default_from_signature().beats);
    sender.unwrap().send(MetronomeEvent::Tick(3)).unwrap();
    match rx.recv().unwrap() {
        MetronomeEvent::Tick(i) => assert_eq!(i, 3),
    }
}

#[test]
fn ticks_every_samples_per_beat_over_four_frames() {
    let mut s = StepSequencer::new(10, 3, bar_of(4));
    // counter 4, 8, then 12 >= 10: the next slot starts
    assert_eq!(s.step(), None);
    assert_eq!(s.step(), None);
    assert_eq!(s.step(), Some(1));
    assert_eq!(s.step(), None);
    assert_eq!(s.step(), None);
    assert_eq!(s.step(), Some(2));
}

#[test]
fn ticks_wrap_around_the_bar() {
    let mut s = StepSequencer::new(4, 0, bar_of(3));
    assert_eq!(s.step(), Some(1));
    assert_eq!(s.step(), Some(2));
    assert_eq!(s.step(), Some(0));
    assert_eq!(s.step(), Some(1));
}

#[test]
fn empty_bar_ticks_on_slot_zero() {
    let mut s = StepSequencer::new(0, 0, bar_of(0));
    assert_eq!(s.step(), Some(0));
    assert_eq!(s.step(), Some(0));
    assert_eq!(s.slot(0), None);
}

#[test]
fn shorter_bar_wraps_on_next_tick() {
    let mut s = StepSequencer::new(4, 0, bar_of(8));
    for _ in 0..5 {
        s.step();
    }
    s.set_measure(bar_of(2));
    assert_eq!(s.step(), Some(0));
}

#[test]
fn stop_rewinds_the_beat() {
    let mut s = StepSequencer::new(100, 40, Bar::default_from_signature());
    assert!(!s.is_playing());
    s.play();
    assert!(s.is_playing());
    s.step();
    s.step();
    assert_eq!(s.beep_position(), Some(8));
    s.stop();
    assert!(!s.is_playing());
    assert_eq!(s.beep_position(), Some(0));
}

#[test]
fn beep_sounds_for_its_duration() {
    let mut s = StepSequencer::new(100, 8, bar_of(2));
    assert_eq!(s.beep_duration(), 8);
    assert_eq!(s.beep_position(), Some(0));
    s.step();
    assert_eq!(s.beep_position(), Some(4));
    s.step();
    assert_eq!(s.beep_position(), None);
}

#[test]
fn slots_and_tempo_changes() {
    let mut s = StepSequencer::new(8, 0, Bar::default_from_signature());
    assert_eq!(s.slot(0), Some(Some(BeatAccent::Strong)));
    assert_eq!(s.slot(1), Some(None));
    assert_eq!(s.slot(16), None);
    s.set_samples_per_beat(4);
    assert_eq!(s.step(), Some(1));
    s.set_samples_per_beat(MAX_SAMPLES_PER_BEAT);
    assert_eq!(s.step(), None);
}

#[test]
fn bar_comes_round_after_its_length() {
    let mut s = StepSequencer::new(1, 0, bar_of(5));
    let mut seen = Vec::new();
    for _ in 0..10 {
        seen.push(s.step().unwrap());
    }
    assert_eq!(seen, vec![1, 2, 3, 4, 0, 1, 2, 3, 4, 0]);
}
