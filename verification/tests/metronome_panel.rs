use gradus::editor::Bar;
use gradus::metronome::MetronomeCmd;
use gradus::metronome_panel::{AnimationState, MetronomePanel, ToggleEffect};

#[test]
fn start_and_stop() {
    let mut p = MetronomePanel::new(Bar::default_from_signature());
    assert!(!p.is_active());
    assert_eq!(p.bpm(), 60);
    assert_eq!(p.current_beat_index(), Some(0));
    let (cmd, effect) = p.toggle_active();
    assert!(matches!(cmd, MetronomeCmd::Play));
    assert_eq!(effect, ToggleEffect::StartSwinging);
    assert!(p.is_active());
    assert_eq!(p.animation_state(), AnimationState::Running);
    let (cmd, effect) = p.toggle_active();
    assert!(matches!(cmd, MetronomeCmd::Stop));
    assert_eq!(effect, ToggleEffect::StartStopping);
    assert_eq!(p.animation_state(), AnimationState::Stopping);
    let (cmd, effect) = p.toggle_active();
    assert!(matches!(cmd, MetronomeCmd::Play));
    assert_eq!(effect, ToggleEffect::ResumeSwinging);
    assert_eq!(p.animation_state(), AnimationState::Running);
}

#[test]
fn pendulum_settles_after_the_stop_animation() {
    let mut p = MetronomePanel::new(Bar::default_from_signature());
    assert!(!p.animation_tick(Some(1000)));
    p.toggle_active();
    assert!(!p.animation_tick(Some(1000)));
    p.toggle_active();
    assert!(!p.animation_tick(Some(300)));
    assert!(!p.animation_tick(None));
    assert_eq!(p.animation_state(), AnimationState::Stopping);
    assert!(p.animation_tick(Some(301)));
    assert_eq!(p.animation_state(), AnimationState::Idle);
}

#[test]
fn ticks_editor_and_tempo() {
    let mut p = MetronomePanel::new(Bar::default_from_signature());
    p.tick_received(7);
    assert_eq!(p.current_beat_index(), Some(7));
    assert!(!p.bar_editor_active());
    p.toggle_measure_editor();
    assert!(p.bar_editor_active());
    match p.update_bpm(120) {
        MetronomeCmd::SetBPM(b) => assert_eq!(b, 120),
        _ => panic!("expected a tempo command"),
    }
    assert_eq!(p.bpm(), 120);
    p.set_bar(Bar::new(3, 4));
    assert_eq!(p.bar().beats.len(), 12);
}
