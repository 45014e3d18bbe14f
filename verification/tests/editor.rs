use gradus::editor::{Bar, BeatAccent};

#[test]
fn default_bar_is_four_four_with_strong_downbeat() {
    let bar = Bar::default_from_signature();
    assert_eq!(bar.time_signature_upper, 4);
    assert_eq!(bar.time_signature_lower, 4);
    assert_eq!(bar.beats.len(), 16);
    assert_eq!(bar.beats[0], Some(BeatAccent::Strong));
    for i in 1..16 {
        if i % 4 == 0 {
            assert_eq!(bar.beats[i], Some(BeatAccent::Weak));
        } else {
            assert_eq!(bar.beats[i], None);
        }
    }
    assert_eq!(bar.total_ticks(), 16);
}

#[test]
fn new_bar_has_one_silent_slot_per_sixteenth() {
    let bar = Bar::new(3, 4);
    assert_eq!(bar.beats.len(), 12);
    assert!(bar.beats.iter().all(|b| b.is_none()));
    assert_eq!(bar.total_ticks(), 12);
    let bar = Bar::new(6, 8);
    assert_eq!(bar.beats.len(), 12);
    let bar = Bar::new(5, 3);
    assert_eq!(bar.beats.len(), 26);
    assert_eq!(bar.total_ticks(), 26);
}

#[test]
fn next_accent_cycles_through_accents() {
    let mut bar = Bar::new(1, 4);
    assert_eq!(bar.next_beat_accent(2), Ok(()));
    assert_eq!(bar.beats[2], Some(BeatAccent::Weak));
    bar.next_beat_accent(2).unwrap();
    assert_eq!(bar.beats[2], Some(BeatAccent::SoftStrong));
    bar.next_beat_accent(2).unwrap();
    assert_eq!(bar.beats[2], Some(BeatAccent::Strong));
    bar.next_beat_accent(2).unwrap();
    assert_eq!(bar.beats[2], None);
    assert_eq!(bar.beats, vec![None; 4]);
}

#[test]
fn previous_accent_cycles_backward() {
    let mut bar = Bar::new(1, 4);
    bar.previous_beat_accent(0).unwrap();
    assert_eq!(bar.beats[0], Some(BeatAccent::Strong));
    bar.previous_beat_accent(0).unwrap();
    assert_eq!(bar.beats[0], Some(BeatAccent::SoftStrong));
    bar.previous_beat_accent(0).unwrap();
    assert_eq!(bar.beats[0], Some(BeatAccent::Weak));
    bar.previous_beat_accent(0).unwrap();
    assert_eq!(bar.beats[0], None);
}

#[test]
fn previous_undoes_next() {
    let mut bar = Bar::default_from_signature();
    let before = bar.beats.clone();
    for pos in 0..16 {
        bar.next_beat_accent(pos).unwrap();
        bar.previous_beat_accent(pos).unwrap();
    }
    assert_eq!(bar.beats, before);
}

#[test]
fn out_of_bounds_positions_are_refused() {
    let mut bar = Bar::default_from_signature();
    assert_eq!(bar.next_beat_accent(16), Err("Position 16 out of bounds".to_string()));
    assert_eq!(bar.previous_beat_accent(123), Err("Position 123 out of bounds".to_string()));
    assert_eq!(bar.beats, Bar::default_from_signature().beats);
}

#[test]
fn editor_accent_volumes() {
    assert_eq!(BeatAccent::Strong.volume_percent(), 100);
    assert_eq!(BeatAccent::SoftStrong.volume_percent(), 65);
    assert_eq!(BeatAccent::Weak.volume_percent(), 40);
}
