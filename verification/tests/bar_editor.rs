use gradus::bar_editor::{beat_diff, default_pattern, previous_tick_index, set_amount_of_beats};
use gradus::beat::BeatAccent;

#[test]
fn beat_differences() {
    assert_eq!(beat_diff(6, 16), 2);
    assert_eq!(beat_diff(2, 16), -2);
    assert_eq!(beat_diff(4, 16), 0);
    // rounded toward zero when the pattern is not made of whole beats
    assert_eq!(beat_diff(1, 5), 0);
    assert_eq!(beat_diff(0, 7), -1);
    assert_eq!(beat_diff(3, 5), 1);
}

#[test]
fn growing_adds_soft_strong_beats() {
    let mut beats = default_pattern();
    set_amount_of_beats(&mut beats, 6);
    assert_eq!(beats.len(), 24);
    assert_eq!(&beats[..16], &default_pattern()[..]);
    for i in 16..24 {
        if i % 4 == 0 {
            assert_eq!(beats[i], Some(BeatAccent::SoftStrong));
        } else {
            assert_eq!(beats[i], None);
        }
    }
}

#[test]
fn shrinking_removes_whole_beats() {
    let mut beats = default_pattern();
    set_amount_of_beats(&mut beats, 1);
    assert_eq!(beats, vec![Some(BeatAccent::Strong), None, None, None]);
    set_amount_of_beats(&mut beats, 0);
    assert!(beats.is_empty());
    set_amount_of_beats(&mut beats, 0);
    assert!(beats.is_empty());
}

#[test]
fn uneven_patterns_change_by_whole_beats() {
    let mut beats = vec![None; 7];
    set_amount_of_beats(&mut beats, 0);
    assert_eq!(beats.len(), 3);
}

#[test]
fn previous_tick_wraps_to_the_last_slot() {
    assert_eq!(previous_tick_index(5, 16), 4);
    assert_eq!(previous_tick_index(0, 16), 15);
}

#[test]
fn editor_starting_pattern() {
    let p = default_pattern();
    assert_eq!(p.len(), 16);
    assert_eq!(p[0], Some(BeatAccent::Strong));
    assert_eq!(p[4], Some(BeatAccent::Weak));
    assert_eq!(p[8], Some(BeatAccent::Weak));
    assert_eq!(p[12], Some(BeatAccent::Weak));
    assert_eq!(p.iter().filter(|b| b.is_some()).count(), 4);
}
