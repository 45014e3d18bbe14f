use gradus::note_detector::{calculate_key_and_octave, format_note, musical_key};
use gradus::notedetector;

fn nearest_key(frequency: f32) -> i32 {
    let note_approximation: f32 = 12. * (frequency / 440.).log2() + 49.;
    note_approximation.round() as i32
}

#[test]
fn test_border_cases_between_octaves() {
    let test_cases = [(27.5, "A_0"), (30.86771, "B_0"), (32.70320, "C_1")];
    for (input, expected) in test_cases {
        let (key, octave) = calculate_key_and_octave(nearest_key(input));
        let result = format_note(key, octave);
        assert_eq!(result, expected, "Test failed with input: {}", input);
    }
}

#[test]
fn test_frequency_c_middle() {
    let freq = 261.63;
    let (key, octave) = calculate_key_and_octave(nearest_key(freq));
    let note_str = format_note(key, octave);

    assert_eq!(octave, 4, "Octave should be 4");
    assert_eq!(key, 4, "Key should be 4");
    assert_eq!(note_str, "C_4");
}

#[test]
fn key_names_count_from_a() {
    let names = ["A", "A#", "B", "C", "C#", "D", "D#", "E", "F", "F#", "G", "G#"];
    for (i, name) in names.iter().enumerate() {
        assert_eq!(musical_key(i as i32 + 1), *name);
    }
    assert_eq!(musical_key(0), "???");
    assert_eq!(musical_key(13), "???");
    assert_eq!(musical_key(-3), "???");
}

#[test]
fn a4_is_key_one_of_octave_four() {
    assert_eq!(calculate_key_and_octave(49), (1, 4));
    assert_eq!(format_note(1, 4), "A_4");
}

#[test]
fn g_sharp_has_no_name() {
    // key 48 (G#4) leaves remainder 0, which has no name
    assert_eq!(calculate_key_and_octave(48), (0, 4));
    assert_eq!(format_note(0, 4), "???_4");
}

#[test]
fn twelve_keys_up_is_the_next_octave() {
    let (k1, o1) = calculate_key_and_octave(40);
    let (k2, o2) = calculate_key_and_octave(52);
    assert_eq!(k1, k2);
    assert_eq!(o2, o1 + 1);
}

#[test]
fn octave_changes_at_c() {
    assert_eq!(calculate_key_and_octave(39), (3, 3));
    assert_eq!(calculate_key_and_octave(40), (4, 4));
}

#[test]
fn low_keys_round_toward_zero() {
    assert_eq!(calculate_key_and_octave(-20), (-8, -1));
    assert_eq!(format_note(-8, -1), "???_-1");
    assert_eq!(calculate_key_and_octave(i32::MIN), (-8, -178956970));
}

#[test]
fn format_note_writes_large_octaves() {
    assert_eq!(format_note(5, 123), "C#_123");
    assert_eq!(format_note(12, i32::MIN), "G#_-2147483648");
}

#[test]
fn standalone_tuner_counts_from_c() {
    assert_eq!(notedetector::calculate_key_and_octave(40), (1, 4));
    assert_eq!(notedetector::format_note(1, 4), "C_4");
    assert_eq!(notedetector::calculate_key_and_octave(49), (10, 4));
    assert_eq!(notedetector::musical_key(10), "A");
    assert_eq!(notedetector::musical_key(12), "B");
    assert_eq!(notedetector::musical_key(0), "???");
    // B3 (key 39) lands on remainder 0 of the next octave
    assert_eq!(notedetector::calculate_key_and_octave(39), (0, 4));
    assert_eq!(notedetector::calculate_key_and_octave(-20), (-11, 0));
}
