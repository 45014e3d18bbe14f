use gradus::partiture_editor::{extract_modifier, PartitureEditor};

#[test]
fn new_editor_defaults() {
    let e = PartitureEditor::new();
    assert_eq!(e.header(), "X:1\nM:4/4\nL:1/4\nK:C\n");
    assert!(e.events().is_empty());
    assert_eq!(e.base_duration_sixteenths(), 4);
    assert_eq!(e.measure_capacity_sixteenths(), 16);
    assert_eq!(e.beam_group_duration_sixteenths(), 4);
}

#[test]
fn header_follows_settings() {
    let mut e = PartitureEditor::new();
    e.set_key("G".to_string());
    e.set_time("6/8".to_string());
    e.set_default_length("1/8".to_string());
    assert_eq!(e.header(), "X:1\nM:6/8\nL:1/8\nK:G\n");
    assert_eq!(e.time_signature(), "6/8");
    assert_eq!(e.base_duration_sixteenths(), 2);
    assert_eq!(e.measure_capacity_sixteenths(), 12);
    assert_eq!(e.beam_group_duration_sixteenths(), 6);
    e.set_time("3/4".to_string());
    e.set_default_length("1/16".to_string());
    assert_eq!(e.measure_capacity_sixteenths(), 12);
    assert_eq!(e.beam_group_duration_sixteenths(), 4);
    assert_eq!(e.base_duration_sixteenths(), 1);
    e.set_time("12/8".to_string());
    e.set_default_length("1/2".to_string());
    assert_eq!(e.measure_capacity_sixteenths(), 16);
    assert_eq!(e.beam_group_duration_sixteenths(), 6);
    assert_eq!(e.base_duration_sixteenths(), 4);
}

#[test]
fn pitch_tokens_carry_accidental_duration_and_dots() {
    let mut e = PartitureEditor::new();
    e.set_accidental("^".to_string());
    e.decrease_duration();
    e.increase_duration();
    e.set_dots(2);
    assert_eq!(e.pitch_modifier(), "//>>");
    assert_eq!(e.pitch_token("F"), "^F//>>");
    e.add_pitch("F", false);
    assert_eq!(e.events(), &vec!["^F//>>".to_string()]);
    // the accidental and the dots are used up, the duration stays
    assert_eq!(e.pitch_token("G"), "G//");
    e.add_pitch("G", true);
    assert_eq!(e.events(), &vec!["^F//>>".to_string(), "|".to_string(), "G//".to_string()]);
}

#[test]
fn rests_keep_the_dots() {
    let mut e = PartitureEditor::new();
    e.set_dots(1);
    e.add_rest();
    e.add_rest();
    assert_eq!(e.events(), &vec!["z>".to_string(), "z>".to_string()]);
}

#[test]
fn barlines_undo_and_closing() {
    let mut e = PartitureEditor::new();
    e.add_pitch("C", false);
    assert!(!e.ends_with_barline());
    assert_eq!(e.abc_document("C "), "X:1\nM:4/4\nL:1/4\nK:C\nC  |");
    e.add_barline();
    assert!(e.ends_with_barline());
    assert_eq!(e.abc_document("C  | "), "X:1\nM:4/4\nL:1/4\nK:C\nC  | ");
    e.undo();
    assert_eq!(e.events(), &vec!["C".to_string()]);
    e.undo();
    e.undo();
    assert!(e.events().is_empty());
}

#[test]
fn modifiers_drop_the_pitch() {
    assert_eq!(extract_modifier("C//>"), "//>");
    assert_eq!(extract_modifier("z"), "");
    assert_eq!(extract_modifier("éa"), "a");
}
