use gradus::beat::{next_accent, previous_accent, BeatAccent};

#[test]
fn left_click_cycle() {
    assert_eq!(next_accent(None), Some(BeatAccent::Weak));
    assert_eq!(next_accent(Some(BeatAccent::Weak)), Some(BeatAccent::SoftStrong));
    assert_eq!(next_accent(Some(BeatAccent::SoftStrong)), Some(BeatAccent::Strong));
    assert_eq!(next_accent(Some(BeatAccent::Strong)), None);
}

#[test]
fn right_click_cycle() {
    assert_eq!(previous_accent(None), Some(BeatAccent::Strong));
    assert_eq!(previous_accent(Some(BeatAccent::Strong)), Some(BeatAccent::SoftStrong));
    assert_eq!(previous_accent(Some(BeatAccent::SoftStrong)), Some(BeatAccent::Weak));
    assert_eq!(previous_accent(Some(BeatAccent::Weak)), None);
}

#[test]
fn clicks_undo_each_other_and_cycle_in_four() {
    let all = [None, Some(BeatAccent::Weak), Some(BeatAccent::SoftStrong), Some(BeatAccent::Strong)];
    for a in all {
        assert_eq!(previous_accent(next_accent(a)), a);
        assert_eq!(next_accent(previous_accent(a)), a);
        assert_eq!(next_accent(next_accent(next_accent(next_accent(a)))), a);
    }
}

#[test]
fn step_accent_volumes() {
    assert_eq!(BeatAccent::Strong.volume_percent(), 100);
    assert_eq!(BeatAccent::SoftStrong.volume_percent(), 50);
    assert_eq!(BeatAccent::Weak.volume_percent(), 25);
}
