//! The accent of one step in the bar editor, and the click cycle that the
//! editor's buttons run through.

use vstd::prelude::*;

verus! {

/// How strongly a step sounds.
#[derive(Debug, Clone, Copy, PartialEq, Eq, Structural)]
pub enum BeatAccent {
    Strong,
    SoftStrong,
    Weak,
}

impl BeatAccent {
    /// The loudness of the accent, in hundredths of the full volume.
    pub open spec fn volume_hundredths(self) -> u32 {
        match self {
            BeatAccent::Strong => 100,
            BeatAccent::SoftStrong => 50,
            BeatAccent::Weak => 25,
        }
    }

    /// The loudness of the accent in hundredths of the full volume
    /// (1, 0.5 and 0.25 of it).
    pub fn volume_percent(&self) -> (v: u32)
        ensures
            v == self.volume_hundredths(),
    {
        match self {
            BeatAccent::Strong => 100,
            BeatAccent::SoftStrong => 50,
            BeatAccent::Weak => 25,
        }
    }
}

/// A left click on a step: silence, weak, soft-strong, strong, and back to
/// silence.
pub open spec fn accent_after(a: Option<BeatAccent>) -> Option<BeatAccent> {
    match a {
        None => Some(BeatAccent::Weak),
        Some(BeatAccent::Weak) => Some(BeatAccent::SoftStrong),
        Some(BeatAccent::SoftStrong) => Some(BeatAccent::Strong),
        Some(BeatAccent::Strong) => None,
    }
}

/// A right click on a step: the cycle of `accent_after` run in reverse.
pub open spec fn accent_before(a: Option<BeatAccent>) -> Option<BeatAccent> {
    match a {
        None => Some(BeatAccent::Strong),
        Some(BeatAccent::Strong) => Some(BeatAccent::SoftStrong),
        Some(BeatAccent::SoftStrong) => Some(BeatAccent::Weak),
        Some(BeatAccent::Weak) => None,
    }
}

/// The accent of a step after a left click.
pub fn next_accent(accent: Option<BeatAccent>) -> (r: Option<BeatAccent>)
    ensures
        r == accent_after(accent),
{
    match accent {
        Some(BeatAccent::Strong) => None,
        Some(BeatAccent::SoftStrong) => Some(BeatAccent::Strong),
        Some(BeatAccent::Weak) => Some(BeatAccent::SoftStrong),
        None => Some(BeatAccent::Weak),
    }
}

/// The accent of a step after a right click.
pub fn previous_accent(accent: Option<BeatAccent>) -> (r: Option<BeatAccent>)
    ensures
        r == accent_before(accent),
{
    match accent {
        Some(BeatAccent::Strong) => Some(BeatAccent::SoftStrong),
        Some(BeatAccent::SoftStrong) => Some(BeatAccent::Weak),
        Some(BeatAccent::Weak) => None,
        None => Some(BeatAccent::Strong),
    }
}

/// A right click undoes a left click, and a left click undoes a right click.
pub proof fn lemma_clicks_undo_each_other(a: Option<BeatAccent>)
    ensures
        accent_before(accent_after(a)) == a,
        accent_after(accent_before(a)) == a,
{
}

/// Four clicks of the same button bring a step back to where it was.
pub proof fn lemma_click_cycle(a: Option<BeatAccent>)
    ensures
        accent_after(accent_after(accent_after(accent_after(a)))) == a,
        accent_before(accent_before(accent_before(accent_before(a)))) == a,
{
}

/// The loudness of a slot in hundredths of the full volume; silence is 0.
pub open spec fn loudness(a: Option<BeatAccent>) -> int {
    match a {
        Some(accent) => accent.volume_hundredths() as int,
        None => 0,
    }
}

/// A forward click makes a slot louder, except on the loudest accent, which
/// it silences; a backward click makes it quieter, except on silence, which
/// it makes the loudest accent. So the cycle runs silence, weak, soft-strong,
/// strong.
pub proof fn lemma_clicks_follow_loudness(a: Option<BeatAccent>)
    ensures
        a != Some(BeatAccent::Strong) ==> loudness(accent_after(a)) > loudness(a),
        a == Some(BeatAccent::Strong) ==> accent_after(a) is None,
        a is Some ==> loudness(accent_before(a)) < loudness(a),
        a is None ==> accent_before(a) == Some(BeatAccent::Strong),
        forall|b: BeatAccent| #[trigger] loudness(Some(b)) <= loudness(Some(BeatAccent::Strong)),
        forall|b: BeatAccent| #[trigger] loudness(Some(b)) > 0,
{
}

} // verus!
