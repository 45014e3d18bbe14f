//! A bar of the metronome's rhythm pattern: a time signature and one slot
//! per sixteenth note, each silent or carrying an accent.

use vstd::prelude::*;
use crate::text::{decimal_nat, push_decimal_u64, push_str};

verus! {

/// How strongly a sixteenth of the bar sounds.
#[derive(Debug, Clone, Copy, PartialEq, Eq, Structural)]
pub enum BeatAccent {
    Strong,
    SoftStrong,
    Weak,
}

impl BeatAccent {
    /// The loudness of the accent, in hundredths of the master volume.
    pub open spec fn volume_hundredths(self) -> u32 {
        match self {
            BeatAccent::Strong => 100,
            BeatAccent::SoftStrong => 65,
            BeatAccent::Weak => 40,
        }
    }

    /// The loudness of the accent in hundredths of the master volume
    /// (1, 0.65 and 0.4 of it).
    pub fn volume_percent(&self) -> (v: u32)
        ensures
            v == self.volume_hundredths(),
    {
        match self {
            BeatAccent::Strong => 100,
            BeatAccent::SoftStrong => 65,
            BeatAccent::Weak => 40,
        }
    }
}

/// One click forward on a slot: silence, weak, soft-strong, strong, and
/// back to silence.
pub open spec fn accent_after(a: Option<BeatAccent>) -> Option<BeatAccent> {
    match a {
        None => Some(BeatAccent::Weak),
        Some(BeatAccent::Weak) => Some(BeatAccent::SoftStrong),
        Some(BeatAccent::SoftStrong) => Some(BeatAccent::Strong),
        Some(BeatAccent::Strong) => None,
    }
}

/// One click backward on a slot: the cycle of `accent_after` run in reverse.
pub open spec fn accent_before(a: Option<BeatAccent>) -> Option<BeatAccent> {
    match a {
        None => Some(BeatAccent::Strong),
        Some(BeatAccent::Strong) => Some(BeatAccent::SoftStrong),
        Some(BeatAccent::SoftStrong) => Some(BeatAccent::Weak),
        Some(BeatAccent::Weak) => None,
    }
}

/// The number of sixteenths in a bar of `upper`/`lower` time, the quotient
/// rounded down.
pub open spec fn ticks_of(upper: u32, lower: u32) -> int {
    (upper * 16) / (lower as int)
}

/// The message of a position past the end of the bar.
pub open spec fn out_of_bounds_message(pos: nat) -> Seq<char> {
    "Position "@ + decimal_nat(pos) + " out of bounds"@
}

/// The pattern of the default 4/4 bar: a strong first beat, weak beats on
/// the other three quarters, silence in between.
pub open spec fn default_beats() -> Seq<Option<BeatAccent>> {
    seq![
        Some(BeatAccent::Strong), None, None, None,
        Some(BeatAccent::Weak), None, None, None,
        Some(BeatAccent::Weak), None, None, None,
        Some(BeatAccent::Weak), None, None, None,
    ]
}

#[derive(Debug, Clone)]
pub struct Bar {
    pub time_signature_upper: u32,
    pub time_signature_lower: u32,
    pub beats: Vec<Option<BeatAccent>>,
}

impl Bar {
    /// The default bar: 4/4 with a strong first beat and three weak ones.
    pub fn default_from_signature() -> (bar: Self)
        ensures
            bar.time_signature_upper == 4,
            bar.time_signature_lower == 4,
            bar.beats@ == default_beats(),
    {
        let beats = vec![
            Some(BeatAccent::Strong), None, None, None,
            Some(BeatAccent::Weak), None, None, None,
            Some(BeatAccent::Weak), None, None, None,
            Some(BeatAccent::Weak), None, None, None,
        ];
        Bar { time_signature_upper: 4, time_signature_lower: 4, beats }
    }

    /// A silent bar of `upper`/`lower` time with one slot per sixteenth.
    pub fn new(upper: u32, lower: u32) -> (bar: Self)
        requires
            lower != 0,
            upper * 16 <= u32::MAX,
        ensures
            bar.time_signature_upper == upper,
            bar.time_signature_lower == lower,
            bar.beats@ == Seq::new(ticks_of(upper, lower) as nat, |i: int| None::<BeatAccent>),
    {
        let ticks = (upper * 16) / lower;
        let mut beats: Vec<Option<BeatAccent>> = Vec::new();
        let mut i: u32 = 0;
        while i < ticks
            invariant
                i <= ticks,
                beats@ == Seq::new(i as nat, |k: int| None::<BeatAccent>),
            decreases ticks - i,
        {
            beats.push(None);
            i = i + 1;
        }
        Bar { time_signature_upper: upper, time_signature_lower: lower, beats }
    }

    /// Advances the accent of slot `at_pos` by one click (`accent_after`);
    /// a position past the end is refused with a message and changes nothing.
    pub fn next_beat_accent(&mut self, at_pos: usize) -> (r: Result<(), String>)
        ensures
            match r {
                Ok(()) => {
                    &&& at_pos < old(self).beats@.len()
                    &&& final(self).beats@ == old(self).beats@.update(
                        at_pos as int,
                        accent_after(old(self).beats@[at_pos as int]),
                    )
                    &&& final(self).time_signature_upper == old(self).time_signature_upper
                    &&& final(self).time_signature_lower == old(self).time_signature_lower
                },
                Err(msg) => {
                    &&& at_pos >= old(self).beats@.len()
                    &&& msg@ == out_of_bounds_message(at_pos as nat)
                    &&& *final(self) == *old(self)
                },
            },
    {
        if at_pos >= self.beats.len() {
            return Err(out_of_bounds(at_pos));
        }
        let next = match self.beats[at_pos] {
            Some(BeatAccent::Strong) => None,
            Some(BeatAccent::SoftStrong) => Some(BeatAccent::Strong),
            Some(BeatAccent::Weak) => Some(BeatAccent::SoftStrong),
            None => Some(BeatAccent::Weak),
        };
        self.beats.set(at_pos, next);
        Ok(())
    }

    /// Moves the accent of slot `at_pos` back by one click (`accent_before`);
    /// a position past the end is refused with a message and changes nothing.
    pub fn previous_beat_accent(&mut self, at_pos: usize) -> (r: Result<(), String>)
        ensures
            match r {
                Ok(()) => {
                    &&& at_pos < old(self).beats@.len()
                    &&& final(self).beats@ == old(self).beats@.update(
                        at_pos as int,
                        accent_before(old(self).beats@[at_pos as int]),
                    )
                    &&& final(self).time_signature_upper == old(self).time_signature_upper
                    &&& final(self).time_signature_lower == old(self).time_signature_lower
                },
                Err(msg) => {
                    &&& at_pos >= old(self).beats@.len()
                    &&& msg@ == out_of_bounds_message(at_pos as nat)
                    &&& *final(self) == *old(self)
                },
            },
    {
        if at_pos >= self.beats.len() {
            return Err(out_of_bounds(at_pos));
        }
        let previous = match self.beats[at_pos] {
            Some(BeatAccent::Strong) => Some(BeatAccent::SoftStrong),
            Some(BeatAccent::SoftStrong) => Some(BeatAccent::Weak),
            Some(BeatAccent::Weak) => None,
            None => Some(BeatAccent::Strong),
        };
        self.beats.set(at_pos, previous);
        Ok(())
    }

    /// The number of sixteenths in the bar's time signature.
    pub fn total_ticks(&self) -> (t: u32)
        requires
            self.time_signature_lower != 0,
            self.time_signature_upper * 16 <= u32::MAX,
        ensures
            t == ticks_of(self.time_signature_upper, self.time_signature_lower),
    {
        // Assumes base resolution of sixteenth beat (1/16)
        (self.time_signature_upper * 16) / self.time_signature_lower
    }
}

fn out_of_bounds(pos: usize) -> (msg: String)
    ensures
        msg@ == out_of_bounds_message(pos as nat),
{
    let mut msg = String::new();
    push_str(&mut msg, "Position ");
    push_decimal_u64(&mut msg, pos as u64);
    push_str(&mut msg, " out of bounds");
    msg
}

/// Clicking a slot backward undoes clicking it forward.
pub proof fn lemma_before_undoes_after(a: Option<BeatAccent>)
    ensures
        accent_before(accent_after(a)) == a,
{
}

/// Clicking a slot forward undoes clicking it backward.
pub proof fn lemma_after_undoes_before(a: Option<BeatAccent>)
    ensures
        accent_after(accent_before(a)) == a,
{
}

/// Four forward clicks bring a slot back to where it was.
pub proof fn lemma_accent_cycle(a: Option<BeatAccent>)
    ensures
        accent_after(accent_after(accent_after(accent_after(a)))) == a,
        accent_before(accent_before(accent_before(accent_before(a)))) == a,
{
}

/// On a bar, a backward click on a slot undoes a forward click on the same
/// slot, and the other way round; other slots are untouched by either.
pub proof fn lemma_bar_click_round_trip(beats: Seq<Option<BeatAccent>>, pos: int)
    requires
        0 <= pos < beats.len(),
    ensures
        beats.update(pos, accent_after(beats[pos])).update(
            pos,
            accent_before(beats.update(pos, accent_after(beats[pos]))[pos]),
        ) == beats,
        beats.update(pos, accent_before(beats[pos])).update(
            pos,
            accent_after(beats.update(pos, accent_before(beats[pos]))[pos]),
        ) == beats,
{
    assert(beats.update(pos, accent_after(beats[pos])).update(
        pos,
        accent_before(beats.update(pos, accent_after(beats[pos]))[pos]),
    ) =~= beats);
    assert(beats.update(pos, accent_before(beats[pos])).update(
        pos,
        accent_after(beats.update(pos, accent_before(beats[pos]))[pos]),
    ) =~= beats);
}

/// The loudness of a slot in hundredths of the full volume; silence is 0.
pub open spec fn loudness(a: Option<BeatAccent>) -> int {
    match a {
        Some(accent) => accent.volume_hundredths() as int,
        None => 0,
    }
}

/// A forward click makes a slot louder, except on the loudest accent, which
/// it silences; a backward click makes it quieter, except on silence, which
/// it makes the loudest accent. So the cycle runs silence, weak, soft-strong,
/// strong.
pub proof fn lemma_clicks_follow_loudness(a: Option<BeatAccent>)
    ensures
        a != Some(BeatAccent::Strong) ==> loudness(accent_after(a)) > loudness(a),
        a == Some(BeatAccent::Strong) ==> accent_after(a) is None,
        a is Some ==> loudness(accent_before(a)) < loudness(a),
        a is None ==> accent_before(a) == Some(BeatAccent::Strong),
        forall|b: BeatAccent| #[trigger] loudness(Some(b)) <= loudness(Some(BeatAccent::Strong)),
        forall|b: BeatAccent| #[trigger] loudness(Some(b)) > 0,
{
}

} // verus!
