//! The bar editor's pattern: four slots (sixteenths) per beat, grown or
//! shrunk a whole beat at a time, and the highlight that follows the ticks.

use vstd::prelude::*;
use crate::beat::BeatAccent;
use crate::note_detector::{div_toward_zero, trunc_div};

verus! {

/// The editor's starting pattern: four beats of four sixteenths, the first
/// beat strong and the others weak on their first sixteenth.
pub open spec fn starting_pattern() -> Seq<Option<BeatAccent>> {
    seq![
        Some(BeatAccent::Strong), None, None, None,
        Some(BeatAccent::Weak), None, None, None,
        Some(BeatAccent::Weak), None, None, None,
        Some(BeatAccent::Weak), None, None, None,
    ]
}

/// The pattern the bar editor starts with.
pub fn default_pattern() -> (p: Vec<Option<BeatAccent>>)
    ensures
        p@ == starting_pattern(),
{
    let mut p: Vec<Option<BeatAccent>> = Vec::new();
    p.push(Some(BeatAccent::Strong));
    p.push(None);
    p.push(None);
    p.push(None);
    let mut k: u32 = 1;
    while k < 4
        invariant
            1 <= k <= 4,
            p@.len() == 4 * k,
            forall|i: int| 0 <= i < p@.len() ==> #[trigger] p@[i] == starting_pattern()[i],
        decreases 4 - k,
    {
        p.push(Some(BeatAccent::Weak));
        p.push(None);
        p.push(None);
        p.push(None);
        k = k + 1;
    }
    assert(p@ =~= starting_pattern());
    p
}

/// The number of beats to add (positive) or remove (negative) so that a
/// pattern of `len` slots holds `amount_of_beats` beats; the quotient is
/// rounded toward zero.
pub open spec fn beat_difference(amount_of_beats: int, len: int) -> int {
    trunc_div(4 * amount_of_beats - len, 4)
}

/// `beats` beats of the kind the editor adds: a soft-strong sixteenth
/// followed by three silent ones.
pub open spec fn added_beats(beats: nat) -> Seq<Option<BeatAccent>> {
    Seq::new(
        4 * beats,
        |i: int|
            if i % 4 == 0 {
                Some(BeatAccent::SoftStrong)
            } else {
                None::<BeatAccent>
            },
    )
}

/// The pattern after asking for `amount_of_beats` beats: whole beats are
/// appended at the end, or whole beats' worth of slots removed from it.
pub open spec fn resized_pattern(beats: Seq<Option<BeatAccent>>, amount_of_beats: int) -> Seq<
    Option<BeatAccent>,
> {
    let d = beat_difference(amount_of_beats, beats.len() as int);
    if d > 0 {
        beats + added_beats(d as nat)
    } else {
        beats.take(beats.len() + 4 * d)
    }
}

/// The number of beats to add (positive) or remove (negative) to reach
/// `amount_of_beats` beats from a pattern of `current_len` slots.
pub fn beat_diff(amount_of_beats: u32, current_len: usize) -> (d: i32)
    requires
        4 * amount_of_beats <= i32::MAX,
        current_len <= i32::MAX,
    ensures
        d == beat_difference(amount_of_beats as int, current_len as int),
{
    let wanted = (amount_of_beats * 4) as i32;
    let have = current_len as i32;
    div_toward_zero(wanted - have, 4)
}

/// Sets the number of beats of the pattern: adds beats of a soft-strong
/// sixteenth and three silent ones, or removes the last slots a beat
/// (four slots) at a time.
pub fn set_amount_of_beats(beats: &mut Vec<Option<BeatAccent>>, amount_of_beats: u32)
    requires
        4 * amount_of_beats <= i32::MAX,
        old(beats)@.len() <= i32::MAX,
    ensures
        final(beats)@ == resized_pattern(old(beats)@, amount_of_beats as int),
        forall|i: int|
            0 <= i < final(beats)@.len() && i < old(beats)@.len() ==> #[trigger] final(beats)@[i]
                == old(beats)@[i],
        forall|i: int|
            old(beats)@.len() <= i < final(beats)@.len() ==> #[trigger] final(beats)@[i] == if (i
                - old(beats)@.len()) % 4 == 0 {
                Some(BeatAccent::SoftStrong)
            } else {
                None::<BeatAccent>
            },
        (final(beats)@.len() - old(beats)@.len()) % 4 == 0,
        old(beats)@.len() <= 4 * amount_of_beats ==> old(beats)@.len() <= final(beats)@.len()
            <= 4 * amount_of_beats < final(beats)@.len() + 4,
        old(beats)@.len() > 4 * amount_of_beats ==> 4 * amount_of_beats <= final(beats)@.len()
            <= old(beats)@.len() && final(beats)@.len() < 4 * amount_of_beats + 4,
{
    proof {
        lemma_resize_shape(old(beats)@, amount_of_beats as nat);
    }
    let diff = beat_diff(amount_of_beats, beats.len());
    let ghost start = beats@;
    if diff > 0 {
        let mut k: i32 = 0;
        while k < diff
            invariant
                0 <= k <= diff,
                beats@ == start + added_beats(k as nat),
            decreases diff - k,
        {
            beats.push(Some(BeatAccent::SoftStrong));
            beats.push(None);
            beats.push(None);
            beats.push(None);
            assert(beats@ =~= start + added_beats((k + 1) as nat));
            k = k + 1;
        }
    } else if diff < 0 {
        let remove = -diff;
        assert(4 * remove <= start.len()) by (nonlinear_arith)
            requires
                remove == -diff,
                diff == trunc_div(4 * amount_of_beats - start.len(), 4),
                diff < 0,
                amount_of_beats >= 0,
        ;
        let mut k: i32 = 0;
        while k < remove
            invariant
                0 <= k <= remove,
                4 * remove <= start.len(),
                beats@ == start.take(start.len() - 4 * k),
            decreases remove - k,
        {
            beats.pop();
            beats.pop();
            beats.pop();
            beats.pop();
            assert(beats@ =~= start.take(start.len() - 4 * (k + 1)));
            k = k + 1;
        }
    } else {
        assert(start.take(start.len() as int) == start);
    }
}

/// The slot ticked before slot `idx`: the previous one, or the last slot
/// when `idx` is the first.
pub fn previous_tick_index(idx: usize, len: usize) -> (p: usize)
    requires
        idx > 0 || len > 0,
    ensures
        p == (if idx > 0 { idx - 1 } else { len - 1 }),
{
    if idx > 0 {
        idx - 1
    } else {
        len - 1
    }
}

/// Resizing keeps the slots the old and new patterns share; every slot it
/// adds belongs to a beat of a soft-strong sixteenth and three silent ones,
/// counted from the old end; it adds or removes whole beats only; and it
/// stops at the whole-beat length nearest to the asked-for number of beats on
/// the side of the old length.
pub proof fn lemma_resize_shape(beats: Seq<Option<BeatAccent>>, amount_of_beats: nat)
    ensures
        ({
            let r = resized_pattern(beats, amount_of_beats as int);
            &&& forall|i: int| 0 <= i < r.len() && i < beats.len() ==> #[trigger] r[i] == beats[i]
            &&& forall|i: int|
                beats.len() <= i < r.len() ==> #[trigger] r[i] == if (i - beats.len()) % 4 == 0 {
                    Some(BeatAccent::SoftStrong)
                } else {
                    None::<BeatAccent>
                }
            &&& (r.len() - beats.len()) % 4 == 0
            &&& beats.len() <= 4 * amount_of_beats ==> beats.len() <= r.len() <= 4 * amount_of_beats
                < r.len() + 4
            &&& beats.len() > 4 * amount_of_beats ==> 4 * amount_of_beats <= r.len() <= beats.len()
                && r.len() < 4 * amount_of_beats + 4
        }),
{
    let len = beats.len() as int;
    let a = amount_of_beats as int;
    let d = beat_difference(a, len);
    let r = resized_pattern(beats, a);
    if 4 * a - len >= 0 {
        assert(d == (4 * a - len) / 4);
        assert(0 <= d && 4 * d <= 4 * a - len < 4 * d + 4) by (nonlinear_arith)
            requires
                d == (4 * a - len) / 4,
                4 * a - len >= 0,
        ;
    } else {
        let m = (len - 4 * a) / 4;
        assert(d == -m);
        assert(0 <= m && 4 * m <= len - 4 * a < 4 * m + 4) by (nonlinear_arith)
            requires
                m == (len - 4 * a) / 4,
                len - 4 * a > 0,
        ;
    }
    if d > 0 {
        assert(r.len() == len + 4 * d);
        assert forall|i: int| len <= i < r.len() implies #[trigger] r[i] == if (i - len) % 4 == 0 {
            Some(BeatAccent::SoftStrong)
        } else {
            None::<BeatAccent>
        } by {
            assert(r[i] == added_beats(d as nat)[i - len]);
        }
    } else {
        assert(r.len() == len + 4 * d);
    }
    assert((r.len() - len) % 4 == 0) by (nonlinear_arith)
        requires
            r.len() - len == 4 * d,
    ;
}

/// A pattern made of whole beats holds exactly the number of beats asked
/// for afterwards, and keeps the slots that it shares with the old pattern.
pub proof fn lemma_resize_reaches_amount(beats: Seq<Option<BeatAccent>>, amount_of_beats: nat)
    requires
        beats.len() % 4 == 0,
    ensures
        resized_pattern(beats, amount_of_beats as int).len() == 4 * amount_of_beats,
        forall|i: int|
            0 <= i < beats.len() && i < 4 * amount_of_beats ==> #[trigger] resized_pattern(
                beats,
                amount_of_beats as int,
            )[i] == beats[i],
{
    let d = beat_difference(amount_of_beats as int, beats.len() as int);
    assert(d == amount_of_beats - beats.len() / 4) by (nonlinear_arith)
        requires
            beats.len() % 4 == 0,
            d == trunc_div(4 * amount_of_beats - beats.len(), 4),
    ;
}

} // verus!
