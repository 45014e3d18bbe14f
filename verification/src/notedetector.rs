//! Note naming of the stand-alone tuner. It numbers keys from C: the
//! detected piano key (A4 is key 49) is shifted by nine semitones, so that
//! the octave and the key within it count from C.

use vstd::prelude::*;
use vstd::string::StringExecFns;
use crate::note_detector::{div_toward_zero, lemma_trunc_division, trunc_div, trunc_rem};
use crate::text::{decimal_int, push_char, push_decimal_i64};

verus! {

/// The name of a key within its octave, counting from C: 1 is C, up to 12
/// (B); any other number has no name.
pub open spec fn key_name(numerical_key: int) -> Seq<char> {
    if numerical_key == 1 { "C"@ }
    else if numerical_key == 2 { "C#"@ }
    else if numerical_key == 3 { "D"@ }
    else if numerical_key == 4 { "D#"@ }
    else if numerical_key == 5 { "E"@ }
    else if numerical_key == 6 { "F"@ }
    else if numerical_key == 7 { "F#"@ }
    else if numerical_key == 8 { "G"@ }
    else if numerical_key == 9 { "G#"@ }
    else if numerical_key == 10 { "A"@ }
    else if numerical_key == 11 { "A#"@ }
    else if numerical_key == 12 { "B"@ }
    else { "???"@ }
}

/// The key within the octave of piano key `n`, counted from C.
pub open spec fn key_of(n: int) -> int {
    trunc_rem(n + 9, 12)
}

/// The octave of piano key `n`.
pub open spec fn octave_of(n: int) -> int {
    trunc_div(n + 9, 12)
}

/// A note as the tuner shows it: the key's name, `_`, the octave.
pub open spec fn note_text(numerical_key: int, octave: int) -> Seq<char> {
    key_name(numerical_key) + seq!['_'] + decimal_int(octave)
}

/// The name of the key with number `numerical_key` within its octave.
pub fn musical_key(numerical_key: i32) -> (name: String)
    ensures
        name@ == key_name(numerical_key as int),
{
    match numerical_key {
        1 => String::from_str("C"),
        2 => String::from_str("C#"),
        3 => String::from_str("D"),
        4 => String::from_str("D#"),
        5 => String::from_str("E"),
        6 => String::from_str("F"),
        7 => String::from_str("F#"),
        8 => String::from_str("G"),
        9 => String::from_str("G#"),
        10 => String::from_str("A"),
        11 => String::from_str("A#"),
        12 => String::from_str("B"),
        _ => String::from_str("???"),
    }
}

/// The key within the octave and the octave of the piano key that the
/// detected frequency rounds to (`rounded_note`, A4 = 49).
pub fn calculate_key_and_octave(rounded_note: i32) -> (r: (i32, i32))
    requires
        rounded_note <= i32::MAX - 9,
    ensures
        r.0 == key_of(rounded_note as int),
        r.1 == octave_of(rounded_note as int),
        12 * r.1 + r.0 == rounded_note + 9,
        rounded_note + 9 >= 0 ==> 0 <= r.0 < 12,
        rounded_note + 9 < 0 ==> -12 < r.0 <= 0,
{
    proof {
        lemma_key_and_octave_divide(rounded_note as int);
    }
    let nearest_absolute_note = rounded_note + 9;
    let octave = div_toward_zero(nearest_absolute_note, 12);
    let numerical_key = nearest_absolute_note - 12 * octave;
    (numerical_key, octave)
}

/// The note as the tuner shows it, such as `C_4`.
pub fn format_note(numerical_key: i32, octave: i32) -> (s: String)
    ensures
        s@ == note_text(numerical_key as int, octave as int),
{
    let mut s = musical_key(numerical_key);
    push_char(&mut s, '_');
    push_decimal_i64(&mut s, octave as i64);
    s
}

/// The key number shifted by nine semitones (so that C starts an octave)
/// is twelve times the octave plus the key within the octave; the key lies
/// in `0..12` for non-negative shifted numbers (the octave changes exactly
/// where the key wraps to 0), and has the sign of the shifted number
/// otherwise.
pub proof fn lemma_key_and_octave_divide(n: int)
    ensures
        12 * octave_of(n) + key_of(n) == n + 9,
        n + 9 >= 0 ==> 0 <= key_of(n) < 12,
        n + 9 < 0 ==> -12 < key_of(n) <= 0,
{
    lemma_trunc_division(n + 9, 12);
}

/// Twelve semitones up is the same key one octave higher.
pub proof fn lemma_octave_up(n: int)
    requires
        n + 9 >= 0,
    ensures
        key_of(n + 12) == key_of(n),
        octave_of(n + 12) == octave_of(n) + 1,
{
    assert((n + 21) / 12 == (n + 9) / 12 + 1) by (nonlinear_arith)
        requires
            n + 9 >= 0,
    ;
}

} // verus!
