//! Naming the note that the tuner hears. The tuner rounds the detected
//! frequency to the nearest key of an 88-key piano (A0 is key 1, A4 is key
//! 49); from that key number this module derives the name and the octave.

use vstd::prelude::*;
use vstd::string::StringExecFns;
use crate::text::{decimal_int, push_char, push_decimal_i64};

verus! {

/// Division that rounds toward zero, as Rust's `/` on signed integers does.
pub open spec fn trunc_div(a: int, b: int) -> int
    recommends
        b > 0,
{
    if a >= 0 {
        a / b
    } else {
        -((-a) / b)
    }
}

/// The remainder that goes with `trunc_div`, as Rust's `%` on signed
/// integers gives it: it has the sign of `a`.
pub open spec fn trunc_rem(a: int, b: int) -> int
    recommends
        b > 0,
{
    a - b * trunc_div(a, b)
}

/// `a / b` as Rust computes it on signed integers.
pub fn div_toward_zero(a: i32, b: i32) -> (q: i32)
    requires
        b > 0,
    ensures
        q == trunc_div(a as int, b as int),
{
    let a64 = a as i64;
    let b64 = b as i64;
    if a64 >= 0 {
        (a64 / b64) as i32
    } else {
        let n: i64 = -a64;
        let m: i64 = n / b64;
        assert(0 <= m <= n) by (nonlinear_arith)
            requires
                m == n / b64,
                b64 >= 1,
                n > 0,
        ;
        (-m) as i32
    }
}

/// The name of a key within its octave: 1 is A, counting semitones up to 12
/// (G#); any other number has no name.
pub open spec fn key_name(numerical_key: int) -> Seq<char> {
    if numerical_key == 1 { "A"@ }
    else if numerical_key == 2 { "A#"@ }
    else if numerical_key == 3 { "B"@ }
    else if numerical_key == 4 { "C"@ }
    else if numerical_key == 5 { "C#"@ }
    else if numerical_key == 6 { "D"@ }
    else if numerical_key == 7 { "D#"@ }
    else if numerical_key == 8 { "E"@ }
    else if numerical_key == 9 { "F"@ }
    else if numerical_key == 10 { "F#"@ }
    else if numerical_key == 11 { "G"@ }
    else if numerical_key == 12 { "G#"@ }
    else { "???"@ }
}

/// The key within the octave of piano key `n`: its remainder modulo 12.
pub open spec fn key_of(n: int) -> int {
    trunc_rem(n, 12)
}

/// The octave of piano key `n`; octaves start at C (key 4 is C1).
pub open spec fn octave_of(n: int) -> int {
    trunc_div(n + 8, 12)
}

/// A note as the tuner shows it: the key's name, `_`, the octave.
pub open spec fn note_text(numerical_key: int, octave: int) -> Seq<char> {
    key_name(numerical_key) + seq!['_'] + decimal_int(octave)
}

/// The name of the key with number `numerical_key` within its octave.
pub fn musical_key(numerical_key: i32) -> (name: String)
    ensures
        name@ == key_name(numerical_key as int),
{
    match numerical_key {
        1 => String::from_str("A"),
        2 => String::from_str("A#"),
        3 => String::from_str("B"),
        4 => String::from_str("C"),
        5 => String::from_str("C#"),
        6 => String::from_str("D"),
        7 => String::from_str("D#"),
        8 => String::from_str("E"),
        9 => String::from_str("F"),
        10 => String::from_str("F#"),
        11 => String::from_str("G"),
        12 => String::from_str("G#"),
        _ => String::from_str("???"),
    }
}

/// The key within the octave and the octave of piano key
/// `nearest_absolute_note`.
pub fn calculate_key_and_octave(nearest_absolute_note: i32) -> (r: (i32, i32))
    requires
        nearest_absolute_note <= i32::MAX - 8,
    ensures
        r.0 == key_of(nearest_absolute_note as int),
        r.1 == octave_of(nearest_absolute_note as int),
        (nearest_absolute_note - r.0) % 12 == 0,
        nearest_absolute_note >= 0 ==> 0 <= r.0 < 12,
        nearest_absolute_note < 0 ==> -12 < r.0 <= 0,
        nearest_absolute_note + 8 >= 0 ==> 12 * r.1 <= nearest_absolute_note + 8 < 12 * r.1 + 12,
        nearest_absolute_note + 8 < 0 ==> 12 * r.1 - 12 < nearest_absolute_note + 8 <= 12 * r.1,
{
    proof {
        lemma_key_and_octave_divide(nearest_absolute_note as int);
    }
    let octave = div_toward_zero(nearest_absolute_note + 8, 12);
    let q = div_toward_zero(nearest_absolute_note, 12);
    let numerical_key = nearest_absolute_note - 12 * q;
    (numerical_key, octave)
}

/// The note as the tuner shows it, such as `C_4`.
pub fn format_note(numerical_key: i32, octave: i32) -> (s: String)
    ensures
        s@ == note_text(numerical_key as int, octave as int),
{
    let mut s = musical_key(numerical_key);
    push_char(&mut s, '_');
    push_decimal_i64(&mut s, octave as i64);
    s
}

/// The key within the octave is the remainder of the key number by 12,
/// with the sign of the key number (as Rust's `%` gives it), and the octave
/// is the quotient of the key number plus 8 by 12, rounded toward zero.
pub proof fn lemma_key_and_octave_divide(n: int)
    ensures
        (n - key_of(n)) % 12 == 0,
        n >= 0 ==> 0 <= key_of(n) < 12,
        n < 0 ==> -12 < key_of(n) <= 0,
        n + 8 >= 0 ==> 12 * octave_of(n) <= n + 8 < 12 * octave_of(n) + 12,
        n + 8 < 0 ==> 12 * octave_of(n) - 12 < n + 8 <= 12 * octave_of(n),
{
    lemma_trunc_division(n, 12);
    lemma_trunc_division(n + 8, 12);
}

/// Division rounded toward zero: `a` is `b` times the quotient plus the
/// remainder, and the remainder lies strictly between `-b` and `b` with the
/// sign of `a`.
pub proof fn lemma_trunc_division(a: int, b: int)
    requires
        b > 0,
    ensures
        a == b * trunc_div(a, b) + trunc_rem(a, b),
        (a - trunc_rem(a, b)) % b == 0,
        a >= 0 ==> 0 <= trunc_rem(a, b) < b,
        a < 0 ==> -b < trunc_rem(a, b) <= 0,
{
    let q = trunc_div(a, b);
    if a >= 0 {
        assert(0 <= a - b * (a / b) < b) by (nonlinear_arith)
            requires
                a >= 0,
                b > 0,
        ;
    } else {
        let m = (-a) / b;
        assert(0 <= (-a) - b * m < b) by (nonlinear_arith)
            requires
                a < 0,
                b > 0,
                m == (-a) / b,
        ;
        assert(b * (-m) == -(b * m)) by (nonlinear_arith);
        assert(q == -m);
        assert(trunc_rem(a, b) == a - b * q);
    }
    assert((b * q) % b == 0) by (nonlinear_arith)
        requires
            b > 0,
    ;
}

/// Twelve semitones up is the same key one octave higher.
pub proof fn lemma_octave_up(n: int)
    requires
        n >= 0,
    ensures
        key_of(n + 12) == key_of(n),
        octave_of(n + 12) == octave_of(n) + 1,
{
    assert((n + 12) / 12 == n / 12 + 1) by (nonlinear_arith)
        requires
            n >= 0,
    ;
    assert((n + 20) / 12 == (n + 8) / 12 + 1) by (nonlinear_arith)
        requires
            n >= 0,
    ;
}

/// Octaves begin at C: one semitone up changes the octave exactly when it
/// lands on C (key 4).
pub proof fn lemma_octaves_begin_at_c(n: int)
    requires
        n >= 0,
    ensures
        (octave_of(n + 1) == octave_of(n) + 1) <==> key_of(n + 1) == 4,
        octave_of(n + 1) == octave_of(n) || octave_of(n + 1) == octave_of(n) + 1,
{
    assert(((n + 9) / 12 == (n + 8) / 12 + 1) <==> (n + 1) - 12 * ((n + 1) / 12) == 4)
        by (nonlinear_arith)
        requires
            n >= 0,
    ;
    assert((n + 9) / 12 == (n + 8) / 12 || (n + 9) / 12 == (n + 8) / 12 + 1) by (nonlinear_arith)
        requires
            n >= 0,
    ;
}

} // verus!
