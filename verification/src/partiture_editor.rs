//! The keyboard-driven score editor: the header fields of the ABC tune and
//! the list of events (notes, rests, barlines) that the keys add, and the
//! note lengths that its measure and beaming rules use.

use vstd::prelude::*;
use vstd::string::StringExecFns;
use crate::text::{chars_of, push_char, push_str};

verus! {

/// `n` copies of `c`.
pub open spec fn repeat_char(c: char, n: nat) -> Seq<char> {
    Seq::new(n, |i: int| c)
}

/// Whether two character sequences are equal.
pub fn chars_equal(a: &[char], b: &[char]) -> (r: bool)
    ensures
        r == (a@ == b@),
{
    if a.len() != b.len() {
        return false;
    }
    let mut i: usize = 0;
    while i < a.len()
        invariant
            a@.len() == b@.len(),
            i <= a@.len(),
            forall|k: int| 0 <= k < i ==> a@[k] == b@[k],
        decreases a@.len() - i,
    {
        if a[i] != b[i] {
            return false;
        }
        i = i + 1;
    }
    assert(a@ =~= b@);
    true
}

/// Whether `s` is exactly the text `t`.
pub fn str_is(s: &str, t: &str) -> (r: bool)
    ensures
        r == (s@ == t@),
{
    let a = chars_of(s);
    let b = chars_of(t);
    chars_equal(a.as_slice(), b.as_slice())
}

/// The length of the unit note `L:` in sixteenths: a quarter is 4, an eighth
/// 2, a sixteenth 1; any other text counts as a quarter.
pub open spec fn base_sixteenths(default_length: Seq<char>) -> u32 {
    if default_length == "1/4"@ {
        4
    } else if default_length == "1/8"@ {
        2
    } else if default_length == "1/16"@ {
        1
    } else {
        4
    }
}

/// The length of a measure in sixteenths: 16 for 4/4, 12 for 3/4 and 6/8;
/// any other meter counts as 4/4.
pub open spec fn capacity_sixteenths(time_signature: Seq<char>) -> u32 {
    if time_signature == "4/4"@ {
        16
    } else if time_signature == "3/4"@ {
        12
    } else if time_signature == "6/8"@ {
        12
    } else {
        16
    }
}

/// The length of a beamed group in sixteenths: a dotted quarter (6) in
/// compound meters (6/8, 9/8, 12/8), a quarter (4) otherwise.
pub open spec fn beam_group_sixteenths(time_signature: Seq<char>) -> u32 {
    if time_signature == "6/8"@ || time_signature == "9/8"@ || time_signature == "12/8"@ {
        6
    } else {
        4
    }
}

/// The editor's state as plain values.
pub struct PartitureState {
    pub time_signature: Seq<char>,
    pub key_signature: Seq<char>,
    pub default_length: Seq<char>,
    pub selected_duration: Seq<char>,
    pub dots: u8,
    pub current_accidental: Seq<char>,
    pub events: Seq<Seq<char>>,
}

/// The duration suffix of the next note: the selected duration, then one
/// `>` per dot.
pub open spec fn modifier_of(st: PartitureState) -> Seq<char> {
    st.selected_duration + repeat_char('>', st.dots as nat)
}

/// The next note as an ABC token: accidental, pitch, duration suffix.
pub open spec fn pitch_token_of(st: PartitureState, pitch: Seq<char>) -> Seq<char> {
    st.current_accidental + pitch + modifier_of(st)
}

/// A rest as an ABC token: `z`, the selected duration, one `>` per dot.
pub open spec fn rest_token_of(st: PartitureState) -> Seq<char> {
    seq!['z'] + st.selected_duration + repeat_char('>', st.dots as nat)
}

/// The header of the ABC tune.
pub open spec fn header_of(st: PartitureState) -> Seq<char> {
    "X:1\nM:"@ + st.time_signature + "\nL:"@ + st.default_length + "\nK:"@ + st.key_signature
        + seq!['\n']
}

/// The state of the keyboard-driven score editor.
pub struct PartitureEditor {
    time_signature: String,
    key_signature: String,
    default_length: String,
    selected_duration: String,
    dots: u8,
    current_accidental: String,
    events: Vec<String>,
}

impl View for PartitureEditor {
    type V = PartitureState;

    closed spec fn view(&self) -> PartitureState {
        PartitureState {
            time_signature: self.time_signature@,
            key_signature: self.key_signature@,
            default_length: self.default_length@,
            selected_duration: self.selected_duration@,
            dots: self.dots,
            current_accidental: self.current_accidental@,
            events: self.events@.map_values(|e: String| e@),
        }
    }
}

impl PartitureEditor {
    /// An empty tune in C major, 4/4, with quarter notes as unit.
    pub fn new() -> (e: Self)
        ensures
            e@.time_signature == "4/4"@,
            e@.key_signature == "C"@,
            e@.default_length == "1/4"@,
            e@.selected_duration == Seq::<char>::empty(),
            e@.dots == 0,
            e@.current_accidental == Seq::<char>::empty(),
            e@.events == Seq::<Seq<char>>::empty(),
    {
        let e = PartitureEditor {
            time_signature: String::from_str("4/4"),
            key_signature: String::from_str("C"),
            default_length: String::from_str("1/4"),
            selected_duration: String::new(),
            dots: 0,
            current_accidental: String::new(),
            events: Vec::new(),
        };
        assert(e@.events =~= Seq::<Seq<char>>::empty());
        e
    }

    /// The events of the tune, in order.
    pub fn events(&self) -> (v: &Vec<String>)
        ensures
            v@.map_values(|e: String| e@) == self@.events,
    {
        &self.events
    }

    /// The time signature (`M:`).
    pub fn time_signature(&self) -> (s: &String)
        ensures
            s@ == self@.time_signature,
    {
        &self.time_signature
    }

    /// Sets the key (`K:`).
    pub fn set_key(&mut self, key: String)
        ensures
            final(self)@ == (PartitureState { key_signature: key@, ..old(self)@ }),
    {
        self.key_signature = key;
    }

    /// Sets the time signature (`M:`).
    pub fn set_time(&mut self, time: String)
        ensures
            final(self)@ == (PartitureState { time_signature: time@, ..old(self)@ }),
    {
        self.time_signature = time;
    }

    /// Sets the unit note length (`L:`).
    pub fn set_default_length(&mut self, length: String)
        ensures
            final(self)@ == (PartitureState { default_length: length@, ..old(self)@ }),
    {
        self.default_length = length;
    }

    /// The key bound to shortening the next note: appends a `/` to its
    /// duration.
    pub fn decrease_duration(&mut self)
        ensures
            final(self)@ == (PartitureState {
                selected_duration: old(self)@.selected_duration.push('/'),
                ..old(self)@
            }),
    {
        push_char(&mut self.selected_duration, '/');
    }

    /// The key bound to lengthening the next note: like `decrease_duration`,
    /// it appends a `/` to its duration.
    pub fn increase_duration(&mut self)
        ensures
            final(self)@ == (PartitureState {
                selected_duration: old(self)@.selected_duration.push('/'),
                ..old(self)@
            }),
    {
        push_char(&mut self.selected_duration, '/');
    }

    /// Sets the number of dots of the next note.
    pub fn set_dots(&mut self, dots: u8)
        ensures
            final(self)@ == (PartitureState { dots, ..old(self)@ }),
    {
        self.dots = dots;
    }

    /// Sets the accidental of the next note (`^` sharp, `_` flat).
    pub fn set_accidental(&mut self, accidental: String)
        ensures
            final(self)@ == (PartitureState { current_accidental: accidental@, ..old(self)@ }),
    {
        self.current_accidental = accidental;
    }

    fn dot_marks(&self, s: &mut String)
        ensures
            final(s)@ == old(s)@ + repeat_char('>', self@.dots as nat),
    {
        let ghost start = s@;
        let mut i: u8 = 0;
        while i < self.dots
            invariant
                i <= self.dots,
                s@ == start + repeat_char('>', i as nat),
            decreases self.dots - i,
        {
            push_char(s, '>');
            i = i + 1;
            assert(s@ =~= start + repeat_char('>', i as nat));
        }
    }

    /// The duration suffix of the next note.
    pub fn pitch_modifier(&self) -> (m: String)
        ensures
            m@ == modifier_of(self@),
            m@.len() == self@.selected_duration.len() + self@.dots,
            forall|i: int|
                0 <= i < self@.selected_duration.len() ==> #[trigger] m@[i]
                    == self@.selected_duration[i],
            forall|i: int| self@.selected_duration.len() <= i < m@.len() ==> #[trigger] m@[i] == '>',
    {
        proof {
            lemma_note_token_shape(self@, Seq::empty());
        }
        let mut m = self.selected_duration.clone();
        self.dot_marks(&mut m);
        m
    }

    /// The ABC token of the next note at `pitch`.
    pub fn pitch_token(&self, pitch: &str) -> (t: String)
        ensures
            t@ == pitch_token_of(self@, pitch@),
            note_token_shape(self@, pitch@, t@),
    {
        proof {
            lemma_note_token_shape(self@, pitch@);
        }
        let mut t = self.current_accidental.clone();
        push_str(&mut t, pitch);
        let m = self.pitch_modifier();
        push_str(&mut t, m.as_str());
        assert(t@ == pitch_token_of(self@, pitch@));
        t
    }

    /// Adds a note at `pitch`, after a barline where `barline_first` says
    /// that the note does not fit in the current measure; the accidental
    /// and the dots are used up by the note.
    pub fn add_pitch(&mut self, pitch: &str, barline_first: bool)
        ensures
            final(self)@ == (PartitureState {
                current_accidental: Seq::empty(),
                dots: 0,
                events: if barline_first {
                    old(self)@.events.push(seq!['|']).push(pitch_token_of(old(self)@, pitch@))
                } else {
                    old(self)@.events.push(pitch_token_of(old(self)@, pitch@))
                },
                ..old(self)@
            }),
            note_token_shape(old(self)@, pitch@, final(self)@.events.last()),
    {
        proof {
            lemma_note_token_shape(old(self)@, pitch@);
        }
        let token = self.pitch_token(pitch);
        self.current_accidental = String::new();
        self.dots = 0;
        if barline_first {
            let mut bar = String::new();
            push_char(&mut bar, '|');
            self.events.push(bar);
        }
        self.events.push(token);
        assert(self@.events =~= (if barline_first {
            old(self)@.events.push(seq!['|']).push(pitch_token_of(old(self)@, pitch@))
        } else {
            old(self)@.events.push(pitch_token_of(old(self)@, pitch@))
        }));
    }

    /// Adds a rest of the selected duration and dots.
    pub fn add_rest(&mut self)
        ensures
            final(self)@ == (PartitureState {
                events: old(self)@.events.push(rest_token_of(old(self)@)),
                ..old(self)@
            }),
    {
        let mut token = String::new();
        push_char(&mut token, 'z');
        push_str(&mut token, self.selected_duration.as_str());
        self.dot_marks(&mut token);
        self.events.push(token);
        assert(self@.events =~= old(self)@.events.push(rest_token_of(old(self)@)));
    }

    /// Adds a barline.
    pub fn add_barline(&mut self)
        ensures
            final(self)@ == (PartitureState {
                events: old(self)@.events.push(seq!['|']),
                ..old(self)@
            }),
    {
        let mut bar = String::new();
        push_char(&mut bar, '|');
        self.events.push(bar);
        assert(self@.events =~= old(self)@.events.push(seq!['|']));
    }

    /// Removes the last event, if there is one.
    pub fn undo(&mut self)
        ensures
            final(self)@ == (PartitureState {
                events: if old(self)@.events.len() > 0 {
                    old(self)@.events.drop_last()
                } else {
                    old(self)@.events
                },
                ..old(self)@
            }),
    {
        let _ = self.events.pop();
        assert(self@.events =~= (if old(self)@.events.len() > 0 {
            old(self)@.events.drop_last()
        } else {
            old(self)@.events
        }));
    }

    /// Whether the last event is a barline; a tune that does not end with
    /// one needs a closing barline to render.
    pub fn ends_with_barline(&self) -> (b: bool)
        ensures
            b == (self@.events.len() > 0 && self@.events.last() == seq!['|']),
    {
        if self.events.len() == 0 {
            return false;
        }
        let last = &self.events[self.events.len() - 1];
        let cs = chars_of(last.as_str());
        let r = cs.len() == 1 && cs[0] == '|';
        proof {
            if r {
                assert(cs@ =~= seq!['|']);
            } else if cs@.len() == 1 {
                assert(cs@[0] != seq!['|'][0]);
            }
        }
        assert(self@.events.last() == last@);
        r
    }

    /// The header of the ABC tune: reference number, meter, unit length, key.
    pub fn header(&self) -> (h: String)
        ensures
            h@ == header_of(self@),
    {
        let mut h = String::new();
        push_str(&mut h, "X:1\nM:");
        push_str(&mut h, self.time_signature.as_str());
        push_str(&mut h, "\nL:");
        push_str(&mut h, self.default_length.as_str());
        push_str(&mut h, "\nK:");
        push_str(&mut h, self.key_signature.as_str());
        push_char(&mut h, '\n');
        assert(h@ =~= header_of(self@));
        h
    }

    /// The whole ABC tune: the header, the music, and a closing barline when
    /// the last event is not one.
    pub fn abc_document(&self, music_body: &str) -> (d: String)
        ensures
            d@ == header_of(self@) + music_body@ + if self@.events.len() > 0
                && self@.events.last() == seq!['|'] {
                Seq::<char>::empty()
            } else {
                " |"@
            },
    {
        let mut d = self.header();
        push_str(&mut d, music_body);
        if !self.ends_with_barline() {
            push_str(&mut d, " |");
        } else {
            assert(d@ == d@ + Seq::<char>::empty());
        }
        d
    }

    /// The unit note length in sixteenths.
    pub fn base_duration_sixteenths(&self) -> (d: u32)
        ensures
            d == base_sixteenths(self@.default_length),
    {
        let l = self.default_length.as_str();
        if str_is(l, "1/4") {
            4
        } else if str_is(l, "1/8") {
            2
        } else if str_is(l, "1/16") {
            1
        } else {
            4
        }
    }

    /// The length of a measure in sixteenths.
    pub fn measure_capacity_sixteenths(&self) -> (d: u32)
        ensures
            d == capacity_sixteenths(self@.time_signature),
    {
        let t = self.time_signature.as_str();
        if str_is(t, "4/4") {
            16
        } else if str_is(t, "3/4") {
            12
        } else if str_is(t, "6/8") {
            12
        } else {
            16
        }
    }

    /// The length of a beamed group in sixteenths.
    pub fn beam_group_duration_sixteenths(&self) -> (d: u32)
        ensures
            d == beam_group_sixteenths(self@.time_signature),
    {
        let t = self.time_signature.as_str();
        if str_is(t, "6/8") || str_is(t, "9/8") || str_is(t, "12/8") {
            6
        } else {
            4
        }
    }
}

/// The duration suffix of a note token: everything after its first
/// character (the pitch).
pub fn extract_modifier(event: &str) -> (m: String)
    requires
        event@.len() >= 1,
    ensures
        m@ == event@.skip(1),
{
    let cs = chars_of(event);
    let mut m = String::new();
    let mut i: usize = 1;
    while i < cs.len()
        invariant
            1 <= i <= cs@.len(),
            cs@ == event@,
            m@ == cs@.subrange(1, i as int),
        decreases cs@.len() - i,
    {
        push_char(&mut m, cs[i]);
        i = i + 1;
        assert(m@ =~= cs@.subrange(1, i as int));
    }
    assert(cs@.subrange(1, cs@.len() as int) == event@.skip(1));
    m
}

/// `token` is the note at `pitch` as the state `st` writes it: the
/// accidental, the pitch, the selected duration and then exactly one `>` per
/// dot, nothing else.
pub open spec fn note_token_shape(st: PartitureState, pitch: Seq<char>, token: Seq<char>) -> bool {
    let a = st.current_accidental.len() as int;
    let p = pitch.len() as int;
    let d = st.selected_duration.len() as int;
    &&& token.len() == a + p + d + st.dots
    &&& forall|i: int| 0 <= i < a ==> #[trigger] token[i] == st.current_accidental[i]
    &&& forall|i: int| 0 <= i < p ==> #[trigger] token[a + i] == pitch[i]
    &&& forall|i: int| 0 <= i < d ==> #[trigger] token[a + p + i] == st.selected_duration[i]
    &&& forall|i: int| a + p + d <= i < token.len() ==> #[trigger] token[i] == '>'
}

/// A note token is the accidental, the pitch, the selected duration and one
/// `>` per dot, whatever the duration (empty or not); its duration suffix is
/// the selected duration followed by one `>` per dot.
pub proof fn lemma_note_token_shape(st: PartitureState, pitch: Seq<char>)
    ensures
        note_token_shape(st, pitch, pitch_token_of(st, pitch)),
        modifier_of(st).len() == st.selected_duration.len() + st.dots,
        forall|i: int|
            0 <= i < st.selected_duration.len() ==> #[trigger] modifier_of(st)[i]
                == st.selected_duration[i],
        forall|i: int|
            st.selected_duration.len() <= i < modifier_of(st).len() ==> #[trigger] modifier_of(
                st,
            )[i] == '>',
{
    let t = pitch_token_of(st, pitch);
    let a = st.current_accidental.len() as int;
    let p = pitch.len() as int;
    let d = st.selected_duration.len() as int;
    assert forall|i: int| 0 <= i < p implies #[trigger] t[a + i] == pitch[i] by {
        assert(t[a + i] == (st.current_accidental + pitch)[a + i]);
    }
    assert forall|i: int| 0 <= i < d implies #[trigger] t[a + p + i] == st.selected_duration[i] by {
        assert(t[a + p + i] == modifier_of(st)[i]);
    }
    assert forall|i: int| a + p + d <= i < t.len() implies #[trigger] t[i] == '>' by {
        assert(t[i] == modifier_of(st)[i - a - p]);
    }
    assert forall|i: int| 0 <= i < a implies #[trigger] t[i] == st.current_accidental[i] by {
        assert(t[i] == (st.current_accidental + pitch)[i]);
    }
}

/// Undoing removes exactly the event that was added last: adding an event
/// and undoing gives back the events as they were.
pub proof fn lemma_undo_removes_added_event(events: Seq<Seq<char>>, event: Seq<char>)
    ensures
        events.push(event).len() > 0,
        events.push(event).drop_last() == events,
{
    assert(events.push(event).drop_last() =~= events);
}

} // verus!
