//! The ABC score editor: where the text cursor stands in the score, which
//! note of the rendered SVG that is, and how that note is highlighted.

use vstd::prelude::*;
use crate::text::{
    chars_of, count_char, count_words, is_white_space, last_index_of, lemma_last_index_of_bounds,
    matches_at, replace_all, replace_all_chars, scan_char, string_from_chars, white_space,
    word_count,
};

verus! {

#[verifier::external_type_specification]
#[verifier::external_body]
pub struct ExXmlError(roxmltree::Error);

/// `s` without one final line feed, if it ends with one.
pub open spec fn without_final_newline(s: Seq<char>) -> Seq<char> {
    if s.len() > 0 && s.last() == '\n' {
        s.drop_last()
    } else {
        s
    }
}

/// The text of the score before the cursor that belongs to the note under
/// the cursor: what follows the last barline, or, before the first barline,
/// the last line.
pub open spec fn current_segment(text: Seq<char>) -> Seq<char> {
    if text.contains('|') {
        text.skip(last_index_of(text, '|') + 1)
    } else {
        let t = without_final_newline(text);
        t.skip(last_index_of(t, '\n') + 1)
    }
}

/// Where the cursor stands, given the score's text up to the cursor: the
/// number of the measure (the barlines before it) and the number of the note
/// in that measure, counted from 1.
pub open spec fn cursor_position(text: Seq<char>) -> (nat, nat) {
    let words = word_count(current_segment(text));
    (count_char(text, '|'), if words == 0 { 1 } else { words })
}

/// The measure index and the note index (from 1) of the cursor in an ABC
/// score, given the score's text up to the cursor.
pub fn find_cursor_position_in_abc_score(text_before_cursor: &str) -> (r: (usize, usize))
    ensures
        r.0 == cursor_position(text_before_cursor@).0,
        r.1 == cursor_position(text_before_cursor@).1,
{
    let text = chars_of(text_before_cursor);
    let ghost s = text@;
    proof {
        lemma_last_index_of_bounds(s, '|');
    }
    let n = text.len();
    let (bars, last_bar) = scan_char(text.as_slice(), n, '|');
    assert(s.take(n as int) == s);
    let (start, end) = match last_bar {
        Some(k) => (k + 1, n),
        None => {
            let end = if n > 0 && text[n - 1] == '\n' { n - 1 } else { n };
            let ghost t = without_final_newline(s);
            assert(t == s.take(end as int));
            proof {
                lemma_last_index_of_bounds(t, '\n');
            }
            let (_, last_line_break) = scan_char(text.as_slice(), end, '\n');
            let start = match last_line_break {
                Some(k) => k + 1,
                None => 0,
            };
            assert(t.skip(start as int) == s.subrange(start as int, end as int));
            (start, end)
        },
    };
    assert(current_segment(s) == s.subrange(start as int, end as int));
    let words = count_words(text.as_slice(), start, end);
    let note = if words == 0 { 1 } else { words };
    (bars, note)
}

proof fn lemma_push_scan(t: Seq<char>, c: char, x: char)
    ensures
        count_char(t.push(c), x) == count_char(t, x) + if c == x { 1nat } else { 0nat },
        last_index_of(t.push(c), x) == if c == x { t.len() as int } else { last_index_of(t, x) },
        t.push(c).contains(x) <==> (t.contains(x) || c == x),
{
    assert(t.push(c).drop_last() == t);
    assert(t.push(c)[t.len() as int] == c);
    if t.contains(x) {
        let k = choose|k: int| 0 <= k < t.len() && t[k] == x;
        assert(t.push(c)[k] == x);
    }
    if t.push(c).contains(x) && c != x {
        let k = choose|k: int| 0 <= k < t.len() + 1 && t.push(c)[k] == x;
        assert(k < t.len());
        assert(t[k] == x);
    }
}

proof fn lemma_push_skip(t: Seq<char>, c: char, k: int)
    requires
        0 <= k <= t.len(),
    ensures
        t.push(c).skip(k) == t.skip(k).push(c),
{
    assert(t.push(c).skip(k) =~= t.skip(k).push(c));
}

/// The segment of the text after pushing a character that is neither a
/// barline nor a line feed, where no final line feed is dropped before it.
proof fn lemma_push_segment(t: Seq<char>, c: char)
    requires
        c != '|',
        c != '\n',
        t.contains('|') || !(t.len() > 0 && t.last() == '\n'),
    ensures
        current_segment(t.push(c)) == current_segment(t).push(c),
{
    lemma_push_scan(t, c, '|');
    lemma_push_scan(t, c, '\n');
    lemma_last_index_of_bounds(t, '|');
    lemma_last_index_of_bounds(t, '\n');
    assert(t.push(c).last() == c);
    if t.contains('|') {
        lemma_push_skip(t, c, last_index_of(t, '|') + 1);
    } else {
        assert(without_final_newline(t.push(c)) == t.push(c));
        assert(without_final_newline(t) == t);
        lemma_push_skip(t, c, last_index_of(t, '\n') + 1);
    }
}

/// Typing white space after the cursor's note keeps the cursor on the same
/// measure and note. (Before the first barline a line feed starts a new
/// line, and the note then counts on that line, so there the text may not
/// end in a line feed and the typed character may not be one.)
pub proof fn lemma_white_space_keeps_position(text: Seq<char>, c: char)
    requires
        is_white_space(c),
        text.contains('|') || (c != '\n' && !(text.len() > 0 && text.last() == '\n')),
    ensures
        cursor_position(text.push(c)) == cursor_position(text),
{
    lemma_push_scan(text, c, '|');
    if text.contains('|') {
        lemma_last_index_of_bounds(text, '|');
        lemma_push_skip(text, c, last_index_of(text, '|') + 1);
        assert(current_segment(text.push(c)) == current_segment(text).push(c));
    } else {
        lemma_push_segment(text, c);
    }
    let seg = current_segment(text);
    assert(seg.push(c).drop_last() == seg);
    assert(seg.push(c).last() == c);
}

/// Typing more of the note under the cursor keeps the cursor on the same
/// measure and note.
pub proof fn lemma_typing_within_note_keeps_position(text: Seq<char>, c: char)
    requires
        !is_white_space(c),
        c != '|',
        text.len() > 0,
        !is_white_space(text.last()),
        text.last() != '|',
    ensures
        cursor_position(text.push(c)) == cursor_position(text),
{
    lemma_push_scan(text, c, '|');
    lemma_push_segment(text, c);
    let seg = current_segment(text);
    lemma_last_index_of_bounds(text, '|');
    lemma_last_index_of_bounds(text, '\n');
    if text.contains('|') {
        assert(last_index_of(text, '|') < text.len() - 1);
        assert(seg.len() > 0 && seg.last() == text.last());
    } else {
        assert(without_final_newline(text) == text);
        assert(last_index_of(text, '\n') < text.len() - 1);
        assert(seg.len() > 0 && seg.last() == text.last());
    }
    assert(seg.push(c).drop_last() == seg);
    assert(seg.push(c)[seg.len() - 1] == seg.last());
}

/// Typing a barline moves the cursor to the first note of the next measure.
pub proof fn lemma_barline_starts_measure(text: Seq<char>)
    ensures
        cursor_position(text.push('|')) == (cursor_position(text).0 + 1, 1nat),
{
    lemma_push_scan(text, '|', '|');
    assert(text.push('|').skip(text.len() as int + 1) =~= Seq::<char>::empty());
}

/// The style block that paints the element with id `note_id`, and everything
/// inside it, red.
pub open spec fn highlight_style(note_id: Seq<char>) -> Seq<char> {
    "<style>\n            #"@ + note_id + ", #"@ + note_id + " * {\n                fill: #ff0000 !important;\n                stroke: #ff0000 !important;\n            }\n        </style>"@
}

/// The SVG with the highlight style inserted before every closing `</svg>`.
pub open spec fn highlighted_svg(base_svg: Seq<char>, note_id: Seq<char>) -> Seq<char> {
    replace_all(base_svg, "</svg>"@, highlight_style(note_id) + "\n</svg>"@)
}

/// Inserts the style that paints the note with id `note_id` red before the
/// end of the SVG document.
pub fn highlight_note_in_svg(base_svg: &str, note_id: &str) -> (s: String)
    ensures
        s@ == highlighted_svg(base_svg@, note_id@),
{
    let id = chars_of(note_id);
    let mut rep: Vec<char> = chars_of("<style>\n            #");
    rep.append(&mut id.clone());
    rep.append(&mut chars_of(", #"));
    rep.append(&mut id.clone());
    rep.append(&mut chars_of(
        " * {\n                fill: #ff0000 !important;\n                stroke: #ff0000 !important;\n            }\n        </style>",
    ));
    rep.append(&mut chars_of("\n</svg>"));
    let pat = chars_of("</svg>");
    proof {
        reveal_strlit("</svg>");
    }
    let base = chars_of(base_svg);
    replace_all_chars(base.as_slice(), pat.as_slice(), rep.as_slice())
}

/// Whether the word `w` occurs in `s` at index `i`, delimited by white
/// space or the ends of `s`.
pub open spec fn word_at(s: Seq<char>, w: Seq<char>, i: int) -> bool {
    &&& 0 <= i
    &&& i + w.len() <= s.len()
    &&& s.subrange(i, i + w.len()) == w
    &&& (i == 0 || is_white_space(s[i - 1]))
    &&& (i + w.len() == s.len() || is_white_space(s[i + w.len()]))
}

/// Whether the non-empty word `w`, which holds no white space, is one of the
/// white-space separated words of `s`.
pub open spec fn has_word(s: Seq<char>, w: Seq<char>) -> bool {
    w.len() > 0 && exists|i: int| #[trigger] word_at(s, w, i)
}

/// Whether a `class` attribute names the class `w`.
pub open spec fn class_has(class: Option<Seq<char>>, w: Seq<char>) -> bool {
    match class {
        Some(c) => has_word(c, w),
        None => false,
    }
}

/// Decides `has_word`.
pub fn contains_word(s: &[char], w: &[char]) -> (b: bool)
    ensures
        b == has_word(s@, w@),
{
    if w.len() == 0 {
        return false;
    }
    if w.len() > s.len() {
        assert forall|i: int| !#[trigger] word_at(s@, w@, i) by {}
        return false;
    }
    let last = s.len() - w.len();
    let mut i: usize = 0;
    while i <= last
        invariant
            last == s@.len() - w@.len(),
            w@.len() > 0,
            i <= last + 1,
            forall|k: int| 0 <= k < i ==> !#[trigger] word_at(s@, w@, k),
        decreases last + 1 - i,
    {
        let start_ok = i == 0 || white_space(s[i - 1]);
        let end_ok = i == last || white_space(s[i + w.len()]);
        if start_ok && end_ok && matches_at(s, i, w) {
            assert(s@.skip(i as int).take(w@.len() as int) == s@.subrange(
                i as int,
                i + w@.len(),
            ));
            assert(word_at(s@, w@, i as int));
            return true;
        }
        assert(s@.skip(i as int).take(w@.len() as int) == s@.subrange(i as int, i + w@.len()));
        i = i + 1;
    }
    assert forall|k: int| !#[trigger] word_at(s@, w@, k) by {}
    false
}

/// A node of a parsed SVG document, in document order: its `class` and `id`
/// attributes and the number of nodes in its subtree (itself included).
pub struct SvgNode {
    pub class: Option<String>,
    pub id: Option<String>,
    pub descendant_count: usize,
}

impl View for SvgNode {
    type V = (Option<Seq<char>>, Option<Seq<char>>, nat);

    open spec fn view(&self) -> (Option<Seq<char>>, Option<Seq<char>>, nat) {
        (self.class.deep_view(), self.id.deep_view(), self.descendant_count as nat)
    }
}

/// The nodes of the XML document `text` as `roxmltree` parses it, in
/// document order, or nothing where it refuses the text.
pub uninterp spec fn parsed_svg_nodes(text: Seq<char>) -> Option<
    Seq<(Option<Seq<char>>, Option<Seq<char>>, nat)>,
>;

/// Parses an SVG document with `roxmltree::Document::parse` and lists its
/// nodes (`Document::descendants`) with their `class` and `id` attributes
/// (`Node::attribute`) and the size of their subtree
/// (`Node::descendants().count()`). The contract claims that the outcome
/// depends on the text alone, as `parsed_svg_nodes` names it.
#[verifier::external_body]
fn parse_svg_nodes(text: &str) -> (r: Result<Vec<SvgNode>, roxmltree::Error>)
    ensures
        r is Ok <==> parsed_svg_nodes(text@) is Some,
        r matches Ok(v) ==> v@.map_values(|n: SvgNode| n@) == parsed_svg_nodes(text@)->0,
{
    let doc = roxmltree::Document::parse(text)?;
    Ok(doc.descendants().map(|n| SvgNode {
        class: n.attribute("class").map(|c| c.to_string()),
        id: n.attribute("id").map(|c| c.to_string()),
        descendant_count: n.descendants().count(),
    }).collect())
}

/// The indices in `lo..hi` of the nodes whose class names `w`, in order.
pub open spec fn marked(
    nodes: Seq<(Option<Seq<char>>, Option<Seq<char>>, nat)>,
    w: Seq<char>,
    lo: int,
    hi: int,
) -> Seq<int>
    decreases hi - lo,
{
    if hi <= lo {
        Seq::empty()
    } else if class_has(nodes[hi - 1].0, w) {
        marked(nodes, w, lo, hi - 1).push(hi - 1)
    } else {
        marked(nodes, w, lo, hi - 1)
    }
}

proof fn lemma_marked_prefix(
    nodes: Seq<(Option<Seq<char>>, Option<Seq<char>>, nat)>,
    w: Seq<char>,
    lo: int,
    mid: int,
    hi: int,
)
    requires
        lo <= mid <= hi,
    ensures
        marked(nodes, w, lo, mid).len() <= marked(nodes, w, lo, hi).len(),
        forall|k: int|
            0 <= k < marked(nodes, w, lo, mid).len() ==> marked(nodes, w, lo, hi)[k] == marked(
                nodes,
                w,
                lo,
                mid,
            )[k],
    decreases hi - mid,
{
    if mid < hi {
        lemma_marked_prefix(nodes, w, lo, mid, hi - 1);
    }
}

proof fn lemma_marked_in_range(
    nodes: Seq<(Option<Seq<char>>, Option<Seq<char>>, nat)>,
    w: Seq<char>,
    lo: int,
    hi: int,
)
    ensures
        forall|k: int|
            0 <= k < marked(nodes, w, lo, hi).len() ==> lo <= #[trigger] marked(nodes, w, lo, hi)[k]
                < hi,
    decreases hi - lo,
{
    if hi > lo {
        lemma_marked_in_range(nodes, w, lo, hi - 1);
        let prev = marked(nodes, w, lo, hi - 1);
        assert forall|k: int| 0 <= k < marked(nodes, w, lo, hi).len() implies lo <= #[trigger] marked(nodes, w, lo, hi)[k] < hi by {
            if k < prev.len() {
                assert(marked(nodes, w, lo, hi)[k] == prev[k]);
            }
        }
    }
}

/// The `n`-th (from 0) of the nodes in `lo..hi` whose class names `w`.
pub open spec fn nth_marked_spec(
    nodes: Seq<(Option<Seq<char>>, Option<Seq<char>>, nat)>,
    w: Seq<char>,
    lo: int,
    hi: int,
    n: int,
) -> Option<int> {
    if 0 <= n < marked(nodes, w, lo, hi).len() {
        Some(marked(nodes, w, lo, hi)[n])
    } else {
        None
    }
}

fn nth_marked(nodes: &[SvgNode], w: &[char], lo: usize, hi: usize, n: usize) -> (r: Option<
    usize,
>)
    requires
        lo <= hi <= nodes@.len(),
    ensures
        r matches Some(k) ==> nth_marked_spec(
            nodes@.map_values(|x: SvgNode| x@),
            w@,
            lo as int,
            hi as int,
            n as int,
        ) == Some(k as int),
        r is None ==> nth_marked_spec(
            nodes@.map_values(|x: SvgNode| x@),
            w@,
            lo as int,
            hi as int,
            n as int,
        ) is None,
{
    let ghost views = nodes@.map_values(|x: SvgNode| x@);
    let mut count: usize = 0;
    let mut i: usize = lo;
    while i < hi
        invariant
            lo <= i <= hi <= nodes@.len(),
            views == nodes@.map_values(|x: SvgNode| x@),
            count == marked(views, w@, lo as int, i as int).len(),
            count <= n,
        decreases hi - i,
    {
        let found = match &nodes[i].class {
            Some(c) => {
                let cs = chars_of(c.as_str());
                contains_word(cs.as_slice(), w)
            },
            None => false,
        };
        assert(views[i as int] == nodes@[i as int]@);
        if found {
            if count == n {
                proof {
                    lemma_marked_prefix(views, w@, lo as int, i + 1, hi as int);
                }
                return Some(i);
            }
            count = count + 1;
        }
        i = i + 1;
    }
    None
}

/// The position of a note within a rendered score.
pub open spec fn note_node_index(
    nodes: Seq<(Option<Seq<char>>, Option<Seq<char>>, nat)>,
    measure_index: int,
    note_index: int,
) -> Option<int> {
    match nth_marked_spec(nodes, "measure"@, 0, nodes.len() as int, measure_index) {
        None => None,
        Some(m) => {
            let end = if m + nodes[m].2 <= nodes.len() {
                m + nodes[m].2
            } else {
                nodes.len() as int
            };
            nth_marked_spec(nodes, "note"@, m, end, note_index - 1)
        },
    }
}

proof fn lemma_note_node_in_range(
    nodes: Seq<(Option<Seq<char>>, Option<Seq<char>>, nat)>,
    measure_index: int,
    note_index: int,
)
    ensures
        note_node_index(nodes, measure_index, note_index) matches Some(k) ==> 0 <= k < nodes.len(),
{
    lemma_marked_in_range(nodes, "measure"@, 0, nodes.len() as int);
    if let Some(m) = nth_marked_spec(nodes, "measure"@, 0, nodes.len() as int, measure_index) {
        let end = if m + nodes[m].2 <= nodes.len() {
            m + nodes[m].2
        } else {
            nodes.len() as int
        };
        lemma_marked_in_range(nodes, "note"@, m, end);
    }
}

/// The note under the cursor among the nodes of a rendered score: within
/// the `measure_index`-th node of class `measure` (from 0), the
/// `note_index`-th node of class `note` (from 1). Nothing where either is
/// missing; otherwise the note's `id` attribute, if it has one.
pub fn find_note_id(nodes: &[SvgNode], measure_index: usize, note_index: usize) -> (r: Option<
    Option<String>,
>)
    requires
        note_index >= 1,
    ensures
        match note_node_index(nodes@.map_values(|x: SvgNode| x@), measure_index as int, note_index as int) {
            None => r is None,
            Some(k) => r matches Some(id) && id.deep_view() == nodes@[k].id.deep_view(),
        },
{
    let ghost views = nodes@.map_values(|x: SvgNode| x@);
    let measure_word = chars_of("measure");
    let note_word = chars_of("note");
    let m = match nth_marked(nodes, measure_word.as_slice(), 0, nodes.len(), measure_index) {
        None => return None,
        Some(m) => m,
    };
    proof {
        lemma_marked_in_range(views, "measure"@, 0, nodes@.len() as int);
    }
    assert(views[m as int] == nodes@[m as int]@);
    let count = nodes[m].descendant_count;
    let end = if count <= nodes.len() - m { m + count } else { nodes.len() };
    match nth_marked(nodes, note_word.as_slice(), m, end, note_index - 1) {
        None => None,
        Some(k) => {
            proof {
                lemma_marked_in_range(views, "note"@, m as int, end as int);
            }
            let id = match &nodes[k].id {
                Some(s) => Some(s.clone()),
                None => None,
            };
            Some(id)
        },
    }
}

/// Why a rendered score could not be searched.
#[derive(Debug, Clone, Copy, PartialEq, Eq, Structural)]
pub enum ScoreError {
    /// The renderer's SVG is not well-formed XML.
    InvalidSvg,
}

/// The rendered score with the note under the cursor highlighted: an error
/// where the SVG does not parse, nothing where the cursor's note is not in
/// the score, the SVG with the note highlighted where the note has an id,
/// and the SVG unchanged where it has none.
pub fn highlighted_score(base_svg: &str, measure_index: usize, note_index: usize) -> (r: Result<
    Option<String>,
    ScoreError,
>)
    requires
        note_index >= 1,
    ensures
        match parsed_svg_nodes(base_svg@) {
            None => r == Err::<Option<String>, ScoreError>(ScoreError::InvalidSvg),
            Some(nodes) => match note_node_index(nodes, measure_index as int, note_index as int) {
                None => r matches Ok(None),
                Some(k) => r matches Ok(Some(svg)) && svg@ == match nodes[k].1 {
                    Some(id) => highlighted_svg(base_svg@, id),
                    None => base_svg@,
                },
            },
        },
{
    let nodes = match parse_svg_nodes(base_svg) {
        Ok(nodes) => nodes,
        Err(_) => return Err(ScoreError::InvalidSvg),
    };
    let ghost views = nodes@.map_values(|x: SvgNode| x@);
    match find_note_id(nodes.as_slice(), measure_index, note_index) {
        None => Ok(None),
        Some(id) => {
            proof {
                lemma_note_node_in_range(views, measure_index as int, note_index as int);
                let k = note_node_index(views, measure_index as int, note_index as int)->0;
                assert(views[k] == nodes@[k]@);
            }
            match id {
                Some(id) => Ok(Some(highlight_note_in_svg(base_svg, id.as_str()))),
                None => Ok(Some(string_from_chars(chars_of(base_svg).as_slice()))),
            }
        },
    }
}

} // verus!
