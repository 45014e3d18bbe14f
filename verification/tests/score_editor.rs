use gradus::score_editor::{
    find_cursor_position_in_abc_score, highlight_note_in_svg, highlighted_score, ScoreError,
};

const STYLE_N2: &str = "<style>
            #n2, #n2 * {
                fill: #ff0000 !important;
                stroke: #ff0000 !important;
            }
        </style>";

#[test]
fn cursor_after_barlines() {
    let text = "X:1\nT:My Score\nM:4/4\nL:1/4\nK:C\nC D E F | G A";
    assert_eq!(find_cursor_position_in_abc_score(text), (1, 2));
    assert_eq!(find_cursor_position_in_abc_score("a|b||"), (3, 1));
    assert_eq!(find_cursor_position_in_abc_score("C D |"), (1, 1));
    assert_eq!(find_cursor_position_in_abc_score("C D | E\tF\u{a0}G"), (1, 3));
}

#[test]
fn cursor_before_the_first_barline_uses_the_last_line() {
    assert_eq!(find_cursor_position_in_abc_score("X:1\nK:C\nC D"), (0, 2));
    assert_eq!(find_cursor_position_in_abc_score("X:1\nK:C\n"), (0, 1));
    assert_eq!(find_cursor_position_in_abc_score("X:1\nK:C D E\n"), (0, 3));
    assert_eq!(find_cursor_position_in_abc_score(""), (0, 1));
    assert_eq!(find_cursor_position_in_abc_score("\n\n"), (0, 1));
}

#[test]
fn highlight_inserts_style_before_closing_tag() {
    let svg = "<svg><g id=\"n2\"/></svg>";
    let expected = format!("<svg><g id=\"n2\"/>{}\n</svg>", STYLE_N2);
    assert_eq!(highlight_note_in_svg(svg, "n2"), expected);
    assert_eq!(highlight_note_in_svg("<g/>", "n2"), "<g/>");
    assert_eq!(
        highlight_note_in_svg("</svg></svg>", "n2"),
        format!("{}\n</svg>{}\n</svg>", STYLE_N2, STYLE_N2)
    );
}

const SCORE: &str = "<svg><g class=\"measure\"><g class=\"note\" id=\"n1\"/><g class=\"notehead\" id=\"h\"/><g class=\"note\" id=\"n2\"/></g><g class=\"system measure\"><g class=\"chord note\" id=\"n3\"/><g class=\"note\"/></g></svg>";

#[test]
fn highlighted_score_finds_the_cursor_note() {
    let expected = SCORE.replace("</svg>", &format!("{}\n</svg>", STYLE_N2));
    assert_eq!(highlighted_score(SCORE, 0, 2), Ok(Some(expected)));
    let with_n3 = highlighted_score(SCORE, 1, 1).unwrap().unwrap();
    assert!(with_n3.contains("#n3, #n3 * {"));
    assert!(with_n3.ends_with("</style>\n</svg>"));
}

#[test]
fn highlighted_score_without_note_id_is_unchanged() {
    assert_eq!(highlighted_score(SCORE, 1, 2), Ok(Some(SCORE.to_string())));
}

#[test]
fn highlighted_score_without_target() {
    assert_eq!(highlighted_score(SCORE, 2, 1), Ok(None));
    assert_eq!(highlighted_score(SCORE, 0, 3), Ok(None));
    assert_eq!(highlighted_score(SCORE, 1, 3), Ok(None));
}

#[test]
fn highlighted_score_rejects_broken_svg() {
    assert_eq!(highlighted_score("<svg><g></svg>", 0, 1), Err(ScoreError::InvalidSvg));
    assert_eq!(highlighted_score("not xml", 0, 1), Err(ScoreError::InvalidSvg));
}
