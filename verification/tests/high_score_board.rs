use ratgames::geometry::Point;
use ratgames::session::{
    BoardFooter, BoardLine, HighScoreBoard, HighScoreBoardSpec, HighScoreLayout, HighScores,
};

/// A board of `n` distinct entries.
fn board_of(n: usize) -> HighScores {
    let mut b = HighScores::new();
    for i in 0..n {
        b.record(&format!("P{i}"), (n - i) as u32 * 10, 100);
    }
    b
}

fn layout() -> HighScoreLayout {
    HighScoreLayout {
        origin: Point::new(16, 60),
        row_pitch: 36,
        column_width: 300,
        rows_per_column: 5,
        name_width: 5,
    }
}

fn header() -> BoardLine {
    BoardLine { text: "HIGH SCORES".to_string(), at: Point::new(16, 8), scale: 2 }
}

fn footer() -> BoardFooter {
    BoardFooter { text: "PRESS ENTER".to_string(), gap_below_rows: 12, scale: 1 }
}

fn spec(capacity: usize, header: Option<BoardLine>, footer: Option<BoardFooter>) -> HighScoreBoardSpec {
    HighScoreBoardSpec { layout: layout(), capacity, row_scale: 1, header, footer }
}

fn line_count(scores: &HighScores, spec: &HighScoreBoardSpec) -> usize {
    HighScoreBoard::new(scores, spec).lines().len()
}

#[test]
fn bakes_a_header_every_row_and_a_footer() {
    let scores = board_of(3);
    assert_eq!(line_count(&scores, &spec(10, Some(header()), Some(footer()))), 1 + 3 + 1);
}

#[test]
fn omits_an_absent_header_and_footer() {
    let scores = board_of(2);
    assert_eq!(line_count(&scores, &spec(10, None, None)), 2, "just the rows");
}

#[test]
fn caps_the_rows_at_capacity() {
    let scores = board_of(8);
    assert_eq!(line_count(&scores, &spec(3, None, None)), 3);
}

#[test]
fn into_banners_yields_the_same_stack_collect_layers_borrows() {
    let scores = board_of(3);
    let s = spec(10, Some(header()), Some(footer()));
    let lines = HighScoreBoard::new(&scores, &s).into_lines();
    assert_eq!(lines.len(), 1 + 3 + 1);
    assert_eq!(&lines, HighScoreBoard::new(&scores, &s).lines());
}

#[test]
fn an_empty_board_still_bakes_the_header_and_footer() {
    let scores = HighScores::new();
    assert_eq!(line_count(&scores, &spec(10, Some(header()), Some(footer()))), 2, "header and footer, no rows");
}

#[test]
fn the_lines_run_header_rows_footer_with_the_footer_under_the_tallest_column() {
    let scores = board_of(7);
    let lines = HighScoreBoard::new(&scores, &spec(10, Some(header()), Some(footer()))).into_lines();
    assert_eq!(lines[0], header());
    assert_eq!(lines[1].text, " 1 P0      70");
    assert_eq!(lines[1].at, Point::new(16, 60));
    assert_eq!(lines[6].at, Point::new(316, 60), "the sixth row wraps to the next column");
    // Five rows deep at a 36 pixel pitch, then the 12 pixel gap.
    assert_eq!(
        lines[8],
        BoardLine { text: "PRESS ENTER".to_string(), at: Point::new(16, 60 + 5 * 36 + 12), scale: 1 }
    );
}
