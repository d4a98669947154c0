use ratgames::input::InputLine;

#[test]
fn editing_tracks_cursor_across_utf8() {
    let mut line = InputLine::new();
    line.insert('h');
    line.insert('i');
    assert_eq!(line.text(), "hi");
    assert_eq!(line.cursor(), 2);

    line.insert('é');
    assert_eq!(line.text(), "hié");
    assert_eq!(line.cursor(), 4);

    assert!(line.backspace());
    assert_eq!(line.text(), "hi");
    assert_eq!(line.cursor(), 2);
}

#[test]
fn backspace_at_start_is_a_noop() {
    let mut line = InputLine::new();
    assert!(!line.backspace());
    assert_eq!(line.text(), "");
}

#[test]
fn clear_resets_buffer_and_cursor() {
    let mut line = InputLine::new();
    line.insert('x');
    line.clear();
    assert_eq!(line.text(), "");
    assert_eq!(line.cursor(), 0);
}

#[test]
fn submit_returns_the_answer_and_clears() {
    let mut line = InputLine::new();
    for ch in "12".chars() {
        line.insert(ch);
    }
    // Mirror InputField::submit's read-then-clear on the model it wraps.
    let answer = line.text().to_string();
    line.clear();
    assert_eq!(answer, "12");
    assert_eq!(line.text(), "");
}
