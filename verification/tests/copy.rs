use ratgames::copy::fill_placeholders;

#[test]
fn fill_substitutes_placeholders_left_to_right() {
    assert_eq!(
        fill_placeholders(
            "SCORE {}  LIVES {}  L{}",
            &["10".into(), "3".into(), "2".into()]
        ),
        "SCORE 10  LIVES 3  L2"
    );
    // A surplus placeholder keeps its braces; extra args are ignored.
    assert_eq!(fill_placeholders("{} of {}", &["1".into()]), "1 of {}");
    assert_eq!(fill_placeholders("no args", &["x".into()]), "no args");
    assert_eq!(fill_placeholders("{}%", &["87".into()]), "87%");
}
