use sysfetch::swatch::get_colours;

#[test]
fn swatch_row_one_is_the_eight_standard_colours() {
    let (row1, _) = get_colours();
    let expected = (30..38)
        .map(|i| format!("\u{1b}[{}m\u{2b23}", i))
        .collect::<Vec<String>>()
        .join(" ");
    assert_eq!(row1, expected);
    assert_eq!(row1.matches('\u{1b}').count(), 8);
    assert_eq!(row1.matches(' ').count(), 7);
}

#[test]
fn swatch_row_two_is_the_eight_bright_colours_indented() {
    let (_, row2) = get_colours();
    let expected = format!(
        " {}",
        (90..98)
            .map(|i| format!("\u{1b}[{}m\u{2b23}", i))
            .collect::<Vec<String>>()
            .join(" ")
    );
    assert_eq!(row2, expected);
    assert!(row2.starts_with(' '));
    assert_eq!(row2.matches('\u{1b}').count(), 8);
}
