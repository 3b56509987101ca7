use textutils::lines::find_line_end;

#[test]
fn a_line_ends_after_its_newline() {
    let input = b"one\n\ntwo";
    assert_eq!(find_line_end(input, 0), 4);
    assert_eq!(find_line_end(input, 1), 4);
    assert_eq!(find_line_end(input, 3), 4);
    assert_eq!(find_line_end(input, 4), 5);
    assert_eq!(find_line_end(input, 5), 8);
    assert_eq!(find_line_end(input, 7), 8);
}

#[test]
fn a_line_that_begins_past_the_end_ends_at_the_end() {
    let input = b"one\n";
    assert_eq!(find_line_end(input, 4), 4);
    assert_eq!(find_line_end(input, 5), 4);
    assert_eq!(find_line_end(input, usize::MAX), 4);
    assert_eq!(find_line_end(b"", 0), 0);
}
