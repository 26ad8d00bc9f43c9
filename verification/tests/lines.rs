use mds::lines::find_position;

#[test]
fn first_byte_is_line_one_column_one() {
    let p = find_position("hello\nworld\n", 0);
    assert_eq!((p.line, p.column), (1, 1));
}

#[test]
fn positions_count_lines_and_characters() {
    let text = "ab\ncd\nef";
    let p = find_position(text, 4);
    assert_eq!((p.line, p.column), (2, 2));
    let p = find_position(text, 6);
    assert_eq!((p.line, p.column), (3, 1));
    let p = find_position(text, 8);
    assert_eq!((p.line, p.column), (3, 3));
}

#[test]
fn text_without_newline_is_one_line() {
    let p = find_position("hello", 3);
    assert_eq!((p.line, p.column), (1, 4));
    let p = find_position("", 0);
    assert_eq!((p.line, p.column), (1, 1));
}

#[test]
fn trailing_newline_opens_no_line_of_its_own() {
    let p = find_position("ab\n", 3);
    assert_eq!((p.line, p.column), (1, 4));
}

#[test]
fn columns_count_characters_not_bytes() {
    let p = find_position("é\nx", 3);
    assert_eq!((p.line, p.column), (2, 1));
    let p = find_position("aé", 3);
    assert_eq!((p.line, p.column), (1, 3));
    let p = find_position("🙂 - [x] task", 7);
    assert_eq!((p.line, p.column), (1, 5));
}
