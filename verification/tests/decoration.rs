use inline_blame::decoration::{InlineBlame, GAP};

#[test]
fn the_annotation_is_kept_as_given() {
    let blame = InlineBlame::new(3, "Bob, 2028-01-10".to_owned());
    assert_eq!(blame.message(), "Bob, 2028-01-10");
}

#[test]
fn only_the_cursor_line_is_annotated() {
    let blame = InlineBlame::new(3, "Bob".to_owned());
    assert_eq!(blame.start_column(2, 10), None);
    assert_eq!(blame.start_column(4, 10), None);
    assert_eq!(blame.start_column(3, 10), Some(16));
    assert_eq!(blame.start_column(3, 0), Some(GAP));
}

#[test]
fn a_line_that_ends_at_the_last_column_is_not_annotated() {
    let blame = InlineBlame::new(0, "Bob".to_owned());
    assert_eq!(blame.start_column(0, u16::MAX - 6), Some(u16::MAX));
    assert_eq!(blame.start_column(0, u16::MAX - 5), None);
    assert_eq!(blame.start_column(0, u16::MAX), None);
}

#[test]
fn the_width_left_is_what_the_view_has_past_the_start() {
    assert_eq!(InlineBlame::available_width(80, 16), 64);
    assert_eq!(InlineBlame::available_width(80, 80), 0);
    assert_eq!(InlineBlame::available_width(80, 90), 0);
}

#[test]
fn columns_are_counted_from_the_end_of_the_visible_line() {
    assert_eq!(InlineBlame::columns_drawn(31, 10, 0), 21);
    assert_eq!(InlineBlame::columns_drawn(31, 10, 4), 25);
    assert_eq!(InlineBlame::columns_drawn(5, 10, 0), 0);
    assert_eq!(InlineBlame::columns_drawn(0, 0, u16::MAX), 65_535);
    assert_eq!(InlineBlame::columns_drawn(u16::MAX, 0, u16::MAX), 131_070);
}
