//! Where an annotation goes on the screen: after the end of the cursor's
//! line, a few columns apart from the text.

use vstd::prelude::*;

verus! {

/// The columns left free between the end of a line and its annotation.
pub const GAP: u16 = 6;

/// An annotation to be drawn at the end of the cursor's line.
pub struct InlineBlame {
    message: String,
    cursor: usize,
}

/// The column at which the annotation of a line starts whose text ends at
/// the column `end_of_line`; none where that column cannot be numbered.
pub open spec fn start_after(end_of_line: int) -> Option<int> {
    if end_of_line + GAP <= u16::MAX {
        Some(end_of_line + GAP)
    } else {
        None
    }
}

/// How many columns are taken up past the end of a line when drawing stopped
/// at the screen column `stopped_at`: the columns from the end of the line's
/// visible part, which is `end_of_line` less the `offset` by which the view
/// is scrolled sideways. Never less than none.
pub open spec fn columns_past(stopped_at: int, end_of_line: int, offset: int) -> int {
    let line_length = end_of_line - offset;
    if stopped_at >= line_length {
        stopped_at - line_length
    } else {
        0
    }
}

impl InlineBlame {
    /// The line of the document that the annotation belongs to.
    pub closed spec fn spec_cursor(&self) -> usize {
        self.cursor
    }

    /// The text of the annotation.
    pub closed spec fn spec_message(&self) -> Seq<char> {
        self.message@
    }

    /// The annotation `message` for the line `cursor`.
    pub fn new(cursor: usize, message: String) -> (blame: InlineBlame)
        ensures
            blame.spec_cursor() == cursor,
            blame.spec_message() == message@,
    {
        InlineBlame { message, cursor }
    }

    /// The text of the annotation.
    pub fn message(&self) -> (message: &String)
        ensures
            message@ == self.spec_message(),
    {
        &self.message
    }

    /// The column at which to start drawing on the line `doc_line`, whose
    /// text ends at the column `end_of_line`: none on every line but the
    /// cursor's.
    pub fn start_column(&self, doc_line: usize, end_of_line: u16) -> (start: Option<u16>)
        ensures
            doc_line != self.spec_cursor() ==> start is None,
            doc_line == self.spec_cursor() ==> match start {
                Some(column) => start_after(end_of_line as int) == Some(column as int),
                None => start_after(end_of_line as int) is None,
            },
    {
        if self.cursor != doc_line || end_of_line > u16::MAX - GAP {
            None
        } else {
            Some(end_of_line + GAP)
        }
    }

    /// How many columns the annotation may take up in a view that is `width`
    /// columns wide, when it starts at the column `start`.
    pub fn available_width(width: u16, start: u16) -> (columns: usize)
        ensures
            columns == if width >= start { width - start } else { 0 },
    {
        if width >= start {
            (width - start) as usize
        } else {
            0
        }
    }

    /// How many columns were taken up past the end of the line. See
    /// [`columns_past`].
    pub fn columns_drawn(stopped_at: u16, end_of_line: u16, offset: u16) -> (columns: usize)
        ensures
            columns == columns_past(stopped_at as int, end_of_line as int, offset as int),
    {
        let stopped: i32 = stopped_at as i32;
        let line_length: i32 = end_of_line as i32 - offset as i32;
        if stopped >= line_length {
            (stopped - line_length) as usize
        } else {
            0
        }
    }
}

} // verus!
