//! The line structure of a text, as mathematics.
//!
//! A text is a sequence of characters. Its lines begin at offset 0 and
//! behind every newline; a position `(row, column)` and a flat offset name
//! the same place when the offset is the start of the row plus the column.

use vstd::prelude::*;

verus! {

/// The offsets at which the lines of `content` begin: offset 0, and the
/// offset behind every newline character, in ascending order.
pub open spec fn line_starts_of(content: Seq<char>) -> Seq<int>
    decreases content.len(),
{
    if content.len() == 0 {
        seq![0int]
    } else if content.last() == '\n' {
        line_starts_of(content.drop_last()).push(content.len() as int)
    } else {
        line_starts_of(content.drop_last())
    }
}

/// A line without the carriage return that may end it.
pub open spec fn strip_cr(raw: Seq<char>) -> Seq<char> {
    if raw.len() > 0 && raw.last() == '\r' {
        raw.drop_last()
    } else {
        raw
    }
}

/// The number of lines that `content` shows: one for every newline, and one
/// more if characters follow the last newline.
pub open spec fn line_count_of(content: Seq<char>) -> int {
    let starts = line_starts_of(content);
    if starts.last() < content.len() {
        starts.len() as int
    } else {
        starts.len() - 1
    }
}

/// Line `i` of `content` as it is shown. A line ended by a newline runs up
/// to that newline and loses a carriage return just before it; the last
/// line, when no newline ends it, runs to the end of the content.
pub open spec fn line_of(content: Seq<char>, i: int) -> Seq<char>
    recommends
        0 <= i < line_count_of(content),
{
    let starts = line_starts_of(content);
    if i + 1 < starts.len() {
        strip_cr(content.subrange(starts[i], starts[i + 1] - 1))
    } else {
        content.subrange(starts[i], content.len() as int)
    }
}

/// The lines of `content` as they are shown.
pub open spec fn lines_of(content: Seq<char>) -> Seq<Seq<char>> {
    Seq::new(line_count_of(content) as nat, |i: int| line_of(content, i))
}

/// The offset of position `(row, col)`: the start of the row plus the
/// column, or the end of the text (`total`) for a row past the last
/// line start.
pub open spec fn offset_at(starts: Seq<int>, total: int, row: int, col: int) -> int {
    if 0 <= row < starts.len() {
        starts[row] + col
    } else {
        total
    }
}

/// The position of `offset`: the last row that starts at or before it, and
/// the distance from that start. `(0, 0)` if no row does.
pub open spec fn cursor_at(starts: Seq<int>, offset: int) -> (int, int)
    decreases starts.len(),
{
    if starts.len() == 0 {
        (0, 0)
    } else if starts.last() <= offset {
        (starts.len() - 1, offset - starts.last())
    } else {
        cursor_at(starts.drop_last(), offset)
    }
}

/// The offset of position `(row, col)` in `content`.
pub open spec fn offset_of(content: Seq<char>, row: int, col: int) -> int {
    offset_at(line_starts_of(content), content.len() as int, row, col)
}

/// The position of `offset` in `content`.
pub open spec fn cursor_of(content: Seq<char>, offset: int) -> (int, int) {
    cursor_at(line_starts_of(content), offset)
}

/// Whether a position lies on the text: on an existing line and not behind
/// its end. On a text without lines only `(0, 0)` does.
pub open spec fn in_bounds(lines: Seq<Seq<char>>, pos: (int, int)) -> bool {
    if lines.len() == 0 {
        pos == (0int, 0int)
    } else {
        0 <= pos.0 < lines.len() && 0 <= pos.1 <= lines[pos.0].len()
    }
}

/// Whether a position can be turned into an offset that does not exceed
/// `limit`: its row has a line start, and that start plus the column stays
/// within the limit. Positions on the text are of this kind, and so are the
/// positions of offsets.
pub open spec fn addressable(starts: Seq<int>, pos: (int, int), limit: int) -> bool {
    &&& 0 <= pos.0 < starts.len()
    &&& 0 <= pos.1
    &&& starts[pos.0] + pos.1 <= limit
}

/// What ties the two tables of a cursor together. The line starts begin
/// with 0, ascend strictly and stay within the text; there is a line for
/// every line start but possibly the last; and every line fits between its
/// start and the newline before the next start (or the end of the text).
pub open spec fn tables_wf(starts: Seq<int>, lines: Seq<Seq<char>>, total: int) -> bool {
    &&& starts.len() >= 1
    &&& starts[0] == 0
    &&& forall|i: int, j: int| 0 <= i < j < starts.len() ==> starts[i] < starts[j]
    &&& starts.last() <= total
    &&& starts.len() - 1 <= lines.len() <= starts.len()
    &&& forall|i: int|
        0 <= i < lines.len() ==> #[trigger] lines[i].len() + starts[i] <= (if i + 1 < starts.len() {
            starts[i + 1] - 1
        } else {
            total
        })
}

/// A table of line starts as mathematical integers.
pub open spec fn starts_view(starts: Seq<usize>) -> Seq<int> {
    Seq::new(starts.len(), |i: int| starts[i] as int)
}

/// The line starts of a text begin with 0, ascend strictly and do not pass
/// the end of the text.
pub proof fn lemma_line_starts(content: Seq<char>)
    ensures
        line_starts_of(content).len() >= 1,
        line_starts_of(content)[0] == 0,
        forall|i: int, j: int|
            0 <= i < j < line_starts_of(content).len() ==> line_starts_of(content)[i]
                < line_starts_of(content)[j],
        forall|i: int|
            0 <= i < line_starts_of(content).len() ==> 0 <= #[trigger] line_starts_of(content)[i]
                <= content.len(),
    decreases content.len(),
{
    if content.len() > 0 {
        lemma_line_starts(content.drop_last());
    }
}

/// A line start other than 0 stands right behind a newline, and no newline
/// stands between a line start and the newline that ends its line.
pub proof fn lemma_line_starts_follow_newlines(content: Seq<char>)
    ensures
        forall|i: int|
            1 <= i < line_starts_of(content).len() ==> 0 < #[trigger] line_starts_of(content)[i]
                <= content.len() && content[line_starts_of(content)[i] - 1] == '\n',
        forall|k: int|
            0 <= k < content.len() && content[k] == '\n' ==> line_starts_of(content).contains(
                k + 1,
            ),
    decreases content.len(),
{
    let starts = line_starts_of(content);
    if content.len() > 0 {
        let front = content.drop_last();
        let before = line_starts_of(front);
        lemma_line_starts_follow_newlines(front);
        lemma_line_starts(front);
        assert forall|i: int| 1 <= i < starts.len() implies 0 < #[trigger] starts[i]
            <= content.len() && content[starts[i] - 1] == '\n' by {
            if i < before.len() {
                assert(starts[i] == before[i]);
                assert(content[before[i] - 1] == front[before[i] - 1]);
            }
        }
        assert forall|k: int| 0 <= k < content.len() && content[k] == '\n' implies starts.contains(
            k + 1,
        ) by {
            if k < front.len() {
                assert(front[k] == '\n');
                let i = choose|i: int| 0 <= i < before.len() && before[i] == k + 1;
                assert(starts[i] == k + 1);
            } else {
                assert(starts[starts.len() - 1] == k + 1);
            }
        }
    }
}

/// The tables of any text whose length the machine can hold fit together.
pub proof fn lemma_tables_of_content(content: Seq<char>)
    ensures
        tables_wf(line_starts_of(content), lines_of(content), content.len() as int),
{
    let starts = line_starts_of(content);
    let lines = lines_of(content);
    lemma_line_starts(content);
    assert forall|i: int| 0 <= i < lines.len() implies #[trigger] lines[i].len() + starts[i] <= (
    if i + 1 < starts.len() {
        starts[i + 1] - 1
    } else {
        content.len() as int
    }) by {
        if i + 1 < starts.len() {
            assert(starts[i] < starts[i + 1]);
        }
    }
}

/// No line holds a newline: the lines are what lies between the newlines
/// of the text.
pub proof fn lemma_lines_hold_no_newline(content: Seq<char>, i: int, j: int)
    requires
        0 <= i < line_count_of(content),
        0 <= j < line_of(content, i).len(),
    ensures
        line_of(content, i)[j] != '\n',
        line_of(content, i)[j] == content[line_starts_of(content)[i] + j],
{
    let starts = line_starts_of(content);
    lemma_line_starts(content);
    lemma_line_starts_follow_newlines(content);
    let k = starts[i] + j;
    if i + 1 < starts.len() {
        assert(starts[i] < starts[i + 1]);
    }
    assert(line_of(content, i)[j] == content[k]);
    if content[k] == '\n' {
        assert(starts.contains(k + 1));
        let m = choose|m: int| 0 <= m < starts.len() && starts[m] == k + 1;
        if m <= i {
            if m < i {
                assert(starts[m] < starts[i]);
            }
        } else if i + 1 < starts.len() {
            if i + 1 < m {
                assert(starts[i + 1] < starts[m]);
            }
        }
    }
}

/// The position of an offset is the one row whose line start lies at or
/// before the offset while the next line start, if any, lies behind it.
pub proof fn lemma_cursor_at_finds(starts: Seq<int>, offset: int, row: int)
    requires
        forall|i: int, j: int| 0 <= i < j < starts.len() ==> starts[i] < starts[j],
        0 <= row < starts.len(),
        starts[row] <= offset,
        row + 1 < starts.len() ==> offset < starts[row + 1],
    ensures
        cursor_at(starts, offset) == (row, offset - starts[row]),
    decreases starts.len(),
{
    if starts.last() <= offset {
        if row < starts.len() - 1 {
            assert(starts[row + 1] <= starts[starts.len() - 1]);
        }
    } else {
        let front = starts.drop_last();
        assert forall|i: int, j: int| 0 <= i < j < front.len() implies front[i] < front[j] by {
            assert(front[i] == starts[i] && front[j] == starts[j]);
        }
        lemma_cursor_at_finds(front, offset, row);
    }
}

/// What [`cursor_at`] returns for an offset that is not negative: a row of
/// the table that starts at or before the offset, such that every later
/// row starts behind it, and the distance from that start.
pub proof fn lemma_cursor_at(starts: Seq<int>, offset: int)
    requires
        starts.len() >= 1,
        starts[0] == 0,
        0 <= offset,
    ensures
        0 <= cursor_at(starts, offset).0 < starts.len(),
        0 <= cursor_at(starts, offset).1,
        starts[cursor_at(starts, offset).0] + cursor_at(starts, offset).1 == offset,
        forall|j: int| cursor_at(starts, offset).0 < j < starts.len() ==> offset < starts[j],
    decreases starts.len(),
{
    if starts.last() > offset {
        let front = starts.drop_last();
        lemma_cursor_at(front, offset);
        assert forall|j: int| cursor_at(starts, offset).0 < j < starts.len() implies offset
            < starts[j] by {
            if j < front.len() {
                assert(front[j] == starts[j]);
            }
        }
    }
}

/// Going from a position on the text to its offset and back gives the
/// position again, and the offset lies within the text.
pub proof fn lemma_round_trip_tables(
    starts: Seq<int>,
    lines: Seq<Seq<char>>,
    total: int,
    row: int,
    col: int,
)
    requires
        tables_wf(starts, lines, total),
        in_bounds(lines, (row, col)),
    ensures
        0 <= offset_at(starts, total, row, col) <= total,
        cursor_at(starts, offset_at(starts, total, row, col)) == (row, col),
{
    if lines.len() == 0 {
        lemma_cursor_at_finds(starts, 0, 0);
    } else {
        assert(lines[row].len() + starts[row] <= (if row + 1 < starts.len() {
            starts[row + 1] - 1
        } else {
            total
        }));
        if row + 1 < starts.len() {
            assert(starts[row + 1] <= starts[starts.len() - 1]);
        }
        if row > 0 {
            assert(starts[0] < starts[row]);
        }
        lemma_cursor_at_finds(starts, starts[row] + col, row);
    }
}

/// The round trip for any text: a position on the text is found again from
/// its offset.
pub proof fn lemma_round_trip(content: Seq<char>, row: int, col: int)
    requires
        in_bounds(lines_of(content), (row, col)),
    ensures
        0 <= offset_of(content, row, col) <= content.len(),
        cursor_of(content, offset_of(content, row, col)) == (row, col),
{
    lemma_tables_of_content(content);
    lemma_round_trip_tables(
        line_starts_of(content),
        lines_of(content),
        content.len() as int,
        row,
        col,
    );
}

/// The other way round: the position of an offset has that offset.
pub proof fn lemma_offset_round_trip(content: Seq<char>, offset: int)
    requires
        0 <= offset,
    ensures
        offset_of(content, cursor_of(content, offset).0, cursor_of(content, offset).1) == offset,
{
    lemma_line_starts(content);
    lemma_cursor_at(line_starts_of(content), offset);
}

/// A position on the text is addressable within the length of the text,
/// and so is the position of any offset within its own value.
pub proof fn lemma_addressable(
    starts: Seq<int>,
    lines: Seq<Seq<char>>,
    total: int,
    pos: (int, int),
    offset: int,
)
    requires
        tables_wf(starts, lines, total),
        0 <= offset,
    ensures
        in_bounds(lines, pos) ==> addressable(starts, pos, total),
        addressable(starts, cursor_at(starts, offset), offset),
        addressable(starts, (0int, 0int), total),
{
    lemma_cursor_at(starts, offset);
    if in_bounds(lines, pos) {
        lemma_round_trip_tables(starts, lines, total, pos.0, pos.1);
    }
}

} // verus!
