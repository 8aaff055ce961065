//! Cursor motion, as mathematics: each motion is a function from the lines
//! of a text and a position to the next position.
//!
//! Words are runs of characters outside the whitespace class; nothing else
//! separates them.

use vstd::prelude::*;
use crate::lines::{addressable, in_bounds, tables_wf};
use crate::text::is_whitespace_char;

verus! {

/// The length of line `row`, or 0 where there is no such line.
pub open spec fn line_len(lines: Seq<Seq<char>>, row: int) -> int {
    if 0 <= row < lines.len() {
        lines[row].len() as int
    } else {
        0
    }
}

/// `col`, pulled back to the end of line `row` if it lies behind it. Where
/// there is no such line the column stays.
pub open spec fn clamp_col(lines: Seq<Seq<char>>, row: int, col: int) -> int {
    if 0 <= row < lines.len() && lines[row].len() < col {
        lines[row].len() as int
    } else {
        col
    }
}

/// One row up, the column clamped to the new line.
pub open spec fn up(lines: Seq<Seq<char>>, pos: (int, int)) -> (int, int) {
    if pos.0 > 0 {
        (pos.0 - 1, clamp_col(lines, pos.0 - 1, pos.1))
    } else {
        pos
    }
}

/// One row down if there is one, the column clamped to the new line.
pub open spec fn down(lines: Seq<Seq<char>>, pos: (int, int)) -> (int, int) {
    if 0 <= pos.0 && pos.0 + 1 < lines.len() {
        (pos.0 + 1, clamp_col(lines, pos.0 + 1, pos.1))
    } else {
        pos
    }
}

/// One column left; from the start of a line to the end of the line before.
pub open spec fn left(lines: Seq<Seq<char>>, pos: (int, int)) -> (int, int) {
    if pos.1 > 0 {
        (pos.0, pos.1 - 1)
    } else if pos.0 > 0 {
        (pos.0 - 1, line_len(lines, pos.0 - 1))
    } else {
        pos
    }
}

/// One column right; from the end of a line to the start of the next one.
pub open spec fn right(lines: Seq<Seq<char>>, pos: (int, int)) -> (int, int) {
    if pos.1 < line_len(lines, pos.0) {
        (pos.0, pos.1 + 1)
    } else if 0 <= pos.0 && pos.0 + 1 < lines.len() {
        (pos.0 + 1, 0)
    } else {
        pos
    }
}

/// The start of the current line.
pub open spec fn line_start(pos: (int, int)) -> (int, int) {
    (pos.0, 0)
}

/// The end of the current line.
pub open spec fn line_end(lines: Seq<Seq<char>>, pos: (int, int)) -> (int, int) {
    (pos.0, line_len(lines, pos.0))
}

/// The start of the last line, if there is any line.
pub open spec fn bottom(lines: Seq<Seq<char>>, pos: (int, int)) -> (int, int) {
    if lines.len() > 0 {
        (lines.len() - 1, 0)
    } else {
        pos
    }
}

/// The first column at or after `col` that does not hold a non-whitespace
/// character of `line`.
pub open spec fn skip_word(line: Seq<char>, col: int) -> int
    decreases line.len() - col,
{
    if 0 <= col < line.len() && !is_whitespace_char(line[col]) {
        skip_word(line, col + 1)
    } else {
        col
    }
}

/// The first column at or after `col` that does not hold a whitespace
/// character of `line`.
pub open spec fn skip_space(line: Seq<char>, col: int) -> int
    decreases line.len() - col,
{
    if 0 <= col < line.len() && is_whitespace_char(line[col]) {
        skip_space(line, col + 1)
    } else {
        col
    }
}

/// The last column at or before `col` that has no whitespace character of
/// `line` just before it.
pub open spec fn back_space(line: Seq<char>, col: int) -> int
    decreases col,
{
    if 0 < col <= line.len() && is_whitespace_char(line[col - 1]) {
        back_space(line, col - 1)
    } else {
        col
    }
}

/// The last column at or before `col` that has no non-whitespace character
/// of `line` just before it.
pub open spec fn back_word(line: Seq<char>, col: int) -> int
    decreases col,
{
    if 0 < col <= line.len() && !is_whitespace_char(line[col - 1]) {
        back_word(line, col - 1)
    } else {
        col
    }
}

/// Forward to the start of the next word: over the rest of the current
/// word, then over the whitespace behind it. From there, if the line is
/// used up and another line follows, to the start of that line.
pub open spec fn word_forward(lines: Seq<Seq<char>>, pos: (int, int)) -> (int, int) {
    if 0 <= pos.0 < lines.len() {
        let line = lines[pos.0];
        let col = skip_space(line, skip_word(line, pos.1));
        if col >= line.len() && pos.0 + 1 < lines.len() {
            (pos.0 + 1, 0)
        } else {
            (pos.0, col)
        }
    } else {
        pos
    }
}

/// Back to the start of the word before the cursor: over the whitespace
/// before the cursor, then over the word before that. From column 0, to the
/// end of the line before.
pub open spec fn word_back(lines: Seq<Seq<char>>, pos: (int, int)) -> (int, int) {
    if pos.1 == 0 {
        if pos.0 > 0 {
            (pos.0 - 1, line_len(lines, pos.0 - 1))
        } else {
            pos
        }
    } else if 0 <= pos.0 < lines.len() {
        let line = lines[pos.0];
        (pos.0, back_word(line, back_space(line, pos.1)))
    } else {
        pos
    }
}

/// What the two forward scans return: a column between the starting column
/// and the end of the line, with only characters of the skipped class in
/// between, and a character of the other class (or the end of the line)
/// at it.
pub proof fn lemma_skip_forward(line: Seq<char>, col: int)
    requires
        0 <= col <= line.len(),
    ensures
        col <= skip_word(line, col) <= line.len(),
        forall|j: int| col <= j < skip_word(line, col) ==> !is_whitespace_char(line[j]),
        skip_word(line, col) < line.len() ==> is_whitespace_char(line[skip_word(line, col)]),
        col <= skip_space(line, col) <= line.len(),
        forall|j: int| col <= j < skip_space(line, col) ==> is_whitespace_char(line[j]),
        skip_space(line, col) < line.len() ==> !is_whitespace_char(line[skip_space(line, col)]),
    decreases line.len() - col,
{
    if col < line.len() {
        lemma_skip_forward(line, col + 1);
    }
}

/// What the two backward scans return: a column between 0 and the starting
/// column, with only characters of the skipped class in between, and a
/// character of the other class (or the start of the line) just before it.
pub proof fn lemma_skip_backward(line: Seq<char>, col: int)
    requires
        0 <= col <= line.len(),
    ensures
        0 <= back_space(line, col) <= col,
        forall|j: int| back_space(line, col) <= j < col ==> is_whitespace_char(line[j]),
        back_space(line, col) > 0 ==> !is_whitespace_char(line[back_space(line, col) - 1]),
        0 <= back_word(line, col) <= col,
        forall|j: int| back_word(line, col) <= j < col ==> !is_whitespace_char(line[j]),
        back_word(line, col) > 0 ==> is_whitespace_char(line[back_word(line, col) - 1]),
    decreases col,
{
    if col > 0 {
        lemma_skip_backward(line, col - 1);
    }
}

/// No motion takes a cursor off the text.
pub proof fn lemma_motions_stay_on_text(lines: Seq<Seq<char>>, pos: (int, int))
    requires
        in_bounds(lines, pos),
    ensures
        in_bounds(lines, up(lines, pos)),
        in_bounds(lines, down(lines, pos)),
        in_bounds(lines, left(lines, pos)),
        in_bounds(lines, right(lines, pos)),
        in_bounds(lines, line_start(pos)),
        in_bounds(lines, line_end(lines, pos)),
        in_bounds(lines, (0int, 0int)),
        in_bounds(lines, bottom(lines, pos)),
        in_bounds(lines, word_forward(lines, pos)),
        in_bounds(lines, word_back(lines, pos)),
{
    if lines.len() > 0 {
        let line = lines[pos.0];
        lemma_skip_forward(line, pos.1);
        lemma_skip_forward(line, skip_word(line, pos.1));
        lemma_skip_backward(line, pos.1);
        lemma_skip_backward(line, back_space(line, pos.1));
    }
}

/// No motion takes an addressable cursor to a position that is not: its
/// offset stays within the limit, provided the text itself does.
pub proof fn lemma_motions_stay_addressable(
    starts: Seq<int>,
    lines: Seq<Seq<char>>,
    total: int,
    pos: (int, int),
    limit: int,
)
    requires
        tables_wf(starts, lines, total),
        total <= limit,
        addressable(starts, pos, limit),
    ensures
        addressable(starts, up(lines, pos), limit),
        addressable(starts, down(lines, pos), limit),
        addressable(starts, left(lines, pos), limit),
        addressable(starts, right(lines, pos), limit),
        addressable(starts, line_start(pos), limit),
        addressable(starts, line_end(lines, pos), limit),
        addressable(starts, (0int, 0int), limit),
        addressable(starts, bottom(lines, pos), limit),
        addressable(starts, word_forward(lines, pos), limit),
        addressable(starts, word_back(lines, pos), limit),
{
    let row = pos.0;
    assert forall|r: int| 0 <= r < lines.len() implies #[trigger] lines[r].len() + starts[r]
        <= total by {
        if r + 1 < starts.len() {
            assert(starts[r + 1] <= starts[starts.len() - 1]);
        }
    }
    assert forall|r: int| 0 <= r < starts.len() implies #[trigger] starts[r] <= total by {
        assert(starts[r] <= starts[starts.len() - 1]);
    }
    if row > 0 {
        assert(starts[row - 1] < starts[row]);
    }
    if row < lines.len() {
        let line = lines[row];
        if pos.1 <= line.len() {
            lemma_skip_forward(line, pos.1);
            lemma_skip_forward(line, skip_word(line, pos.1));
            lemma_skip_backward(line, pos.1);
            lemma_skip_backward(line, back_space(line, pos.1));
        }
    }
}

} // verus!
