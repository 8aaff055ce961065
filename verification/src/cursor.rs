//! The cursor: a `(row, column)` position over the lines of a text, and the
//! translation between such positions and flat character offsets.
//!
//! Rows, columns and offsets all count characters. The index keeps two
//! tables of the text it was built from: the offset at which each line
//! starts, and the lines themselves as they are shown.

use vstd::prelude::*;
use vstd::string::*;
use crate::lines::{
    addressable, cursor_at, in_bounds, lemma_tables_of_content, line_starts_of, lines_of, offset_at,
    starts_view, strip_cr, tables_wf,
};
use crate::motion::{
    back_space, back_word, bottom, clamp_col, down, left, lemma_motions_stay_on_text, line_end,
    line_len, line_start, right, skip_space, skip_word, up, word_back, word_forward,
};
use crate::text::chars_of;

verus! {

/// A table of lines as character sequences.
pub open spec fn lines_view(lines: Seq<String>) -> Seq<Seq<char>> {
    Seq::new(lines.len(), |i: int| lines[i]@)
}

/// The two tables of a text: where each line starts, and the lines as they
/// are shown. Built once from the full text.
#[derive(Debug)]
pub struct TextIndex {
    /// Line start offsets for coordinate translation.
    line_starts: Vec<usize>,
    /// Lines of content.
    lines: Vec<String>,
    /// Number of characters of the content.
    total: usize,
}

impl TextIndex {
    /// The table of line starts.
    pub closed spec fn starts(&self) -> Seq<int> {
        starts_view(self.line_starts@)
    }

    /// The lines, as character sequences.
    pub closed spec fn lines(&self) -> Seq<Seq<char>> {
        lines_view(self.lines@)
    }

    /// The number of characters of the text.
    pub closed spec fn total(&self) -> int {
        self.total as int
    }

    /// The tables are those of `content`.
    pub open spec fn holds(&self, content: Seq<char>) -> bool {
        &&& self.starts() == line_starts_of(content)
        &&& self.lines() == lines_of(content)
        &&& self.total() == content.len()
    }

    /// The tables fit together. Every index does: the type keeps this
    /// invariant.
    #[verifier::type_invariant]
    pub open spec fn wf(&self) -> bool {
        &&& tables_wf(self.starts(), self.lines(), self.total())
        &&& self.total() <= usize::MAX
    }

    /// Both indexes hold the same tables.
    pub open spec fn same_text(&self, other: &TextIndex) -> bool {
        &&& self.starts() == other.starts()
        &&& self.lines() == other.lines()
        &&& self.total() == other.total()
    }

    /// The index of the empty text.
    pub fn new() -> (r: Self)
        ensures
            r.holds(Seq::<char>::empty()),
            r.wf(),
    {
        let mut line_starts: Vec<usize> = Vec::new();
        line_starts.push(0);
        let lines: Vec<String> = Vec::new();
        proof {
            assert(starts_view(line_starts@) =~= line_starts_of(Seq::<char>::empty()));
            assert(lines_view(lines@) =~= lines_of(Seq::<char>::empty()));
            lemma_tables_of_content(Seq::<char>::empty());
        }
        TextIndex { line_starts, lines, total: 0 }
    }

    /// Builds the index of `content`.
    pub fn from_content(content: &str) -> (r: Self)
        ensures
            r.holds(content@),
            r.wf(),
    {
        let total = content.unicode_len();
        let mut line_starts: Vec<usize> = Vec::new();
        line_starts.push(0);
        let mut lines: Vec<String> = Vec::new();
        let mut current = String::new();
        let mut ends_cr = false;
        let mut n: usize = 0;
        proof {
            assert(content@.take(0) =~= Seq::<char>::empty());
            assert(starts_view(line_starts@) =~= line_starts_of(content@.take(0)));
        }
        for c in it: content.chars()
            invariant
                it.seq() == content@,
                total == content@.len(),
                n == it.index(),
                starts_view(line_starts@) == line_starts_of(content@.take(n as int)),
                lines@.len() + 1 == line_starts@.len(),
                forall|i: int|
                    0 <= i < lines@.len() ==> (#[trigger] lines@[i])@ == strip_cr(
                        content@.subrange(line_starts@[i] as int, line_starts@[i + 1] - 1),
                    ),
                line_starts@.last() <= n,
                current@ == content@.subrange(line_starts@.last() as int, n as int),
                ends_cr == (current@.len() > 0 && current@.last() == '\r'),
        {
            proof {
                assert(content@.take(n + 1).drop_last() =~= content@.take(n as int));
                assert(content@.take(n + 1).last() == c);
            }
            if c == '\n' {
                if ends_cr {
                    current.pop();
                }
                lines.push(current);
                current = String::new();
                ends_cr = false;
                line_starts.push(n + 1);
                proof {
                    assert(starts_view(line_starts@) =~= line_starts_of(content@.take(n + 1)));
                    assert(current@ =~= content@.subrange(n + 1, n + 1));
                }
            } else {
                current.push(c);
                ends_cr = c == '\r';
                proof {
                    assert(current@ =~= content@.subrange(
                        line_starts@.last() as int,
                        n + 1,
                    ));
                }
            }
            n += 1;
        }
        if !current.as_str().is_empty() {
            lines.push(current);
        }
        proof {
            assert(content@.take(n as int) =~= content@);
            assert(starts_view(line_starts@) == line_starts_of(content@));
            assert(lines_view(lines@) =~= lines_of(content@));
            lemma_tables_of_content(content@);
        }
        TextIndex { line_starts, lines, total }
    }

    /// Convert (row, col) to character offset. A row past the last line
    /// start gives the end of the text.
    pub fn offset_of(&self, row: usize, col: usize) -> (offset: usize)
        requires
            offset_at(self.starts(), self.total(), row as int, col as int) <= usize::MAX,
        ensures
            offset == offset_at(self.starts(), self.total(), row as int, col as int),
    {
        if row >= self.line_starts.len() {
            return self.total;
        }
        self.line_starts[row] + col
    }

    /// Convert character offset to (row, col).
    pub fn cursor_of(&self, offset: usize) -> (r: (usize, usize))
        ensures
            (r.0 as int, r.1 as int) == cursor_at(self.starts(), offset as int),
    {
        let ghost starts = self.starts();
        let mut i: usize = self.line_starts.len();
        assert(starts.take(i as int) =~= starts);
        while i > 0
            invariant
                0 <= i <= self.line_starts@.len(),
                starts == self.starts(),
                cursor_at(starts, offset as int) == cursor_at(starts.take(i as int), offset as int),
            decreases i,
        {
            let start = self.line_starts[i - 1];
            if offset >= start {
                return (i - 1, offset - start);
            }
            assert(starts.take(i as int).drop_last() =~= starts.take(i - 1));
            i -= 1;
        }
        (0, 0)
    }

    /// Whether `(row, col)` can be turned into an offset: the row has a
    /// line start, and start plus column does not overflow.
    pub fn addresses(&self, row: usize, col: usize) -> (ok: bool)
        ensures
            ok == addressable(self.starts(), (row as int, col as int), usize::MAX as int),
    {
        row < self.line_starts.len() && col <= usize::MAX - self.line_starts[row]
    }

    /// Get the number of lines.
    pub fn line_count(&self) -> (n: usize)
        ensures
            n == self.lines().len(),
    {
        self.lines.len()
    }

    /// Get a specific line.
    pub fn line(&self, index: usize) -> (r: Option<&str>)
        ensures
            match r {
                Some(s) => index < self.lines().len() && s@ == self.lines()[index as int],
                None => index >= self.lines().len(),
            },
    {
        if index < self.lines.len() {
            Some(self.lines[index].as_str())
        } else {
            None
        }
    }

    /// The length of line `row` in characters, 0 where there is no such
    /// line.
    pub fn line_len(&self, row: usize) -> (n: usize)
        ensures
            n == line_len(self.lines(), row as int),
    {
        if row < self.lines.len() {
            self.lines[row].as_str().unicode_len()
        } else {
            0
        }
    }
}

impl Clone for TextIndex {
    fn clone(&self) -> (r: Self)
        ensures
            r.same_text(self),
    {
        proof {
            use_type_invariant(self);
        }
        let line_starts = self.line_starts.clone();
        let lines = self.lines.clone();
        proof {
            assert(starts_view(line_starts@) =~= starts_view(self.line_starts@));
            assert(lines_view(lines@) =~= lines_view(self.lines@));
        }
        TextIndex { line_starts, lines, total: self.total }
    }
}

/// Platform-agnostic cursor state: a position and the index of the text it
/// moves over.
#[derive(Debug, Clone)]
pub struct CursorState {
    /// Current cursor position (row, col).
    pub row: usize,
    pub col: usize,
    /// The tables of the text.
    pub index: TextIndex,
}

/// What a cursor holds: its position and the tables of its text.
pub struct CursorView {
    pub pos: (int, int),
    pub starts: Seq<int>,
    pub lines: Seq<Seq<char>>,
    pub total: int,
}

impl CursorView {
    /// The same cursor at another position.
    pub open spec fn at(self, pos: (int, int)) -> CursorView {
        CursorView { pos, ..self }
    }

    /// The cursor over `content`, at the start of the text.
    pub open spec fn over(content: Seq<char>) -> CursorView {
        CursorView {
            pos: (0, 0),
            starts: line_starts_of(content),
            lines: lines_of(content),
            total: content.len() as int,
        }
    }

    /// The offset of a position on this text.
    pub open spec fn offset(self, pos: (int, int)) -> int {
        offset_at(self.starts, self.total, pos.0, pos.1)
    }

    /// The tables fit together and the machine can hold the length of the
    /// text.
    pub open spec fn wf(self) -> bool {
        &&& tables_wf(self.starts, self.lines, self.total)
        &&& self.total <= usize::MAX
    }
}

impl View for CursorState {
    type V = CursorView;

    open spec fn view(&self) -> CursorView {
        CursorView {
            pos: self.pos(),
            starts: self.starts(),
            lines: self.lines(),
            total: self.total(),
        }
    }
}

impl CursorState {
    /// The table of line starts.
    pub open spec fn starts(&self) -> Seq<int> {
        self.index.starts()
    }

    /// The lines, as character sequences.
    pub open spec fn lines(&self) -> Seq<Seq<char>> {
        self.index.lines()
    }

    /// The number of characters of the text.
    pub open spec fn total(&self) -> int {
        self.index.total()
    }

    /// The cursor position.
    pub open spec fn pos(&self) -> (int, int) {
        (self.row as int, self.col as int)
    }

    /// The tables are those of `content`.
    pub open spec fn holds(&self, content: Seq<char>) -> bool {
        self.index.holds(content)
    }

    /// The tables fit together.
    pub open spec fn wf(&self) -> bool {
        self.index.wf()
    }

    /// The cursor lies on the text.
    pub open spec fn on_text(&self) -> bool {
        in_bounds(self.lines(), self.pos())
    }

    /// A cursor over the empty text.
    pub fn new() -> (r: Self)
        ensures
            r.holds(Seq::<char>::empty()),
            r.wf(),
            r.pos() == (0int, 0int),
            r.on_text(),
    {
        CursorState { row: 0, col: 0, index: TextIndex::new() }
    }

    /// Load content and compute line offsets. The cursor returns to the
    /// start of the text.
    pub fn set_content(&mut self, content: &str)
        ensures
            final(self).holds(content@),
            final(self).wf(),
            final(self).pos() == (0int, 0int),
            final(self).on_text(),
    {
        self.index = TextIndex::from_content(content);
        self.row = 0;
        self.col = 0;
    }

    /// Get current cursor position as (row, col).
    pub fn cursor(&self) -> (r: (usize, usize))
        ensures
            r == (self.row, self.col),
    {
        (self.row, self.col)
    }

    /// Convert (row, col) to character offset. A row past the last line
    /// start gives the end of the text.
    pub fn cursor_to_offset(&self, row: usize, col: usize) -> (offset: usize)
        requires
            offset_at(self.starts(), self.total(), row as int, col as int) <= usize::MAX,
        ensures
            offset == offset_at(self.starts(), self.total(), row as int, col as int),
    {
        self.index.offset_of(row, col)
    }

    /// Convert character offset to (row, col).
    pub fn offset_to_cursor(&self, offset: usize) -> (r: (usize, usize))
        ensures
            (r.0 as int, r.1 as int) == cursor_at(self.starts(), offset as int),
    {
        self.index.cursor_of(offset)
    }

    /// Set cursor to character offset.
    pub fn set_cursor_offset(&mut self, offset: usize)
        ensures
            final(self).pos() == cursor_at(old(self).starts(), offset as int),
            final(self).index == old(self).index,
    {
        let (row, col) = self.index.cursor_of(offset);
        self.row = row;
        self.col = col;
    }

    /// Get the current line content.
    pub fn current_line(&self) -> (r: Option<&str>)
        ensures
            match r {
                Some(s) => self.row < self.lines().len() && s@ == self.lines()[self.row as int],
                None => self.row >= self.lines().len(),
            },
    {
        self.index.line(self.row)
    }

    /// Get the number of lines.
    pub fn line_count(&self) -> (n: usize)
        ensures
            n == self.lines().len(),
    {
        self.index.line_count()
    }

    /// Get a specific line.
    pub fn line(&self, index: usize) -> (r: Option<&str>)
        ensures
            match r {
                Some(s) => index < self.lines().len() && s@ == self.lines()[index as int],
                None => index >= self.lines().len(),
            },
    {
        self.index.line(index)
    }

    /// Pulls the column back to the end of the current line.
    fn clamp_to_line(&mut self)
        ensures
            final(self).row == old(self).row,
            final(self).col == clamp_col(
                old(self).lines(),
                old(self).row as int,
                old(self).col as int,
            ),
            final(self).index == old(self).index,
    {
        if self.row < self.index.line_count() {
            let len = self.index.line_len(self.row);
            if len < self.col {
                self.col = len;
            }
        }
    }

    pub fn move_up(&mut self)
        ensures
            final(self).pos() == up(old(self).lines(), old(self).pos()),
            final(self).index == old(self).index,
            old(self).on_text() ==> final(self).on_text(),
    {
        proof {
            if self.on_text() {
                lemma_motions_stay_on_text(self.lines(), self.pos());
            }
        }
        if self.row > 0 {
            self.row -= 1;
            self.clamp_to_line();
        }
    }

    pub fn move_down(&mut self)
        ensures
            final(self).pos() == down(old(self).lines(), old(self).pos()),
            final(self).index == old(self).index,
            old(self).on_text() ==> final(self).on_text(),
    {
        proof {
            if self.on_text() {
                lemma_motions_stay_on_text(self.lines(), self.pos());
            }
        }
        let count = self.index.line_count();
        if self.row < count && self.row + 1 < count {
            self.row += 1;
            self.clamp_to_line();
        }
    }

    pub fn move_left(&mut self)
        ensures
            final(self).pos() == left(old(self).lines(), old(self).pos()),
            final(self).index == old(self).index,
            old(self).on_text() ==> final(self).on_text(),
    {
        proof {
            if self.on_text() {
                lemma_motions_stay_on_text(self.lines(), self.pos());
            }
        }
        if self.col > 0 {
            self.col -= 1;
        } else if self.row > 0 {
            self.row -= 1;
            self.col = self.index.line_len(self.row);
        }
    }

    pub fn move_right(&mut self)
        ensures
            final(self).pos() == right(old(self).lines(), old(self).pos()),
            final(self).index == old(self).index,
            old(self).on_text() ==> final(self).on_text(),
    {
        proof {
            if self.on_text() {
                lemma_motions_stay_on_text(self.lines(), self.pos());
            }
        }
        let line_len = self.index.line_len(self.row);
        let count = self.index.line_count();
        if self.col < line_len {
            self.col += 1;
        } else if self.row < count && self.row + 1 < count {
            self.row += 1;
            self.col = 0;
        }
    }

    pub fn move_to_start(&mut self)
        ensures
            final(self).pos() == line_start(old(self).pos()),
            final(self).index == old(self).index,
            old(self).on_text() ==> final(self).on_text(),
    {
        proof {
            if self.on_text() {
                lemma_motions_stay_on_text(self.lines(), self.pos());
            }
        }
        self.col = 0;
    }

    pub fn move_to_end(&mut self)
        ensures
            final(self).pos() == line_end(old(self).lines(), old(self).pos()),
            final(self).index == old(self).index,
            old(self).on_text() ==> final(self).on_text(),
    {
        proof {
            if self.on_text() {
                lemma_motions_stay_on_text(self.lines(), self.pos());
            }
        }
        self.col = self.index.line_len(self.row);
    }

    pub fn move_to_top(&mut self)
        ensures
            final(self).pos() == (0int, 0int),
            final(self).index == old(self).index,
            old(self).on_text() ==> final(self).on_text(),
    {
        proof {
            if self.on_text() {
                lemma_motions_stay_on_text(self.lines(), self.pos());
            }
        }
        self.row = 0;
        self.col = 0;
    }

    pub fn move_to_bottom(&mut self)
        ensures
            final(self).pos() == bottom(old(self).lines(), old(self).pos()),
            final(self).index == old(self).index,
            old(self).on_text() ==> final(self).on_text(),
    {
        proof {
            if self.on_text() {
                lemma_motions_stay_on_text(self.lines(), self.pos());
            }
        }
        let count = self.index.line_count();
        if count > 0 {
            self.row = count - 1;
            self.col = 0;
        }
    }

    pub fn move_word_forward(&mut self)
        ensures
            final(self).pos() == word_forward(old(self).lines(), old(self).pos()),
            final(self).index == old(self).index,
            old(self).on_text() ==> final(self).on_text(),
    {
        proof {
            if self.on_text() {
                lemma_motions_stay_on_text(self.lines(), self.pos());
            }
        }
        let count = self.index.line_count();
        match self.index.line(self.row) {
            Some(text) => {
                let chars = chars_of(text);
                let ghost line = chars@;
                let ghost from = self.col as int;
                let mut col = self.col;
                // Skip current word (non-whitespace).
                while col < chars.len() && !chars[col].is_whitespace()
                    invariant
                        line == chars@,
                        skip_word(line, from) == skip_word(line, col as int),
                    decreases chars@.len() - col,
                {
                    col += 1;
                }
                let ghost mid = col as int;
                // Skip whitespace.
                while col < chars.len() && chars[col].is_whitespace()
                    invariant
                        line == chars@,
                        skip_space(line, mid) == skip_space(line, col as int),
                    decreases chars@.len() - col,
                {
                    col += 1;
                }
                if col >= chars.len() && self.row + 1 < count {
                    // Move to next line.
                    self.row += 1;
                    self.col = 0;
                } else {
                    self.col = col;
                }
            },
            None => {},
        }
    }

    pub fn move_word_back(&mut self)
        ensures
            final(self).pos() == word_back(old(self).lines(), old(self).pos()),
            final(self).index == old(self).index,
            old(self).on_text() ==> final(self).on_text(),
    {
        proof {
            if self.on_text() {
                lemma_motions_stay_on_text(self.lines(), self.pos());
            }
        }
        if self.col == 0 {
            if self.row > 0 {
                self.row -= 1;
                self.col = self.index.line_len(self.row);
            }
            return ;
        }
        match self.index.line(self.row) {
            Some(text) => {
                let chars = chars_of(text);
                let ghost line = chars@;
                let ghost from = self.col as int;
                let mut col = self.col;
                // Skip whitespace backwards.
                while col > 0 && col <= chars.len() && chars[col - 1].is_whitespace()
                    invariant
                        line == chars@,
                        back_space(line, from) == back_space(line, col as int),
                    decreases col,
                {
                    col -= 1;
                }
                let ghost mid = col as int;
                // Skip word backwards.
                while col > 0 && col <= chars.len() && !chars[col - 1].is_whitespace()
                    invariant
                        line == chars@,
                        back_word(line, mid) == back_word(line, col as int),
                    decreases col,
                {
                    col -= 1;
                }
                self.col = col;
            },
            None => {},
        }
    }
}

impl Default for CursorState {
    fn default() -> (r: Self)
        ensures
            r.holds(Seq::<char>::empty()),
            r.wf(),
            r.pos() == (0int, 0int),
            r.on_text(),
    {
        Self::new()
    }
}

} // verus!
