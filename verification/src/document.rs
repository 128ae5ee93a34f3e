//! The text buffer: an ordered sequence of lines with a language profile,
//! edited at (column, line) positions.

use vstd::prelude::*;
use crate::editor::{Position, SearchDirection};
use crate::filetype::{profile_name, profile_options, FileType, HighlightingOptions};
use crate::row::{clamp, deleted, inserted, split_head, split_tail, word_view, Row};
use crate::search::{is_scan_result, occurs_at};
use crate::text::{
    chars_of, lemma_line_len, lemma_lines_of_text, line_end, line_len, lines_of, no_newline, text_of,
    without_cr,
};

verus! {

/// The lines after a line break at `at`: a new empty last line where
/// `at.y` is the number of lines; the line `at.y` cut in two at column `at.x`
/// where there is such a line; no change where `at.y` lies beyond both.
pub open spec fn with_newline(lines: Seq<Seq<char>>, at: Position) -> Seq<Seq<char>> {
    if at.y == lines.len() {
        lines.push(Seq::empty())
    } else if at.y < lines.len() {
        let line = lines[at.y as int];
        lines.update(at.y as int, split_head(line, at.x as int)).insert(
            at.y + 1,
            split_tail(line, at.x as int),
        )
    } else {
        lines
    }
}

/// The lines after `c` is typed at `at`: a line break for a line feed; a new
/// last line that holds `c` where `at.y` is the number of lines; `c` put into
/// the line `at.y` where there is such a line; no change where `at.y` lies
/// beyond both.
pub open spec fn with_char(lines: Seq<Seq<char>>, at: Position, c: char) -> Seq<Seq<char>> {
    if c == '\n' {
        with_newline(lines, at)
    } else if at.y == lines.len() {
        lines.push(seq![c])
    } else if at.y < lines.len() {
        lines.update(at.y as int, inserted(lines[at.y as int], at.x as int, c))
    } else {
        lines
    }
}

/// A deletion at `at` joins the line `at.y` with the next one: the caret
/// stands at the end of a line that is not the last.
pub open spec fn joins_lines(lines: Seq<Seq<char>>, at: Position) -> bool {
    at.y + 1 < lines.len() && at.x == lines[at.y as int].len()
}

/// The lines after a deletion at `at`: the next line appended to the line
/// `at.y` where the deletion joins them; else the line `at.y` without its
/// character at column `at.x`; no change where there is no line `at.y`.
pub open spec fn without_char(lines: Seq<Seq<char>>, at: Position) -> Seq<Seq<char>> {
    if at.y >= lines.len() {
        lines
    } else if joins_lines(lines, at) {
        lines.update(at.y as int, lines[at.y as int] + lines[at.y + 1]).remove(at.y + 1)
    } else {
        lines.update(at.y as int, deleted(lines[at.y as int], at.x as int))
    }
}

/// `needle` stands in the line `p.y` at column `p.x`.
pub open spec fn occurs_in(lines: Seq<Seq<char>>, needle: Seq<char>, p: Position) -> bool {
    p.y < lines.len() && occurs_at(lines[p.y as int], needle, p.x as int)
}

/// `p` is `q` or comes before it: on an earlier line, or on the same line at
/// a column that is not greater.
pub open spec fn not_after(p: Position, q: Position) -> bool {
    p.y < q.y || (p.y == q.y && p.x <= q.x)
}

/// `r` is the outcome of a search for `needle` that starts at `at`. Where
/// there is no line `at.y`, nothing is found. Forward, the search finds the
/// first place at or after `at` where `needle` stands; backward, the last
/// place at or before `at`; in either direction nothing exactly when there is
/// no such place.
pub open spec fn is_find_result(
    lines: Seq<Seq<char>>,
    needle: Seq<char>,
    at: Position,
    direction: SearchDirection,
    r: Option<Position>,
) -> bool {
    if at.y >= lines.len() {
        r is None
    } else {
        match direction {
            SearchDirection::Forward => match r {
                Some(p) => occurs_in(lines, needle, p) && not_after(at, p) && forall|q: Position|
                    #[trigger] occurs_in(lines, needle, q) && not_after(at, q) ==> not_after(p, q),
                None => forall|q: Position|
                    #[trigger] occurs_in(lines, needle, q) ==> !not_after(at, q),
            },
            SearchDirection::Backward => match r {
                Some(p) => occurs_in(lines, needle, p) && not_after(p, at) && forall|q: Position|
                    #[trigger] occurs_in(lines, needle, q) && not_after(q, at) ==> not_after(q, p),
                None => forall|q: Position|
                    #[trigger] occurs_in(lines, needle, q) ==> !not_after(q, at),
            },
        }
    }
}

/// The text of each of some rows.
pub open spec fn lines_in(rows: Seq<Row>) -> Seq<Seq<char>> {
    Seq::new(rows.len(), |i: int| rows[i]@)
}

/// The rows `from..to` of `pre` stand unchanged in `post`, `shift` places on.
pub open spec fn rows_kept(pre: Seq<Row>, post: Seq<Row>, from: int, to: int, shift: int) -> bool {
    forall|i: int|
        from <= i < to ==> 0 <= i + shift < post.len() && post[i + shift] == #[trigger] pre[i]
}

/// A text buffer.
pub struct Document {
    rows: Vec<Row>,
    pub file_name: Option<String>,
    unsaved_changes: bool,
    file_type: FileType,
}

impl Default for Document {
    fn default() -> (doc: Self)
        ensures
            doc.wf(),
            doc.lines() == Seq::<Seq<char>>::empty(),
            doc.name() is None,
            !doc.is_dirty(),
            doc.profile().name_view() == profile_name(Seq::empty()),
            doc.options() == HighlightingOptions::disabled(),
    {
        let doc = Document {
            rows: Vec::new(),
            file_name: None,
            unsaved_changes: false,
            file_type: FileType::default(),
        };
        doc
    }
}

impl Document {
    /// The rows, first line first.
    pub closed spec fn rows_view(&self) -> Seq<Row> {
        self.rows@
    }

    /// The text of each row.
    pub open spec fn lines(&self) -> Seq<Seq<char>> {
        lines_in(self.rows_view())
    }

    /// The file name, if the buffer has one.
    pub closed spec fn name(&self) -> Option<Seq<char>> {
        match self.file_name {
            Some(name) => Some(name@),
            None => None,
        }
    }

    /// Whether there are changes that have not been saved.
    pub closed spec fn is_dirty(&self) -> bool {
        self.unsaved_changes
    }

    /// The language profile in use.
    pub closed spec fn profile(&self) -> FileType {
        self.file_type
    }

    /// The highlighting toggles in use.
    pub open spec fn options(&self) -> HighlightingOptions {
        self.profile().options()
    }

    /// A row as the buffer keeps it: without a line feed, and highlighted as
    /// it stands, under the toggles `opts` and some search term or none.
    pub open spec fn row_ok(row: Row, opts: HighlightingOptions) -> bool {
        &&& no_newline(row@)
        &&& exists|word: Option<Seq<char>>| row.is_highlighted(opts, word)
    }

    /// Every row is kept as `row_ok` says, under the buffer's own toggles.
    pub open spec fn wf(&self) -> bool {
        forall|i: int|
            0 <= i < self.rows_view().len() ==> Self::row_ok(
                #[trigger] self.rows_view()[i],
                self.options(),
            )
    }

    /// The buffer for a file of the given name and contents: one row for
    /// each line of the contents, highlighted under the profile that the name
    /// selects, without a search term; nothing is unsaved.
    pub fn from_contents(file_name: &str, contents: &str) -> (doc: Self)
        ensures
            doc.wf(),
            doc.lines() == lines_of(contents@),
            doc.name() == Some(file_name@),
            !doc.is_dirty(),
            doc.profile().name_view() == profile_name(file_name@),
            doc.options() == profile_options(file_name@),
            forall|i: int|
                0 <= i < doc.rows_view().len() ==> (#[trigger] doc.rows_view()[i]).is_highlighted(
                    doc.options(),
                    None,
                ),
    {
        let file_type = FileType::from(file_name);
        let opts = file_type.highlighting_options();
        let text = chars_of(contents);
        let n = text.len();
        let mut rows: Vec<Row> = Vec::new();
        let mut i: usize = 0;
        assert(text@.skip(0) =~= text@);
        while i < n
            invariant
                n == text@.len(),
                i <= n,
                lines_in(rows@) + lines_of(text@.skip(i as int)) == lines_of(text@),
                forall|k: int|
                    0 <= k < rows@.len() ==> no_newline((#[trigger] rows@[k])@)
                        && rows@[k].is_highlighted(opts, None),
            decreases n - i,
        {
            let ghost rest = text@.skip(i as int);
            let end = line_end(&text, i);
            proof {
                lemma_line_len(rest);
                assert(rest.take(end - i) =~= text@.subrange(i as int, end as int));
            }
            if end < n {
                let stop: usize = if end > i && text[end - 1] == '\r' {
                    end - 1
                } else {
                    end
                };
                let mut row = Row::from_chars(&text, i, stop);
                row.highlight(opts, None);
                rows.push(row);
                proof {
                    assert(row@ =~= without_cr(rest.take(end - i)));
                    assert(rest.skip(end - i + 1) =~= text@.skip(end + 1));
                }
                i = end + 1;
            } else {
                let mut row = Row::from_chars(&text, i, n);
                row.highlight(opts, None);
                rows.push(row);
                i = n;
            }
        }
        Document { rows, file_name: Some(file_name.to_owned()), unsaved_changes: false, file_type }
    }

    /// The buffer as a text: each row, followed by one line feed.
    pub fn contents(&self) -> (text: String)
        ensures
            text@ == text_of(self.lines()),
    {
        let mut text = String::new();
        let n = self.rows.len();
        let mut i: usize = 0;
        while i < n
            invariant
                n == self.rows@.len(),
                i <= n,
                text@ == text_of(self.lines().take(i as int)),
            decreases n - i,
        {
            self.rows[i].write_to(&mut text);
            text.push('\n');
            i += 1;
            proof {
                let upto = self.lines().take(i as int);
                assert(upto.drop_last() =~= self.lines().take(i - 1));
            }
        }
        assert(self.lines().take(n as int) =~= self.lines());
        text
    }

    /// Records that the buffer has been written out. Where it has a file
    /// name, the language profile is chosen anew by that name and every row
    /// is highlighted anew under it, without a search term. Nothing is unsaved
    /// afterwards, with a file name or without.
    pub fn mark_saved(&mut self)
        requires
            old(self).wf(),
        ensures
            final(self).wf(),
            final(self).lines() == old(self).lines(),
            final(self).name() == old(self).name(),
            !final(self).is_dirty(),
            match old(self).name() {
                Some(name) => {
                    &&& final(self).profile().name_view() == profile_name(name)
                    &&& final(self).options() == profile_options(name)
                    &&& forall|i: int|
                        0 <= i < final(self).rows_view().len() ==> (#[trigger] final(
                            self).rows_view()[i]).is_highlighted(final(self).options(), None)
                },
                None => {
                    &&& final(self).profile() == old(self).profile()
                    &&& final(self).rows_view() == old(self).rows_view()
                },
            },
    {
        self.unsaved_changes = false;
        assert(self.rows_view() == old(self).rows_view());
        match &self.file_name {
            Some(name) => {
                let file_type = FileType::from(name.as_str());
                let opts = file_type.highlighting_options();
                self.file_type = file_type;
                self.highlight_rows(opts, None);
            },
            None => {},
        }
    }

    /// `post` is what a line break at `at` makes of `pre`. The lines are
    /// those of `with_newline`. Where `at.y` is at most the number of rows,
    /// the buffer then has unsaved changes; its profile and file name stay.
    /// The rows before `at.y` and behind it stay as they were, the latter one
    /// place on; the two halves of a row that was cut are highlighted anew,
    /// without a search term.
    pub open spec fn is_newline_at(pre: Document, post: Document, at: Position) -> bool {
        let len = pre.lines().len() as int;
        &&& post.wf()
        &&& post.lines() == with_newline(pre.lines(), at)
        &&& post.is_dirty() == (pre.is_dirty() || at.y <= len)
        &&& post.lines() != pre.lines() ==> post.is_dirty()
        &&& post.profile() == pre.profile()
        &&& post.name() == pre.name()
        &&& rows_kept(pre.rows_view(), post.rows_view(), 0, clamp(at.y as int, len), 0)
        &&& rows_kept(pre.rows_view(), post.rows_view(), at.y + 1, len, 1)
        &&& at.y < len ==> post.rows_view()[at.y as int].is_highlighted(post.options(), None)
            && post.rows_view()[at.y + 1].is_highlighted(post.options(), None)
    }

    /// `post` is what typing `c` at `at` makes of `pre`. For a line feed
    /// that is a line break. For any other character the lines are those of
    /// `with_char`. Where `at.y` is at most the number of rows, the buffer
    /// then has unsaved changes; its profile and file name stay. Every row but
    /// the row `at.y` stays as it was, and that row is highlighted anew,
    /// without a search term.
    pub open spec fn is_insert_at(pre: Document, post: Document, at: Position, c: char) -> bool {
        let len = pre.lines().len() as int;
        if c == '\n' {
            Self::is_newline_at(pre, post, at)
        } else {
            &&& post.wf()
            &&& post.lines() == with_char(pre.lines(), at, c)
            &&& post.is_dirty() == (pre.is_dirty() || at.y <= len)
            &&& post.lines() != pre.lines() ==> post.is_dirty()
            &&& post.profile() == pre.profile()
            &&& post.name() == pre.name()
            &&& rows_kept(pre.rows_view(), post.rows_view(), 0, clamp(at.y as int, len), 0)
            &&& rows_kept(pre.rows_view(), post.rows_view(), at.y + 1, len, 0)
            &&& at.y <= len ==> post.rows_view()[at.y as int].is_highlighted(post.options(), None)
        }
    }

    /// `post` is what a deletion at `at` makes of `pre`. The lines are those
    /// of `without_char`. Where there is a row `at.y`, the buffer then has
    /// unsaved changes; its profile and file name stay. The rows before `at.y`
    /// and behind it stay as they were, but for the row that a join takes
    /// out, those behind it one place back; the row `at.y` is highlighted
    /// anew, without a search term.
    pub open spec fn is_delete_at(pre: Document, post: Document, at: Position) -> bool {
        let len = pre.lines().len() as int;
        &&& post.wf()
        &&& post.lines() == without_char(pre.lines(), at)
        &&& post.is_dirty() == (pre.is_dirty() || at.y < len)
        &&& post.lines() != pre.lines() ==> post.is_dirty()
        &&& post.profile() == pre.profile()
        &&& post.name() == pre.name()
        &&& rows_kept(pre.rows_view(), post.rows_view(), 0, clamp(at.y as int, len), 0)
        &&& if joins_lines(pre.lines(), at) {
            rows_kept(pre.rows_view(), post.rows_view(), at.y + 2, len, -1)
        } else {
            rows_kept(pre.rows_view(), post.rows_view(), at.y + 1, len, 0)
        }
        &&& at.y < len ==> post.rows_view()[at.y as int].is_highlighted(post.options(), None)
    }

    /// The file name, if the buffer has one.
    pub fn file_name(&self) -> (name: Option<&str>)
        ensures
            word_view(name) == self.name(),
    {
        match &self.file_name {
            Some(name) => Some(name.as_str()),
            None => None,
        }
    }

    /// Whether the buffer has a file name.
    pub fn has_file_name(&self) -> (b: bool)
        ensures
            b == (self.name() is Some),
    {
        self.file_name.is_some()
    }

    /// Gives the buffer a file name. The language profile stays as it is
    /// until the buffer is next marked as saved.
    pub fn set_file_name(&mut self, name: String)
        ensures
            final(self).name() == Some(name@),
            final(self).rows_view() == old(self).rows_view(),
            final(self).is_dirty() == old(self).is_dirty(),
            final(self).profile() == old(self).profile(),
    {
        self.file_name = Some(name);
    }

    /// `post` is `pre` with every row highlighted anew, every occurrence of
    /// `word` marked: the text, the profile, the file name and the record of
    /// unsaved changes stay.
    pub open spec fn is_highlight_of(pre: Document, post: Document, word: Option<Seq<char>>) -> bool {
        &&& post.wf()
        &&& post.lines() == pre.lines()
        &&& post.is_dirty() == pre.is_dirty()
        &&& post.profile() == pre.profile()
        &&& post.name() == pre.name()
        &&& forall|i: int|
            0 <= i < post.rows_view().len() ==> (#[trigger] post.rows_view()[i]).is_highlighted(
                post.options(),
                word,
            )
    }

    /// The number of rows, and the length of each, are no more than a
    /// `usize` can say.
    pub proof fn lemma_lengths_fit(self)
        ensures
            self.lines().len() == self.rows_view().len(),
            self.lines().len() <= usize::MAX,
            forall|i: int| 0 <= i < self.lines().len() ==> (#[trigger] self.lines()[i]).len() <= usize::MAX,
    {
        assert(self.rows.len() == self.rows@.len());
        assert forall|i: int| 0 <= i < self.lines().len() implies (#[trigger] self.lines()[i]).len()
            <= usize::MAX by {
            self.rows@[i].lemma_lengths_fit();
        }
    }

    /// The name of the language profile in use.
    pub fn file_type(&self) -> (name: String)
        ensures
            name@ == self.profile().name_view(),
    {
        self.file_type.name()
    }

    /// The row at `index`, if there is one.
    pub fn row(&self, index: usize) -> (r: Option<&Row>)
        ensures
            index < self.rows_view().len() ==> r == Some(&self.rows_view()[index as int]),
            index >= self.rows_view().len() ==> r is None,
    {
        if index < self.rows.len() {
            Some(&self.rows[index])
        } else {
            None
        }
    }

    pub fn is_empty(&self) -> (b: bool)
        ensures
            b == (self.lines().len() == 0),
    {
        self.rows.len() == 0
    }

    /// The number of rows.
    pub fn len(&self) -> (n: usize)
        ensures
            n == self.lines().len(),
    {
        self.rows.len()
    }

    pub fn needs_saving(&self) -> (b: bool)
        ensures
            b == self.is_dirty(),
    {
        self.unsaved_changes
    }

    /// Breaks the line at `at`. Where `at.y` is the number of rows, a new
    /// empty row is added at the end. Where there is a row `at.y`, it is cut
    /// at column `at.x`, both halves are highlighted anew without a search
    /// term, and the second half becomes the next row. The buffer then has
    /// unsaved changes. Where `at.y` lies beyond both, nothing happens.
    pub fn insert_newline(&mut self, at: &Position)
        requires
            old(self).wf(),
        ensures
            Self::is_newline_at(*old(self), *final(self), *at),
    {
        let len = self.rows.len();
        if at.y > len {
            return;
        }
        self.unsaved_changes = true;
        let opts = self.file_type.highlighting_options();
        if at.y == len {
            let row = Row::default();
            assert(row.is_highlighted(opts, None)) by {
                assert(row.categories() =~= crate::highlighting::highlighted(row@, opts, None));
            }
            self.rows.push(row);
            assert(final(self).lines() =~= with_newline(old(self).lines(), *at));
            return;
        }
        let mut tail = self.rows[at.y].split(at.x);
        self.rows[at.y].highlight(opts, None);
        tail.highlight(opts, None);
        self.rows.insert(at.y + 1, tail);
        assert(final(self).lines() =~= with_newline(old(self).lines(), *at));
    }

    /// Types `c` at `at`. A line feed breaks the line, as `insert_newline`
    /// does. Any other character becomes a new last row where `at.y` is the
    /// number of rows, or goes into the row `at.y` before column `at.x`
    /// (at its end, where `at.x` lies beyond it); that row alone is
    /// highlighted anew, without a search term. The buffer then has unsaved
    /// changes. Where `at.y` lies beyond the number of rows, nothing happens.
    pub fn insert(&mut self, at: &Position, c: char)
        requires
            old(self).wf(),
        ensures
            Self::is_insert_at(*old(self), *final(self), *at, c),
    {
        let len = self.rows.len();
        if at.y > len {
            return;
        }
        if c == '\n' {
            self.insert_newline(at);
            return;
        }
        self.unsaved_changes = true;
        let opts = self.file_type.highlighting_options();
        if at.y == len {
            let mut row = Row::default();
            row.insert(0, c);
            row.highlight(opts, None);
            assert(row@ =~= seq![c]);
            self.rows.push(row);
            assert(self.lines() =~= with_char(old(self).lines(), *at, c));
        } else {
            self.rows[at.y].insert(at.x, c);
            self.rows[at.y].highlight(opts, None);
            assert(self.lines() =~= with_char(old(self).lines(), *at, c));
        }
    }

    /// Deletes at `at`. Where the caret stands at the end of a row that is
    /// not the last, the next row is taken out of the buffer and its text
    /// appended to the row `at.y`. Otherwise the character at column `at.x`
    /// of the row `at.y` is removed, if there is one. Either way the row
    /// `at.y` alone is highlighted anew, without a search term, and the
    /// buffer then has unsaved changes. Where there is no row `at.y`,
    /// nothing happens.
    pub fn delete(&mut self, at: &Position)
        requires
            old(self).wf(),
        ensures
            Self::is_delete_at(*old(self), *final(self), *at),
    {
        let len = self.rows.len();
        if at.y >= len {
            return;
        }
        self.unsaved_changes = true;
        let opts = self.file_type.highlighting_options();
        if at.x == self.rows[at.y].len() && at.y < len - 1 {
            let next_row = self.rows.remove(at.y + 1);
            self.rows[at.y].append(&next_row);
            self.rows[at.y].highlight(opts, None);
            assert(self.lines() =~= without_char(old(self).lines(), *at));
        } else {
            self.rows[at.y].delete(at.x);
            self.rows[at.y].highlight(opts, None);
            assert(self.lines() =~= without_char(old(self).lines(), *at));
        }
    }

    /// Highlights every row anew, marking every occurrence of `word`.
    pub fn highlight(&mut self, word: Option<&str>)
        requires
            old(self).wf(),
        ensures
            Self::is_highlight_of(*old(self), *final(self), word_view(word)),
    {
        let opts = self.file_type.highlighting_options();
        match word {
            Some(w) => {
                let chars = chars_of(w);
                self.highlight_rows(opts, Some(&chars));
            },
            None => {
                self.highlight_rows(opts, None);
            },
        }
        assert(self.lines() =~= old(self).lines());
    }

    /// Highlights every row anew under `opts`, marking every occurrence of `word`.
    fn highlight_rows(&mut self, opts: HighlightingOptions, word: Option<&Vec<char>>)
        ensures
            final(self).rows@.len() == old(self).rows@.len(),
            forall|i: int|
                0 <= i < final(self).rows@.len() ==> (#[trigger] final(self).rows@[i])@ == old(self).rows@[i]@,
            forall|i: int|
                0 <= i < final(self).rows@.len() ==> (#[trigger] final(self).rows@[i]).is_highlighted(
                    opts,
                    match word {
                        Some(w) => Some(w@),
                        None => None,
                    },
                ),
            final(self).unsaved_changes == old(self).unsaved_changes,
            final(self).file_type == old(self).file_type,
            final(self).file_name == old(self).file_name,
    {
        let n = self.rows.len();
        let mut i: usize = 0;
        while i < n
            invariant
                i <= n,
                n == self.rows@.len(),
                n == old(self).rows@.len(),
                forall|k: int| 0 <= k < n ==> (#[trigger] self.rows@[k])@ == old(self).rows@[k]@,
                forall|k: int|
                    0 <= k < i ==> (#[trigger] self.rows@[k]).is_highlighted(
                        opts,
                        match word {
                            Some(w) => Some(w@),
                            None => None,
                        },
                    ),
                self.unsaved_changes == old(self).unsaved_changes,
                self.file_type == old(self).file_type,
                self.file_name == old(self).file_name,
            decreases n - i,
        {
            self.rows[i].highlight_chars(opts, word);
            i += 1;
        }
    }

    /// Searches the rows from `at.y` to the last, the first of them from
    /// column `at.x`, each further one from its start.
    fn find_forward(&self, needle: &Vec<char>, at: &Position) -> (r: Option<Position>)
        requires
            at.y < self.rows@.len(),
        ensures
            is_find_result(self.lines(), needle@, *at, SearchDirection::Forward, r),
    {
        let len = self.rows.len();
        let mut y: usize = at.y;
        while y < len
            invariant
                len == self.rows@.len(),
                at.y <= y <= len,
                forall|q: Position|
                    #[trigger] occurs_in(self.lines(), needle@, q) && not_after(*at, q) ==> q.y
                        >= y,
            decreases len - y,
        {
            let from: usize = if y == at.y {
                at.x
            } else {
                0
            };
            let found = self.rows[y].find_chars(needle, from, SearchDirection::Forward);
            match found {
                Some(x) => {
                    return Some(Position { x, y });
                },
                None => {},
            }
            y += 1;
        }
        None
    }

    /// Searches the rows from `at.y` back to the first, the first of them
    /// from column `at.x`, each further one from its end.
    fn find_backward(&self, needle: &Vec<char>, at: &Position) -> (r: Option<Position>)
        requires
            at.y < self.rows@.len(),
        ensures
            is_find_result(self.lines(), needle@, *at, SearchDirection::Backward, r),
    {
        let mut y: usize = at.y;
        loop
            invariant
                y <= at.y < self.rows@.len(),
                forall|q: Position|
                    #[trigger] occurs_in(self.lines(), needle@, q) && not_after(q, *at) ==> q.y
                        <= y,
            decreases y,
        {
            let from: usize = if y == at.y {
                at.x
            } else {
                self.rows[y].len()
            };
            let found = self.rows[y].find_chars(needle, from, SearchDirection::Backward);
            match found {
                Some(x) => {
                    return Some(Position { x, y });
                },
                None => {},
            }
            if y == 0 {
                return None;
            }
            y -= 1;
        }
    }

    /// Searches the buffer for `query`, starting at `at`. Forward, the rows
    /// from `at.y` on are searched, the row `at.y` from column `at.x` and each
    /// later row from its start. Backward, the rows from `at.y` back to the
    /// first are searched, the row `at.y` from column `at.x` downwards and
    /// each earlier row from its end. The first place found is returned.
    pub fn find(&self, query: &str, at: &Position, direction: SearchDirection) -> (r: Option<
        Position,
    >)
        ensures
            is_find_result(self.lines(), query@, *at, direction, r),
    {
        if at.y >= self.rows.len() {
            return None;
        }
        let needle = chars_of(query);
        match direction {
            SearchDirection::Forward => self.find_forward(&needle, at),
            SearchDirection::Backward => self.find_backward(&needle, at),
        }
    }
}

/// The outcome of a search for `needle` that starts at `at`.
pub open spec fn find_result(
    lines: Seq<Seq<char>>,
    needle: Seq<char>,
    at: Position,
    direction: SearchDirection,
) -> Option<Position> {
    choose|r: Option<Position>| is_find_result(lines, needle, at, direction, r)
}

/// A search has one outcome only.
pub proof fn lemma_find_result_unique(
    lines: Seq<Seq<char>>,
    needle: Seq<char>,
    at: Position,
    direction: SearchDirection,
    r: Option<Position>,
)
    requires
        is_find_result(lines, needle, at, direction, r),
    ensures
        r == find_result(lines, needle, at, direction),
{
    let other = find_result(lines, needle, at, direction);
    if at.y < lines.len() {
        match (r, other) {
            (Some(p), Some(q)) => {
            },
            _ => {},
        }
    }
}

/// Highlighting a buffer a second time with the same search term gives
/// every row the categories that the first time gave it.
pub proof fn lemma_highlight_all_twice(
    before: Document,
    once: Document,
    twice: Document,
    word: Option<Seq<char>>,
)
    requires
        Document::is_highlight_of(before, once, word),
        Document::is_highlight_of(once, twice, word),
    ensures
        twice.rows_view().len() == once.rows_view().len(),
        forall|i: int|
            0 <= i < once.rows_view().len() ==> (#[trigger] twice.rows_view()[i]).categories()
                == once.rows_view()[i].categories(),
{
    assert(twice.lines().len() == once.lines().len());
    assert forall|i: int| 0 <= i < once.rows_view().len() implies (
    #[trigger] twice.rows_view()[i]).categories() == once.rows_view()[i].categories() by {
        assert(twice.lines()[i] == once.lines()[i]);
    }
}

/// Writing a buffer out and reading it in again gives the same lines,
/// where no row ends in a carriage return.
pub proof fn lemma_contents_round_trip(doc: Document)
    requires
        doc.wf(),
        forall|i: int|
            0 <= i < doc.lines().len() ==> without_cr(#[trigger] doc.lines()[i]) == doc.lines()[i],
    ensures
        lines_of(text_of(doc.lines())) == doc.lines(),
{
    lemma_lines_of_text(doc.lines());
}

/// A search forward from the top of the buffer for a term that stands in
/// exactly one place finds that place.
pub proof fn lemma_find_unique(
    lines: Seq<Seq<char>>,
    needle: Seq<char>,
    p: Position,
    r: Option<Position>,
)
    requires
        occurs_in(lines, needle, p),
        forall|q: Position| #[trigger] occurs_in(lines, needle, q) ==> q == p,
        is_find_result(lines, needle, Position { x: 0, y: 0 }, SearchDirection::Forward, r),
    ensures
        r == Some(p),
{
}

/// A search for a term that stands nowhere in the buffer finds nothing,
/// wherever it starts and whichever way it walks.
pub proof fn lemma_find_absent(
    lines: Seq<Seq<char>>,
    needle: Seq<char>,
    at: Position,
    direction: SearchDirection,
    r: Option<Position>,
)
    requires
        forall|q: Position| !occurs_in(lines, needle, q),
        is_find_result(lines, needle, at, direction, r),
    ensures
        r is None,
{
}

} // verus!
