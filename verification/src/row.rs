//! One line of text: its characters, and the categories that the
//! highlighter last gave them.

use vstd::prelude::*;
use vstd::string::StrSliceExecFns;
use vstd::utf8::encode_utf8;
use crate::editor::SearchDirection;
use crate::filetype::HighlightingOptions;
use crate::highlighting::{are_spans_of, highlight, highlighted, spans_of, Category, HighlightSpan};
use crate::search::{is_scan_result, scan};
use crate::text::{chars_of, push_slice, string_of};

verus! {

/// `x`, or `len` where `x` lies beyond it.
pub open spec fn clamp(x: int, len: int) -> int {
    if x < len {
        x
    } else {
        len
    }
}

/// What a window `[start, end)` shows of a sequence: the window is cut off
/// at the end of the sequence, and a window that ends before it starts shows
/// nothing.
pub open spec fn window<T>(s: Seq<T>, start: int, end: int) -> Seq<T> {
    let e = clamp(end, s.len() as int);
    s.subrange(clamp(start, e), e)
}

/// What a window `[start, end)` shows of a line.
pub open spec fn rendered(s: Seq<char>, start: int, end: int) -> Seq<char> {
    window(s, start, end)
}

/// The line with `c` put in before offset `at`, or at its end where `at`
/// lies beyond it.
pub open spec fn inserted(s: Seq<char>, at: int, c: char) -> Seq<char> {
    s.insert(clamp(at, s.len() as int), c)
}

/// The line without the character at offset `at`; the line itself where
/// there is no such character.
pub open spec fn deleted(s: Seq<char>, at: int) -> Seq<char> {
    if 0 <= at < s.len() {
        s.remove(at)
    } else {
        s
    }
}

/// What stays of a line that is split at offset `at`.
pub open spec fn split_head(s: Seq<char>, at: int) -> Seq<char> {
    s.subrange(0, clamp(at, s.len() as int))
}

/// What a split at offset `at` takes away from a line.
pub open spec fn split_tail(s: Seq<char>, at: int) -> Seq<char> {
    s.subrange(clamp(at, s.len() as int), s.len() as int)
}

/// The search term as a sequence of characters, if there is one.
pub open spec fn word_view(word: Option<&str>) -> Option<Seq<char>> {
    match word {
        Some(w) => Some(w@),
        None => None,
    }
}

/// Splitting a line anywhere and appending what was split off to what
/// stayed gives the line back.
pub proof fn lemma_split_then_append(s: Seq<char>, at: int)
    requires
        0 <= at <= s.len(),
    ensures
        split_head(s, at) + split_tail(s, at) == s,
{
}

/// Inserting a character at an offset and then deleting at that offset
/// gives the line back.
pub proof fn lemma_insert_then_delete(s: Seq<char>, at: int, c: char)
    requires
        0 <= at <= s.len(),
    ensures
        deleted(inserted(s, at, c), at) == s,
{
}

/// Highlighting a line a second time, under the same toggles and with the
/// same search term, gives the categories that the first time gave.
pub proof fn lemma_highlight_twice(
    before: Row,
    once: Row,
    twice: Row,
    opts: HighlightingOptions,
    word: Option<Seq<char>>,
)
    requires
        once@ == before@,
        once.is_highlighted(opts, word),
        twice@ == once@,
        twice.is_highlighted(opts, word),
    ensures
        twice.categories() == once.categories(),
{
}

/// A line of text.
pub struct Row {
    content: Vec<char>,
    highlighting: Vec<Category>,
}

impl View for Row {
    type V = Seq<char>;

    /// The characters of the line.
    closed spec fn view(&self) -> Seq<char> {
        self.content@
    }
}

impl Default for Row {
    fn default() -> (row: Self)
        ensures
            row@ == Seq::<char>::empty(),
            row.categories() == Seq::<Category>::empty(),
    {
        Row { content: Vec::new(), highlighting: Vec::new() }
    }
}

impl Row {
    /// The categories that the last highlighting gave, one for each
    /// character that the line had then.
    pub closed spec fn categories(&self) -> Seq<Category> {
        self.highlighting@
    }

    /// The stored categories are those of the line as it is now, under
    /// `opts` and `word`.
    pub open spec fn is_highlighted(&self, opts: HighlightingOptions, word: Option<Seq<char>>) -> bool {
        self.categories() == highlighted(self@, opts, word)
    }

    /// The line and its stored categories are no longer than a `usize` can say.
    pub proof fn lemma_lengths_fit(self)
        ensures
            self@.len() <= usize::MAX,
            self.categories().len() <= usize::MAX,
    {
        assert(self.content.len() == self.content@.len());
        assert(self.highlighting.len() == self.highlighting@.len());
    }

    /// A line with the characters of `text`, not highlighted yet.
    pub fn from(text: &str) -> (row: Self)
        ensures
            row@ == text@,
            row.categories() == Seq::<Category>::empty(),
    {
        Row { content: chars_of(text), highlighting: Vec::new() }
    }

    /// A line with the characters `chars[from..to]`, not highlighted yet.
    pub fn from_chars(chars: &Vec<char>, from: usize, to: usize) -> (row: Self)
        requires
            from <= to <= chars@.len(),
        ensures
            row@ == chars@.subrange(from as int, to as int),
            row.categories() == Seq::<Category>::empty(),
    {
        let mut content: Vec<char> = Vec::new();
        push_slice(&mut content, chars, from, to);
        Row { content, highlighting: Vec::new() }
    }

    /// Appends the characters of the line to `out`.
    pub fn write_to(&self, out: &mut String)
        ensures
            final(out)@ == old(out)@ + self@,
    {
        let n = self.content.len();
        let mut i: usize = 0;
        while i < n
            invariant
                n == self.content@.len(),
                i <= n,
                out@ == old(out)@ + self.content@.subrange(0, i as int),
            decreases n - i,
        {
            out.push(self.content[i]);
            i += 1;
        }
    }

    /// The number of characters.
    pub fn len(&self) -> (n: usize)
        ensures
            n == self@.len(),
    {
        self.content.len()
    }

    pub fn is_empty(&self) -> (b: bool)
        ensures
            b == (self@.len() == 0),
    {
        self.content.len() == 0
    }

    /// The line in UTF-8, with no line terminator.
    pub fn as_bytes(&self) -> (bytes: Vec<u8>)
        ensures
            bytes@ == encode_utf8(self@),
    {
        let s = string_of(&self.content, 0, self.content.len());
        assert(self.content@.subrange(0, self.content@.len() as int) =~= self.content@);
        s.as_str().as_bytes_vec()
    }

    /// What the window `[start, end)` shows of the line.
    pub fn render(&self, start: usize, end: usize) -> (s: String)
        ensures
            s@ == rendered(self@, start as int, end as int),
    {
        let len = self.content.len();
        let e = if end < len {
            end
        } else {
            len
        };
        let b = if start < e {
            start
        } else {
            e
        };
        string_of(&self.content, b, e)
    }

    /// Inserts `c` before offset `at`, or at the end where `at` lies beyond
    /// it. The stored categories stay as they were.
    pub fn insert(&mut self, at: usize, c: char)
        ensures
            final(self)@ == inserted(old(self)@, at as int, c),
            final(self).categories() == old(self).categories(),
    {
        if at >= self.content.len() {
            self.content.push(c);
        } else {
            self.content.insert(at, c);
        }
    }

    /// Removes the character at offset `at`, if there is one. The stored
    /// categories stay as they were.
    pub fn delete(&mut self, at: usize)
        ensures
            final(self)@ == deleted(old(self)@, at as int),
            final(self).categories() == old(self).categories(),
    {
        if at < self.content.len() {
            self.content.remove(at);
        }
    }

    /// Appends the characters of `other`. The stored categories stay as
    /// they were.
    pub fn append(&mut self, other: &Row)
        ensures
            final(self)@ == old(self)@ + other@,
            final(self).categories() == old(self).categories(),
    {
        let n = other.content.len();
        push_slice(&mut self.content, &other.content, 0, n);
        assert(other.content@.subrange(0, n as int) =~= other.content@);
    }

    /// Cuts the line at offset `at`: the line keeps what stands before it
    /// and its stored categories, and the rest is returned as a line of its
    /// own, not highlighted yet.
    pub fn split(&mut self, at: usize) -> (tail: Row)
        ensures
            final(self)@ == split_head(old(self)@, at as int),
            tail@ == split_tail(old(self)@, at as int),
            final(self).categories() == old(self).categories(),
            tail.categories() == Seq::<Category>::empty(),
    {
        let len = self.content.len();
        let cut = if at < len {
            at
        } else {
            len
        };
        let rest = self.content.split_off(cut);
        Row { content: rest, highlighting: Vec::new() }
    }

    /// Searches the line for `needle`, starting at offset `at`.
    pub fn find_chars(&self, needle: &Vec<char>, at: usize, direction: SearchDirection) -> (r:
        Option<usize>)
        ensures
            is_scan_result(self@, needle@, at as int, direction, r),
    {
        scan(&self.content, needle, at, direction)
    }

    /// Searches the line for `query`, starting at offset `at`: forward, the
    /// first offset from `at` on at which `query` stands; backward, the last
    /// offset up to `at`.
    pub fn find(&self, query: &str, at: usize, direction: SearchDirection) -> (r: Option<usize>)
        ensures
            is_scan_result(self@, query@, at as int, direction, r),
    {
        let needle = chars_of(query);
        scan(&self.content, &needle, at, direction)
    }

    /// Recomputes the stored categories from the line as it is now.
    pub fn highlight_chars(&mut self, opts: HighlightingOptions, word: Option<&Vec<char>>)
        ensures
            final(self)@ == old(self)@,
            final(self).is_highlighted(
                opts,
                match word {
                    Some(w) => Some(w@),
                    None => None,
                },
            ),
    {
        self.highlighting = highlight(&self.content, opts, word);
    }

    /// Recomputes the stored categories from the line as it is now, under
    /// the toggles `opts`; every occurrence of `word` is marked as a match.
    pub fn highlight(&mut self, opts: HighlightingOptions, word: Option<&str>)
        ensures
            final(self)@ == old(self)@,
            final(self).is_highlighted(opts, word_view(word)),
    {
        match word {
            Some(w) => {
                let chars = chars_of(w);
                self.highlighting = highlight(&self.content, opts, Some(&chars));
            },
            None => {
                self.highlighting = highlight(&self.content, opts, None);
            },
        }
    }

    /// What the window `[start, end)` shows of the stored categories.
    pub fn visible_categories(&self, start: usize, end: usize) -> (shown: Vec<Category>)
        ensures
            shown@ == window(self.categories(), start as int, end as int),
    {
        let len = self.highlighting.len();
        let e = if end < len {
            end
        } else {
            len
        };
        let b = if start < e {
            start
        } else {
            e
        };
        let mut shown: Vec<Category> = Vec::new();
        push_slice(&mut shown, &self.highlighting, b, e);
        shown
    }

    /// The stored categories as spans.
    pub fn highlight_spans(&self) -> (spans: Vec<HighlightSpan>)
        ensures
            are_spans_of(spans@, self.categories()),
    {
        spans_of(&self.highlighting)
    }
}

} // verus!
