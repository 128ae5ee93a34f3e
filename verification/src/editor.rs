//! The editor's state and its rules: how keys move the caret, scroll the
//! view and change the buffer.

use vstd::prelude::*;
use crate::document::{find_result, lemma_find_result_unique, Document};
use crate::highlighting::Category;
use crate::row::{rendered, window};
use crate::text::{chars_of, decimal, push_chars, push_decimal, push_slice, string_of};
use crate::terminal::{Size, Terminal};

verus! {

/// How many times a quit key must be pressed again before the editor stops
/// with unsaved changes.
pub const QUIT_TIMES: u8 = 3;

/// A caret address: `x` is a character offset within a row, `y` a row index.
#[derive(Clone, Copy, Debug, PartialEq, Eq, Structural)]
pub struct Position {
    pub x: usize,
    pub y: usize,
}

impl Default for Position {
    fn default() -> (p: Self)
        ensures
            p.x == 0,
            p.y == 0,
    {
        Position { x: 0, y: 0 }
    }
}

/// The direction in which a search walks away from its starting point.
#[derive(Clone, Copy, Debug, PartialEq, Eq, Structural)]
pub enum SearchDirection {
    Forward,
    Backward,
}

/// A key press, as far as the editor tells keys apart. `Ctrl` is a
/// character key pressed together with the control key and no other modifier.
#[derive(Clone, Copy, Debug, PartialEq, Eq, Structural)]
pub enum Key {
    Char(char),
    Ctrl(char),
    Enter,
    Backspace,
    Delete,
    Esc,
    Up,
    Down,
    Left,
    Right,
    PageUp,
    PageDown,
    Home,
    End,
    Other,
}

/// The length of the line `y`, and 0 where there is no such line.
pub open spec fn width_at(lines: Seq<Seq<char>>, y: int) -> int {
    if 0 <= y < lines.len() {
        lines[y].len() as int
    } else {
        0
    }
}

/// Where a key takes the caret before its column is fitted to the line:
/// the arrow keys move by one place and wrap at the ends of a line, the
/// page keys move by `page` lines, `Home` and `End` go to the ends of the
/// line. No key moves the caret above the first line or, from within the
/// buffer, below the place just behind the last.
pub open spec fn key_target(lines: Seq<Seq<char>>, cursor: Position, key: Key, page: usize) -> Position {
    let x = cursor.x;
    let y = cursor.y;
    let height = lines.len();
    let width = width_at(lines, y as int);
    match key {
        Key::Up => Position { x, y: y.saturating_sub(1) },
        Key::Down => if y < height {
            Position { x, y: (y + 1) as usize }
        } else {
            cursor
        },
        Key::Left => if x > 0 {
            Position { x: (x - 1) as usize, y }
        } else if y > 0 {
            Position { x: width_at(lines, y - 1) as usize, y: (y - 1) as usize }
        } else {
            cursor
        },
        Key::Right => if x < width {
            Position { x: (x + 1) as usize, y }
        } else if y < height {
            Position { x: 0, y: (y + 1) as usize }
        } else {
            cursor
        },
        Key::PageUp => if y > page {
            Position { x, y: (y - page) as usize }
        } else {
            Position { x, y: 0 }
        },
        Key::PageDown => if y + page < height {
            Position { x, y: (y + page) as usize }
        } else {
            Position { x, y: height as usize }
        },
        Key::Home => Position { x: 0, y },
        Key::End => Position { x: width as usize, y },
        _ => cursor,
    }
}

/// Where a key takes the caret: to its target, with the column cut back to
/// the length of the line it arrives on.
pub open spec fn moved(lines: Seq<Seq<char>>, cursor: Position, key: Key, page: usize) -> Position {
    let target = key_target(lines, cursor, key, page);
    let width = width_at(lines, target.y as int);
    if target.x > width {
        Position { x: width as usize, y: target.y }
    } else {
        target
    }
}

/// The caret stands in the buffer: on a line and within it, or at column 0
/// just behind the last line.
pub open spec fn in_buffer(lines: Seq<Seq<char>>, p: Position) -> bool {
    p.y <= lines.len() && p.x <= width_at(lines, p.y as int)
}

/// A caret on or just behind a line of the buffer stays in the buffer,
/// whatever key moves it.
pub proof fn lemma_moved_in_buffer(lines: Seq<Seq<char>>, cursor: Position, key: Key, page: usize)
    requires
        cursor.y <= lines.len() <= usize::MAX,
        forall|i: int| 0 <= i < lines.len() ==> (#[trigger] lines[i]).len() <= usize::MAX,
    ensures
        in_buffer(lines, moved(lines, cursor, key, page)),
{
}

/// Where the view starts along one axis after scrolling: at the caret where
/// the caret lies before the view; so that the caret is the last place shown
/// where it lies behind the view; unchanged where the view shows the caret.
pub open spec fn scrolled(offset: usize, cursor: usize, extent: usize) -> usize {
    if cursor < offset {
        cursor
    } else if cursor >= offset.saturating_add(extent) {
        cursor.saturating_sub(extent).saturating_add(1)
    } else {
        offset
    }
}

/// After scrolling, a view that shows anything shows the caret.
pub proof fn lemma_scrolled_shows_cursor(offset: usize, cursor: usize, extent: usize)
    requires
        extent > 0,
        cursor < usize::MAX,
    ensures
        scrolled(offset, cursor, extent) <= cursor < scrolled(offset, cursor, extent) + extent,
{
}

/// Scrolling a second time changes nothing.
pub proof fn lemma_scrolled_twice(offset: usize, cursor: usize, extent: usize)
    requires
        extent > 0,
        cursor < usize::MAX,
    ensures
        scrolled(scrolled(offset, cursor, extent), cursor, extent) == scrolled(
            offset,
            cursor,
            extent,
        ),
{
}

/// What the caller has to do after a key: nothing, or to save the buffer,
/// or to ask for a search term.
#[derive(Clone, Copy, Debug, PartialEq, Eq, Structural)]
pub enum Action {
    Idle,
    Save,
    Search,
}

/// `Esc`, or `c` with the control key.
pub open spec fn is_quit_key(key: Key) -> bool {
    key == Key::Esc || key == Key::Ctrl('c')
}

/// What a key leaves to the caller: `s` with the control key asks to save,
/// `f` with the control key asks to search.
pub open spec fn deferred(key: Key) -> Action {
    if key == Key::Ctrl('s') {
        Action::Save
    } else if key == Key::Ctrl('f') {
        Action::Search
    } else {
        Action::Idle
    }
}

/// The warning that a refused quit key leaves in the message bar.
pub open spec fn quit_warning(left: u8) -> Seq<char> {
    "WARNING! File has unsaved changes still. Press Esc "@ + decimal(left as nat)
        + " more times to quit"@
}

/// The message that a search without a match leaves in the message bar.
pub open spec fn not_found_message(query: Seq<char>) -> Seq<char> {
    "Not found :"@ + query + "."@
}

/// How long a message stays in the message bar, in milliseconds.
pub const MESSAGE_MILLIS: u64 = 5000;

/// How many characters of the file name the status bar shows.
pub const SHOWN_NAME_LEN: usize = 20;

/// The first `n` characters of `s`, or all of `s` where it has fewer.
pub open spec fn truncated(s: Seq<char>, n: int) -> Seq<char> {
    if 0 <= n < s.len() {
        s.take(n)
    } else {
        s
    }
}

/// `n` spaces.
pub open spec fn spaces(n: int) -> Seq<char> {
    Seq::new(
        if n > 0 {
            n as nat
        } else {
            0
        },
        |i: int| ' ',
    )
}

/// The left part of the status bar: the file name, cut to its first 20
/// characters, or a stand-in for a buffer without one; the number of lines;
/// and a mark where there are unsaved changes.
pub open spec fn status_left(name: Option<Seq<char>>, line_count: nat, dirty: bool) -> Seq<char> {
    let shown = match name {
        Some(n) => truncated(n, SHOWN_NAME_LEN as int),
        None => "[No Name]"@,
    };
    let mark = if dirty {
        " (modified)"@
    } else {
        Seq::empty()
    };
    shown + " - "@ + decimal(line_count) + " lines"@ + mark
}

/// The right part of the status bar: the number of the caret's line,
/// counted from 1, and the number of lines.
pub open spec fn status_right(cursor_y: usize, line_count: nat) -> Seq<char> {
    decimal(cursor_y.saturating_add(1) as nat) + "/"@ + decimal(line_count)
}

/// The status bar on a screen of `width` columns: the left part, spaces
/// that push the right part to the right edge where there is room, the right
/// part, and all of it cut to the width.
pub open spec fn status_bar_text(
    name: Option<Seq<char>>,
    line_count: nat,
    dirty: bool,
    cursor_y: usize,
    width: int,
) -> Seq<char> {
    let left = status_left(name, line_count, dirty);
    let right = status_right(cursor_y, line_count);
    truncated(left + spaces(width - left.len() - right.len()) + right, width)
}

/// The welcome line on a screen of `width` columns: a tilde and the
/// greeting, moved towards the middle, cut to the width.
pub open spec fn welcome_text(width: int) -> Seq<char> {
    let greeting = "Welcome to my text editor"@;
    let padding = if width > greeting.len() {
        (width - greeting.len()) / 2
    } else {
        0
    };
    truncated("~"@ + spaces(padding - 1) + greeting, width)
}

/// What the screen row `terminal_row` shows: the part of a buffer line that
/// the view covers, where the row shows a line; the welcome line a third of
/// the way down, where the buffer is empty; a tilde otherwise.
pub open spec fn screen_line_text(
    lines: Seq<Seq<char>>,
    offset: Position,
    size: Size,
    terminal_row: u16,
) -> Seq<char> {
    let y = terminal_row + offset.y;
    if y < lines.len() {
        rendered(lines[y], offset.x as int, offset.x + size.width)
    } else if terminal_row == size.height as int / 3 && lines.len() == 0 {
        welcome_text(size.width as int)
    } else {
        "~"@
    }
}

/// What the message bar shows at time `now`: the message, cut to the
/// width, while it is younger than five seconds; nothing after that.
pub open spec fn message_bar_text(text: Seq<char>, time: u64, now: u64, width: int) -> Seq<char> {
    if now - time < MESSAGE_MILLIS {
        truncated(text, width)
    } else {
        Seq::empty()
    }
}

/// A control character.
pub open spec fn is_control(c: char) -> bool {
    c <= '\u{1f}' || '\u{7f}' <= c <= '\u{9f}'
}

/// The text that has been entered at a prompt, after one more key:
/// `Backspace` takes the last character away, `Esc` all of them, a character
/// key adds its character unless that is a control character.
pub open spec fn prompt_input(input: Seq<char>, key: Key) -> Seq<char> {
    match key {
        Key::Backspace => if input.len() > 0 {
            input.drop_last()
        } else {
            input
        },
        Key::Char(c) | Key::Ctrl(c) => if is_control(c) {
            input
        } else {
            input.push(c)
        },
        Key::Esc => Seq::empty(),
        _ => input,
    }
}

/// `Enter` and `Esc` end a prompt.
pub open spec fn ends_prompt(key: Key) -> bool {
    key == Key::Enter || key == Key::Esc
}

/// A line of text that is being entered in the message bar.
pub struct Prompt {
    input: Vec<char>,
}

impl View for Prompt {
    type V = Seq<char>;

    /// What has been entered so far.
    closed spec fn view(&self) -> Seq<char> {
        self.input@
    }
}

impl Prompt {
    /// A prompt at which nothing has been entered yet.
    pub fn new() -> (prompt: Self)
        ensures
            prompt@ == Seq::<char>::empty(),
    {
        Prompt { input: Vec::new() }
    }

    /// Handles a key; returns whether the key ends the prompt.
    pub fn key(&mut self, key: Key) -> (done: bool)
        ensures
            final(self)@ == prompt_input(old(self)@, key),
            done == ends_prompt(key),
    {
        match key {
            Key::Backspace => {
                if self.input.len() > 0 {
                    self.input.pop();
                }
                false
            },
            Key::Enter => true,
            Key::Char(c) | Key::Ctrl(c) => {
                if !(c <= '\u{1f}' || ('\u{7f}' <= c && c <= '\u{9f}')) {
                    self.input.push(c);
                }
                false
            },
            Key::Esc => {
                self.input.clear();
                true
            },
            _ => false,
        }
    }

    /// What the message bar shows while the prompt is open: the label and
    /// what has been entered.
    pub fn line(&self, label: &str) -> (text: String)
        ensures
            text@ == label@ + self@,
    {
        let mut chars = chars_of(label);
        let n = self.input.len();
        push_slice(&mut chars, &self.input, 0, n);
        assert(self.input@.subrange(0, n as int) =~= self.input@);
        let len = chars.len();
        string_of(&chars, 0, len)
    }

    /// What has been entered, or nothing where that is empty.
    pub fn text(&self) -> (text: Option<String>)
        ensures
            self@.len() == 0 ==> text is None,
            self@.len() > 0 ==> text is Some && text->0@ == self@,
    {
        let n = self.input.len();
        if n == 0 {
            None
        } else {
            Some(string_of(&self.input, 0, n))
        }
    }
}

/// Appends `n` spaces to `out`.
fn push_spaces(out: &mut Vec<char>, n: usize)
    ensures
        final(out)@ == old(out)@ + spaces(n as int),
{
    let mut i: usize = 0;
    while i < n
        invariant
            i <= n,
            out@ == old(out)@ + spaces(i as int),
        decreases n - i,
    {
        out.push(' ');
        i += 1;
    }
}

/// The string of the first `width` characters of `chars`, or of all of them
/// where there are fewer.
fn truncated_string(chars: &Vec<char>, width: usize) -> (text: String)
    ensures
        text@ == truncated(chars@, width as int),
{
    let n = chars.len();
    let end = if width < n {
        width
    } else {
        n
    };
    string_of(chars, 0, end)
}

/// A message for the message bar, and the time at which it was set, in
/// milliseconds on the caller's clock.
pub struct StatusMessage {
    pub text: String,
    pub time: u64,
}

impl StatusMessage {
    pub fn from(message: String, time: u64) -> (status: Self)
        ensures
            status.text == message,
            status.time == time,
    {
        StatusMessage { text: message, time }
    }
}

/// The state of the editor.
pub struct Editor {
    terminal: Terminal,
    should_quit: bool,
    cursor_position: Position,
    offset: Position,
    document: Document,
    status_message: StatusMessage,
    quit_times: u8,
}

impl Editor {
    /// The buffer.
    pub closed spec fn doc(&self) -> Document {
        self.document
    }

    /// The caret.
    pub closed spec fn cursor(&self) -> Position {
        self.cursor_position
    }

    /// The place of the buffer that the top left corner of the screen shows.
    pub closed spec fn view_offset(&self) -> Position {
        self.offset
    }

    /// The area that the text is drawn on.
    pub closed spec fn screen(&self) -> Size {
        self.terminal.size
    }

    /// The text of the message for the message bar.
    pub closed spec fn status_text(&self) -> Seq<char> {
        self.status_message.text@
    }

    /// The time at which the message for the message bar was set.
    pub closed spec fn status_time(&self) -> u64 {
        self.status_message.time
    }

    /// Whether the editor is to stop.
    pub closed spec fn quitting(&self) -> bool {
        self.should_quit
    }

    /// How many more times a quit key is refused while changes are unsaved.
    pub closed spec fn quit_presses_left(&self) -> u8 {
        self.quit_times
    }

    /// The buffer is well formed, the caret stands in the buffer, and the
    /// count of quit keys is within its limit.
    pub open spec fn wf(&self) -> bool {
        &&& self.doc().wf()
        &&& in_buffer(self.doc().lines(), self.cursor())
        &&& self.quit_presses_left() <= QUIT_TIMES
    }

    /// An editor for `document` on `terminal`, with the caret and the view at
    /// the top left corner and `status` in the message bar.
    pub fn new(document: Document, terminal: Terminal, status: StatusMessage) -> (editor: Self)
        requires
            document.wf(),
        ensures
            editor.wf(),
            editor.doc() == document,
            editor.screen() == terminal.size,
            editor.cursor() == (Position { x: 0, y: 0 }),
            editor.view_offset() == (Position { x: 0, y: 0 }),
            editor.status_text() == status.text@,
            editor.status_time() == status.time,
            !editor.quitting(),
            editor.quit_presses_left() == QUIT_TIMES,
    {
        Editor {
            terminal,
            should_quit: false,
            cursor_position: Position::default(),
            offset: Position::default(),
            document,
            status_message: status,
            quit_times: QUIT_TIMES,
        }
    }

    pub fn document(&self) -> (document: &Document)
        ensures
            *document == self.doc(),
    {
        &self.document
    }

    /// The area that the text is drawn on.
    pub fn screen_size(&self) -> (size: Size)
        ensures
            size == self.screen(),
    {
        self.terminal.size
    }

    pub fn cursor_position(&self) -> (p: Position)
        ensures
            p == self.cursor(),
    {
        self.cursor_position
    }

    pub fn offset(&self) -> (p: Position)
        ensures
            p == self.view_offset(),
    {
        self.offset
    }

    pub fn should_quit(&self) -> (b: bool)
        ensures
            b == self.quitting(),
    {
        self.should_quit
    }

    /// The length of the row `y`, and 0 where there is no such row.
    fn row_width(&self, y: usize) -> (width: usize)
        ensures
            width == width_at(self.doc().lines(), y as int),
    {
        match self.document.row(y) {
            Some(row) => row.len(),
            None => 0,
        }
    }

    /// Moves the caret as `key` asks; nothing else changes. A caret on or
    /// just behind a row of the buffer stays in the buffer.
    pub fn move_cursor(&mut self, key: Key)
        ensures
            old(self).cursor().y <= old(self).doc().lines().len() ==> in_buffer(
                final(self).doc().lines(),
                final(self).cursor(),
            ),
            final(self).cursor() == moved(
                old(self).doc().lines(),
                old(self).cursor(),
                key,
                old(self).screen().height as usize,
            ),
            final(self).doc() == old(self).doc(),
            final(self).view_offset() == old(self).view_offset(),
            final(self).screen() == old(self).screen(),
            final(self).status_text() == old(self).status_text(),
            final(self).status_time() == old(self).status_time(),
            final(self).quitting() == old(self).quitting(),
            final(self).quit_presses_left() == old(self).quit_presses_left(),
    {
        proof {
            self.document.lemma_lengths_fit();
            if self.cursor().y <= self.doc().lines().len() {
                lemma_moved_in_buffer(
                    self.doc().lines(),
                    self.cursor(),
                    key,
                    self.screen().height as usize,
                );
            }
        }
        let terminal_height = self.terminal.size.height as usize;
        let Position { mut y, mut x } = self.cursor_position;
        let height = self.document.len();
        let width = self.row_width(y);
        match key {
            Key::Up => {
                y = y.saturating_sub(1);
            },
            Key::Down => {
                if y < height {
                    y = y + 1;
                }
            },
            Key::Left => {
                if x > 0 {
                    x -= 1;
                } else if y > 0 {
                    y -= 1;
                    x = self.row_width(y);
                }
            },
            Key::Right => {
                if x < width {
                    x += 1;
                } else if y < height {
                    y += 1;
                    x = 0;
                }
            },
            Key::PageUp => {
                y = if y > terminal_height {
                    y - terminal_height
                } else {
                    0
                };
            },
            Key::PageDown => {
                y = if y.saturating_add(terminal_height) < height {
                    y + terminal_height
                } else {
                    height
                };
            },
            Key::Home => {
                x = 0;
            },
            Key::End => {
                x = width;
            },
            _ => {},
        }
        let width = self.row_width(y);
        if x > width {
            x = width;
        }
        self.cursor_position = Position { x, y };
    }

    /// Moves the view so that it shows the caret; nothing else changes.
    pub fn scroll(&mut self)
        ensures
            final(self).view_offset().x == scrolled(
                old(self).view_offset().x,
                old(self).cursor().x,
                old(self).screen().width as usize,
            ),
            final(self).view_offset().y == scrolled(
                old(self).view_offset().y,
                old(self).cursor().y,
                old(self).screen().height as usize,
            ),
            final(self).doc() == old(self).doc(),
            final(self).cursor() == old(self).cursor(),
            final(self).screen() == old(self).screen(),
            final(self).status_text() == old(self).status_text(),
            final(self).status_time() == old(self).status_time(),
            final(self).quitting() == old(self).quitting(),
            final(self).quit_presses_left() == old(self).quit_presses_left(),
    {
        let Position { x, y } = self.cursor_position;
        let width = self.terminal.size.width as usize;
        let height = self.terminal.size.height as usize;
        if y < self.offset.y {
            self.offset.y = y;
        } else if y >= self.offset.y.saturating_add(height) {
            self.offset.y = y.saturating_sub(height).saturating_add(1);
        }
        if x < self.offset.x {
            self.offset.x = x;
        } else if x >= self.offset.x.saturating_add(width) {
            self.offset.x = x.saturating_sub(width).saturating_add(1);
        }
    }

    /// A quit key is refused: the buffer has unsaved changes and the key has
    /// not been pressed often enough.
    pub open spec fn quit_refused(&self, key: Key) -> bool {
        is_quit_key(key) && self.quit_presses_left() > 0 && self.doc().is_dirty()
    }

    /// `post` differs from `pre` at most in the message bar, in the place of
    /// the view and in the count of quit keys.
    pub open spec fn same_text_and_caret(pre: Editor, post: Editor) -> bool {
        &&& post.doc() == pre.doc()
        &&& post.cursor() == pre.cursor()
        &&& post.screen() == pre.screen()
        &&& post.quitting() == pre.quitting()
    }

    /// What a key does to the buffer and the caret. The arrow and page keys
    /// move the caret. `Delete` deletes at the caret. `Backspace` moves the
    /// caret one place left and deletes there, unless the caret stands at
    /// the very start. `Enter` and the character keys type at the caret and
    /// move it one place right. Every other key leaves both alone.
    pub open spec fn is_key_edit(pre: Editor, post: Editor, key: Key) -> bool {
        let page = pre.screen().height as usize;
        let lines = pre.doc().lines();
        let at = pre.cursor();
        if is_quit_key(key) {
            post.doc() == pre.doc() && post.cursor() == at
        } else {
            match key {
                Key::Up | Key::Down | Key::Left | Key::Right | Key::PageUp | Key::PageDown => {
                    post.doc() == pre.doc() && post.cursor() == moved(lines, at, key, page)
                },
                Key::Delete => {
                    Document::is_delete_at(pre.doc(), post.doc(), at) && post.cursor() == at
                },
                Key::Backspace => if at.x > 0 || at.y > 0 {
                    let left = moved(lines, at, Key::Left, page);
                    Document::is_delete_at(pre.doc(), post.doc(), left) && post.cursor() == left
                } else {
                    post.doc() == pre.doc() && post.cursor() == at
                },
                Key::Enter => {
                    Document::is_insert_at(pre.doc(), post.doc(), at, '\n') && post.cursor()
                        == moved(post.doc().lines(), at, Key::Right, page)
                },
                Key::Char(c) | Key::Ctrl(c) => {
                    Document::is_insert_at(pre.doc(), post.doc(), at, c) && post.cursor() == moved(
                        post.doc().lines(),
                        at,
                        Key::Right,
                        page,
                    )
                },
                _ => post.doc() == pre.doc() && post.cursor() == at,
            }
        }
    }

    /// How the handling of a key ends: the view is moved to show the caret,
    /// and the count of quit keys starts again. What becomes of the message
    /// bar is said by `has_settled_status`.
    pub open spec fn is_settled(pre: Editor, post: Editor) -> bool {
        &&& post.view_offset().x == scrolled(
            pre.view_offset().x,
            post.cursor().x,
            pre.screen().width as usize,
        )
        &&& post.view_offset().y == scrolled(
            pre.view_offset().y,
            post.cursor().y,
            pre.screen().height as usize,
        )
        &&& post.screen() == pre.screen()
        &&& post.quit_presses_left() == QUIT_TIMES
    }

    /// The message bar after the handling of a key has ended: cleared at
    /// time `now` where a quit key had been refused before, else `text` as set
    /// at `time`.
    pub open spec fn has_settled_status(
        pre: Editor,
        post: Editor,
        text: Seq<char>,
        time: u64,
        now: u64,
    ) -> bool {
        if pre.quit_presses_left() < QUIT_TIMES {
            post.status_text() == Seq::<char>::empty() && post.status_time() == now
        } else {
            post.status_text() == text && post.status_time() == time
        }
    }

    /// Puts `text` into the message bar, as set at time `now`.
    pub fn set_status(&mut self, text: String, now: u64)
        ensures
            final(self).status_text() == text@,
            final(self).status_time() == now,
            Self::same_text_and_caret(*old(self), *final(self)),
            final(self).view_offset() == old(self).view_offset(),
            final(self).quit_presses_left() == old(self).quit_presses_left(),
    {
        self.status_message = StatusMessage::from(text, now);
    }

    /// Ends the handling of a key.
    fn settle(&mut self, now: u64)
        requires
            old(self).quit_presses_left() <= QUIT_TIMES,
        ensures
            Self::same_text_and_caret(*old(self), *final(self)),
            Self::is_settled(*old(self), *final(self)),
            Self::has_settled_status(
                *old(self),
                *final(self),
                old(self).status_text(),
                old(self).status_time(),
                now,
            ),
    {
        self.scroll();
        if self.quit_times < QUIT_TIMES {
            self.quit_times = QUIT_TIMES;
            self.status_message = StatusMessage::from(String::new(), now);
        }
    }

    /// Handles a key press at time `now`. A quit key that is refused leaves
    /// a warning in the message bar and counts down; nothing else changes.
    /// The keys that ask to save or to search change nothing: their action is
    /// returned, and the caller ends the handling with `save_aborted`,
    /// `save_finished` or `search_finished`. Every other key has the effect
    /// of `is_key_edit`, a quit key that is not refused tells the editor to
    /// stop, and the handling ends as `is_settled` says.
    pub fn process_key(&mut self, key: Key, now: u64) -> (action: Action)
        requires
            old(self).wf(),
        ensures
            final(self).wf(),
            action == deferred(key),
            if old(self).quit_refused(key) {
                &&& Self::same_text_and_caret(*old(self), *final(self))
                &&& final(self).view_offset() == old(self).view_offset()
                &&& final(self).status_text() == quit_warning(old(self).quit_presses_left())
                &&& final(self).status_time() == now
                &&& final(self).quit_presses_left() == old(self).quit_presses_left() - 1
            } else if action != Action::Idle {
                *final(self) == *old(self)
            } else {
                &&& final(self).quitting() == (old(self).quitting() || is_quit_key(key))
                &&& Self::is_key_edit(*old(self), *final(self), key)
                &&& Self::is_settled(*old(self), *final(self))
                &&& Self::has_settled_status(
                    *old(self),
                    *final(self),
                    old(self).status_text(),
                    old(self).status_time(),
                    now,
                )
            },
    {
        match key {
            Key::Ctrl('c') | Key::Esc => {
                if self.quit_times > 0 && self.document.needs_saving() {
                    let mut text: Vec<char> = Vec::new();
                    push_chars(&mut text, "WARNING! File has unsaved changes still. Press Esc ");
                    push_decimal(&mut text, self.quit_times as usize);
                    push_chars(&mut text, " more times to quit");
                    let n = text.len();
                    self.status_message = StatusMessage::from(string_of(&text, 0, n), now);
                    self.quit_times -= 1;
                    return Action::Idle;
                }
                self.should_quit = true;
            },
            Key::Ctrl('s') => {
                return Action::Save;
            },
            Key::Ctrl('f') => {
                return Action::Search;
            },
            Key::Up | Key::Down | Key::Left | Key::Right | Key::PageUp | Key::PageDown => {
                self.move_cursor(key);
            },
            Key::Delete => {
                let at = self.cursor_position;
                self.document.delete(&at);
            },
            Key::Backspace => {
                if self.cursor_position.x > 0 || self.cursor_position.y > 0 {
                    self.move_cursor(Key::Left);
                    let at = self.cursor_position;
                    self.document.delete(&at);
                }
            },
            Key::Enter => {
                let at = self.cursor_position;
                self.document.insert(&at, '\n');
                self.move_cursor(Key::Right);
            },
            Key::Char(c) | Key::Ctrl(c) => {
                let at = self.cursor_position;
                self.document.insert(&at, c);
                self.move_cursor(Key::Right);
            },
            _ => {},
        }
        self.settle(now);
        Action::Idle
    }

    /// Shows the first match of `query` while the search term is still being
    /// typed: the caret goes to the first place in the buffer where `query`
    /// stands, and the view follows it. Without such a place nothing changes.
    pub fn search_preview(&mut self, query: &str)
        requires
            old(self).wf(),
        ensures
            final(self).wf(),
            final(self).doc() == old(self).doc(),
            final(self).screen() == old(self).screen(),
            final(self).quitting() == old(self).quitting(),
            final(self).quit_presses_left() == old(self).quit_presses_left(),
            final(self).status_text() == old(self).status_text(),
            final(self).status_time() == old(self).status_time(),
            match find_result(
                old(self).doc().lines(),
                query@,
                Position { x: 0, y: 0 },
                SearchDirection::Forward,
            ) {
                Some(p) => {
                    &&& final(self).cursor() == p
                    &&& final(self).view_offset().x == scrolled(
                        old(self).view_offset().x,
                        p.x,
                        old(self).screen().width as usize,
                    )
                    &&& final(self).view_offset().y == scrolled(
                        old(self).view_offset().y,
                        p.y,
                        old(self).screen().height as usize,
                    )
                },
                None => {
                    &&& final(self).cursor() == old(self).cursor()
                    &&& final(self).view_offset() == old(self).view_offset()
                },
            },
    {
        let top = Position { x: 0, y: 0 };
        let found = self.document.find(query, &top, SearchDirection::Forward);
        proof {
            lemma_find_result_unique(
                self.doc().lines(),
                query@,
                top,
                SearchDirection::Forward,
                found,
            );
        }
        match found {
            Some(position) => {
                self.cursor_position = position;
                self.scroll();
            },
            None => {},
        }
    }

    /// Ends a search at time `now`. With a search term, the caret goes to
    /// the first place in the buffer where the term stands; where it stands
    /// nowhere, the message bar says so. Without a term, neither happens.
    /// The handling of the key then ends as `is_settled` says.
    pub fn search_finished(&mut self, query: Option<&str>, now: u64)
        requires
            old(self).wf(),
        ensures
            final(self).wf(),
            final(self).doc() == old(self).doc(),
            final(self).quitting() == old(self).quitting(),
            Self::is_settled(*old(self), *final(self)),
            match query {
                Some(q) => match find_result(
                    old(self).doc().lines(),
                    q@,
                    Position { x: 0, y: 0 },
                    SearchDirection::Forward,
                ) {
                    Some(p) => {
                        &&& final(self).cursor() == p
                        &&& Self::has_settled_status(
                            *old(self),
                            *final(self),
                            old(self).status_text(),
                            old(self).status_time(),
                            now,
                        )
                    },
                    None => {
                        &&& final(self).cursor() == old(self).cursor()
                        &&& Self::has_settled_status(
                            *old(self),
                            *final(self),
                            not_found_message(q@),
                            now,
                            now,
                        )
                    },
                },
                None => {
                    &&& final(self).cursor() == old(self).cursor()
                    &&& Self::has_settled_status(
                        *old(self),
                        *final(self),
                        old(self).status_text(),
                        old(self).status_time(),
                        now,
                    )
                },
            },
    {
        match query {
            Some(q) => {
                let top = Position { x: 0, y: 0 };
                let found = self.document.find(q, &top, SearchDirection::Forward);
                proof {
                    lemma_find_result_unique(
                        self.doc().lines(),
                        q@,
                        top,
                        SearchDirection::Forward,
                        found,
                    );
                }
                match found {
                    Some(position) => {
                        self.cursor_position = position;
                    },
                    None => {
                        let mut text: Vec<char> = Vec::new();
                        push_chars(&mut text, "Not found :");
                        push_chars(&mut text, q);
                        push_chars(&mut text, ".");
                        let n = text.len();
                        assert(text@.subrange(0, n as int) =~= text@);
                        self.status_message = StatusMessage::from(string_of(&text, 0, n), now);
                    },
                }
            },
            None => {},
        }
        self.settle(now);
    }

    /// Whether the buffer needs a file name before it can be saved.
    pub fn needs_file_name(&self) -> (b: bool)
        ensures
            b == (self.doc().name() is None),
    {
        !self.document.has_file_name()
    }

    /// Gives the buffer a file name.
    pub fn set_file_name(&mut self, name: String)
        requires
            old(self).wf(),
        ensures
            final(self).wf(),
            final(self).doc().name() == Some(name@),
            final(self).doc().rows_view() == old(self).doc().rows_view(),
            final(self).doc().is_dirty() == old(self).doc().is_dirty(),
            final(self).doc().profile() == old(self).doc().profile(),
            final(self).cursor() == old(self).cursor(),
            final(self).view_offset() == old(self).view_offset(),
            final(self).screen() == old(self).screen(),
            final(self).quitting() == old(self).quitting(),
            final(self).quit_presses_left() == old(self).quit_presses_left(),
            final(self).status_text() == old(self).status_text(),
            final(self).status_time() == old(self).status_time(),
    {
        self.document.set_file_name(name);
    }

    /// Ends a save that was given up because no file name was entered: the
    /// message bar says so, and the handling of the key ends as `is_settled`
    /// says.
    pub fn save_aborted(&mut self, now: u64)
        requires
            old(self).wf(),
        ensures
            final(self).wf(),
            Self::same_text_and_caret(*old(self), *final(self)),
            Self::is_settled(*old(self), *final(self)),
            Self::has_settled_status(*old(self), *final(self), "Save aborted."@, now, now),
    {
        self.status_message = StatusMessage::from("Save aborted.".to_owned(), now);
        self.settle(now);
    }

    /// Ends a save at time `now`. Where the buffer was written, it is marked
    /// as saved; the message bar says which of the two happened, and the
    /// handling of the key ends as `is_settled` says.
    pub fn save_finished(&mut self, written: bool, now: u64)
        requires
            old(self).wf(),
        ensures
            final(self).wf(),
            final(self).cursor() == old(self).cursor(),
            final(self).quitting() == old(self).quitting(),
            final(self).doc().lines() == old(self).doc().lines(),
            final(self).doc().name() == old(self).doc().name(),
            Self::is_settled(*old(self), *final(self)),
            if written {
                &&& !final(self).doc().is_dirty()
                &&& Self::has_settled_status(
                    *old(self),
                    *final(self),
                    "File saved seccessfully"@,
                    now,
                    now,
                )
            } else {
                &&& final(self).doc() == old(self).doc()
                &&& Self::has_settled_status(
                    *old(self),
                    *final(self),
                    "Error while writing this file!"@,
                    now,
                    now,
                )
            },
    {
        if written {
            self.document.mark_saved();
            self.status_message = StatusMessage::from("File saved seccessfully".to_owned(), now);
        } else {
            self.status_message = StatusMessage::from(
                "Error while writing this file!".to_owned(),
                now,
            );
        }
        self.settle(now);
    }

    /// The text of the status bar.
    pub fn status_bar(&self) -> (text: String)
        ensures
            text@ == status_bar_text(
                self.doc().name(),
                self.doc().lines().len(),
                self.doc().is_dirty(),
                self.cursor().y,
                self.screen().width as int,
            ),
    {
        let width = self.terminal.size.width as usize;
        let count = self.document.len();
        let mut left: Vec<char> = Vec::new();
        match self.document.file_name() {
            Some(name) => {
                let chars = chars_of(name);
                let n = chars.len();
                let shown = if SHOWN_NAME_LEN < n {
                    SHOWN_NAME_LEN
                } else {
                    n
                };
                push_slice(&mut left, &chars, 0, shown);
                assert(chars@.subrange(0, shown as int) =~= truncated(name@, SHOWN_NAME_LEN as int));
            },
            None => {
                push_chars(&mut left, "[No Name]");
            },
        }
        push_chars(&mut left, " - ");
        push_decimal(&mut left, count);
        push_chars(&mut left, " lines");
        if self.document.needs_saving() {
            push_chars(&mut left, " (modified)");
        }
        let mut right: Vec<char> = Vec::new();
        push_decimal(&mut right, self.cursor_position.y.saturating_add(1));
        push_chars(&mut right, "/");
        push_decimal(&mut right, count);
        let gap: usize = if width > left.len() && width - left.len() > right.len() {
            width - left.len() - right.len()
        } else {
            0
        };
        push_spaces(&mut left, gap);
        let m = right.len();
        push_slice(&mut left, &right, 0, m);
        assert(right@.subrange(0, m as int) =~= right@);
        truncated_string(&left, width)
    }

    /// The welcome line.
    pub fn welcome_line(&self) -> (text: String)
        ensures
            text@ == welcome_text(self.screen().width as int),
    {
        let width = self.terminal.size.width as usize;
        let greeting = chars_of("Welcome to my text editor");
        let len = greeting.len();
        let padding = width.saturating_sub(len) / 2;
        let mut line: Vec<char> = Vec::new();
        push_chars(&mut line, "~");
        push_spaces(&mut line, padding.saturating_sub(1));
        push_chars(&mut line, "Welcome to my text editor");
        truncated_string(&line, width)
    }

    /// The text of the screen row `terminal_row`.
    pub fn screen_line(&self, terminal_row: u16) -> (text: String)
        ensures
            text@ == screen_line_text(
                self.doc().lines(),
                self.view_offset(),
                self.screen(),
                terminal_row,
            ),
    {
        let width = self.terminal.size.width as usize;
        proof {
            self.document.lemma_lengths_fit();
        }
        let row = match self.offset.y.checked_add(terminal_row as usize) {
            Some(y) => self.document.row(y),
            None => None,
        };
        match row {
            Some(row) => {
                let start = self.offset.x;
                let end = start.saturating_add(width);
                proof {
                    row.lemma_lengths_fit();
                }
                row.render(start, end)
            },
            None => {
                if terminal_row == self.terminal.size.height / 3 && self.document.is_empty() {
                    self.welcome_line()
                } else {
                    "~".to_owned()
                }
            },
        }
    }

    /// The categories of the characters that the screen row `terminal_row`
    /// shows of a buffer row, as that row was last highlighted; none where
    /// the screen row shows no buffer row.
    pub fn screen_categories(&self, terminal_row: u16) -> (shown: Vec<Category>)
        ensures
            shown@ == if terminal_row + self.view_offset().y < self.doc().rows_view().len() {
                window(
                    self.doc().rows_view()[terminal_row + self.view_offset().y].categories(),
                    self.view_offset().x as int,
                    self.view_offset().x + self.screen().width,
                )
            } else {
                Seq::<Category>::empty()
            },
    {
        let width = self.terminal.size.width as usize;
        proof {
            self.document.lemma_lengths_fit();
        }
        let row = match self.offset.y.checked_add(terminal_row as usize) {
            Some(y) => self.document.row(y),
            None => None,
        };
        match row {
            Some(row) => {
                let start = self.offset.x;
                let end = start.saturating_add(width);
                proof {
                    row.lemma_lengths_fit();
                }
                row.visible_categories(start, end)
            },
            None => {
                let shown: Vec<Category> = Vec::new();
                shown
            },
        }
    }

    /// The text of the message bar at time `now`.
    pub fn message_bar(&self, now: u64) -> (text: String)
        ensures
            text@ == message_bar_text(
                self.status_text(),
                self.status_time(),
                now,
                self.screen().width as int,
            ),
    {
        if now.saturating_sub(self.status_message.time) < MESSAGE_MILLIS {
            let chars = chars_of(self.status_message.text.as_str());
            truncated_string(&chars, self.terminal.size.width as usize)
        } else {
            String::new()
        }
    }

    /// Where on the screen the caret stands: its place in the buffer, seen
    /// from the top left corner of the view.
    pub fn screen_cursor(&self) -> (p: Position)
        ensures
            p.x == self.cursor().x.saturating_sub(self.view_offset().x),
            p.y == self.cursor().y.saturating_sub(self.view_offset().y),
    {
        Position {
            x: self.cursor_position.x.saturating_sub(self.offset.x),
            y: self.cursor_position.y.saturating_sub(self.offset.y),
        }
    }
}

} // verus!
