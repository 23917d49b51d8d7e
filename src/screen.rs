use vstd::prelude::*;
use crate::contents::{Command, appends_text, lemma_appends_char, lemma_appends_concat};
use crate::cursor_controller::min_nat;
use crate::highlight::{
    colored,
    lemma_commands_push,
    lemma_printed_appends,
    lemma_printed_colored,
    printed_text,
};
use crate::output::Output;
use crate::row::spaces;
use crate::status::StatusMessage;

verus! {

/// The banner shown in the middle of an empty document.
pub const WELCOME: &'static str = "Pound Editor --- Version 0.1.0";

/// The status bar's name for a document with no file.
pub const NO_NAME: &'static str = "[No Name]";

/// The status bar's mark for unsaved edits.
pub const MODIFIED: &'static str = "(modified)";

pub uninterp spec fn file_name_of(path: Seq<char>) -> Option<Seq<char>>;

/// Relies on `Path::file_name`: the final component of a path, if it has one
/// (here only when it is valid Unicode).
#[verifier::external_body]
fn path_file_name(path: &str) -> (r: Option<String>)
    ensures
        match r {
            Some(name) => file_name_of(path@) == Some(name@),
            None => file_name_of(path@).is_none(),
        },
{
    let name = std::path::Path::new(path).file_name()?;
    Some(String::from(name.to_str()?))
}

pub open spec fn digit_char(d: nat) -> char {
    if d == 0 {
        '0'
    } else if d == 1 {
        '1'
    } else if d == 2 {
        '2'
    } else if d == 3 {
        '3'
    } else if d == 4 {
        '4'
    } else if d == 5 {
        '5'
    } else if d == 6 {
        '6'
    } else if d == 7 {
        '7'
    } else if d == 8 {
        '8'
    } else {
        '9'
    }
}

/// The decimal digits of `n`.
pub open spec fn decimal(n: nat) -> Seq<char>
    decreases n,
{
    if n < 10 {
        seq![digit_char(n)]
    } else {
        decimal(n / 10).push(digit_char(n % 10))
    }
}

pub fn digit(d: usize) -> (c: char)
    requires
        d < 10,
    ensures
        c == digit_char(d as nat),
{
    match d {
        0 => '0',
        1 => '1',
        2 => '2',
        3 => '3',
        4 => '4',
        5 => '5',
        6 => '6',
        7 => '7',
        8 => '8',
        _ => '9',
    }
}

/// The decimal digits of `n`.
pub fn decimal_chars(n: usize) -> (r: Vec<char>)
    ensures
        r@ == decimal(n as nat),
    decreases n,
{
    if n < 10 {
        vec![digit(n)]
    } else {
        let mut r = decimal_chars(n / 10);
        r.push(digit(n % 10));
        r
    }
}

/// Appends the characters of `s` to `v`.
pub fn append_str(v: &mut Vec<char>, s: &str)
    ensures
        final(v)@ == old(v)@ + s@,
{
    let n = s.unicode_len();
    let mut i: usize = 0;
    while i < n
        invariant
            n == s@.len(),
            i <= n,
            v@ == old(v)@ + s@.take(i as int),
        decreases n - i,
    {
        let c = s.get_char(i);
        v.push(c);
        i = i + 1;
        assert(v@ =~= old(v)@ + s@.take(i as int));
    }
    assert(s@.take(n as int) =~= s@);
}

/// Appends the characters of `s` to `v`.
pub fn append_chars(v: &mut Vec<char>, s: &Vec<char>)
    ensures
        final(v)@ == old(v)@ + s@,
{
    let mut i: usize = 0;
    while i < s.len()
        invariant
            i <= s@.len(),
            v@ == old(v)@ + s@.take(i as int),
        decreases s@.len() - i,
    {
        v.push(crate::contents::char_at(s, i));
        i = i + 1;
        assert(v@ =~= old(v)@ + s@.take(i as int));
    }
    assert(s@.take(s@.len() as int) =~= s@);
}

/// The banner line of an empty document, `welcome` cut to the screen width and
/// centred, with a `~` in front when there is room.
pub open spec fn welcome_line(welcome: Seq<char>, cols: nat) -> Seq<char> {
    let w = if welcome.len() > cols {
        welcome.take(cols as int)
    } else {
        welcome
    };
    let padding = ((cols - w.len()) as nat) / 2;
    if padding == 0 {
        w
    } else {
        seq!['~'] + spaces((padding - 1) as nat) + w
    }
}

/// The message a status message shows at `now`, if any.
pub open spec fn shown_message(m: StatusMessage, now: u64) -> Option<String> {
    match m.set_time {
        None => None,
        Some(t) => if StatusMessage::expired(t, now) {
            None
        } else {
            m.message
        },
    }
}

/// The text of the message bar at `now` on a screen `cols` columns wide.
pub open spec fn message_text(m: StatusMessage, now: u64, cols: nat) -> Seq<char> {
    match shown_message(m, now) {
        Some(text) => text@.take(min_nat(text@.len(), cols) as int),
        None => Seq::empty(),
    }
}

/// `after` is `before` followed by the message bar: a clear to the end of the
/// line, then the message's text.
pub open spec fn message_drawn(
    m: StatusMessage,
    now: u64,
    cols: nat,
    before: Seq<Command>,
    after: Seq<Command>,
) -> bool {
    let s = before.len() as int;
    &&& after.len() > s
    &&& after.take(s) == before
    &&& after[s] == Command::ClearUntilNewLine
    &&& appends_text(after.take(s + 1), after, message_text(m, now, cols))
}

pub open spec fn crlf() -> Seq<char> {
    seq!['\r', '\n']
}

/// The screen rows' text depends only on the document, the cursor and viewport,
/// and the screen size.
pub proof fn lemma_rows_text_same(a: Output, b: Output, k: nat)
    requires
        a.editor_rows == b.editor_rows,
        a.cursor_controller == b.cursor_controller,
        a.win_size == b.win_size,
    ensures
        a.rows_text(k) == b.rows_text(k),
    decreases k,
{
    if k > 0 {
        lemma_rows_text_same(a, b, (k - 1) as nat);
    }
}

/// Prefixes of prefixes: each sequence starts with the one before it.
pub proof fn lemma_prefix_chain(
    c1: Seq<Command>,
    c2: Seq<Command>,
    c3: Seq<Command>,
    c4: Seq<Command>,
    after: Seq<Command>,
)
    requires
        c1.len() <= c2.len() <= c3.len() <= c4.len() <= after.len(),
        c2.take(c1.len() as int) == c1,
        c3.take(c2.len() as int) == c2,
        c4.take(c3.len() as int) == c3,
        after.take(c4.len() as int) == c4,
    ensures
        after.take(c3.len() as int) == c3,
        after.take(c2.len() as int) == c2,
        after.take(c1.len() as int) == c1,
{
    assert(after.take(c3.len() as int) =~= c3);
    assert(after.take(c2.len() as int) =~= c2);
    assert(after.take(c1.len() as int) =~= c1);
}

/// Which commands draw the screen rows depends only on the document, the
/// cursor and viewport, the screen size and the highlighter.
pub proof fn lemma_rows_drawn_same(a: Output, b: Output, before: Seq<Command>, after: Seq<Command>, k: nat)
    requires
        a.editor_rows == b.editor_rows,
        a.cursor_controller == b.cursor_controller,
        a.win_size == b.win_size,
        a.syntax_highlight == b.syntax_highlight,
        a.rows_drawn(before, after, k),
    ensures
        b.rows_drawn(before, after, k),
    decreases k,
{
    if k > 0 {
        let (x, y) = choose|x: int, y: int|
            #![trigger after.take(x), after.take(y)]
            before.len() <= x <= y && y + 3 == after.len() && a.rows_drawn(
                before,
                after.take(x),
                (k - 1) as nat,
            ) && a.row_drawn(after.take(x), after.take(y), (k - 1) as nat) && after[y]
                == Command::ClearUntilNewLine && after[y + 1] == Command::Print('\r')
                && after[y + 2] == Command::Print('\n');
        lemma_rows_drawn_same(a, b, before, after.take(x), (k - 1) as nat);
        assert(b.row_drawn(after.take(x), after.take(y), (k - 1) as nat));
    }
}

impl Output {
    /// Nothing but the frame under construction differs between the two states.
    pub open spec fn same_but_frame(&self, other: Output) -> bool {
        &&& self.win_size == other.win_size
        &&& self.cursor_controller == other.cursor_controller
        &&& self.editor_rows == other.editor_rows
        &&& self.status_message == other.status_message
        &&& self.dirty == other.dirty
        &&& self.syntax_highlight == other.syntax_highlight
        &&& self.previous_highlight == other.previous_highlight
    }

    /// The rendered columns `[start, end)` of the document row shown on screen
    /// row `i`: from the column offset, at most a screen width.
    pub open spec fn visible_span(&self, i: nat) -> (int, int) {
        let render = self.rows()[i + self.cursor_controller.row_offset].render@;
        let co = self.cursor_controller.column_offset as nat;
        let len = min_nat(
            if render.len() > co {
                (render.len() - co) as nat
            } else {
                0
            },
            self.win_size.0 as nat,
        );
        let start = if len == 0 {
            0
        } else {
            co
        };
        (start as int, (start + len) as int)
    }

    /// Whether screen row `i` shows a document row.
    pub open spec fn shows_row(&self, i: nat) -> bool {
        i + self.cursor_controller.row_offset < self.rows().len()
    }

    /// The text of screen row `i`: the visible part of a document row, the
    /// banner of an empty document, or a `~` past the end of the document.
    pub open spec fn screen_line(&self, i: nat) -> Seq<char> {
        let rows = self.rows();
        let n = rows.len();
        if !self.shows_row(i) {
            if n == 0 && i == self.win_size.1 / 3 {
                welcome_line(WELCOME@, self.win_size.0 as nat)
            } else {
                seq!['~']
            }
        } else {
            let (start, end) = self.visible_span(i);
            rows[i + self.cursor_controller.row_offset].render@.subrange(start, end)
        }
    }

    /// The commands `after` adds to `before` to draw screen row `i`: with a
    /// highlighter, a document row's visible part drawn in colour; otherwise the
    /// row's text printed as it is.
    pub open spec fn row_drawn(&self, before: Seq<Command>, after: Seq<Command>, i: nat) -> bool {
        if self.shows_row(i) && self.syntax_highlight.is_some() {
            let row = self.rows()[i + self.cursor_controller.row_offset];
            let (start, end) = self.visible_span(i);
            colored(before, after, row.render@.subrange(start, end), row.highlight@.subrange(start, end))
        } else {
            appends_text(before, after, self.screen_line(i))
        }
    }

    /// `after` is `before` followed by the drawing of the first `k` screen rows,
    /// each row followed by a clear to the end of the line and a line break.
    pub open spec fn rows_drawn(&self, before: Seq<Command>, after: Seq<Command>, k: nat) -> bool
        decreases k,
    {
        if k == 0 {
            after == before
        } else {
            exists|a: int, b: int|
                #![trigger after.take(a), after.take(b)]
                before.len() <= a <= b && b + 3 == after.len() && self.rows_drawn(
                    before,
                    after.take(a),
                    (k - 1) as nat,
                ) && self.row_drawn(after.take(a), after.take(b), (k - 1) as nat) && after[b]
                    == Command::ClearUntilNewLine && after[b + 1] == Command::Print('\r')
                    && after[b + 2] == Command::Print('\n')
        }
    }

    /// `after` is `before` followed by the status bar: reverse video, the bar's
    /// text, the attributes reset, and a line break.
    pub open spec fn status_drawn(&self, before: Seq<Command>, after: Seq<Command>) -> bool {
        let s = before.len() as int;
        let l = self.status_line().len() as int;
        &&& after.len() == s + l + 4
        &&& after.take(s) == before
        &&& after[s] == Command::ReverseVideo
        &&& appends_text(after.take(s + 1), after.take(s + 1 + l), self.status_line())
        &&& after[s + 1 + l] == Command::ResetAttributes
        &&& after[s + 2 + l] == Command::Print('\r')
        &&& after[s + 3 + l] == Command::Print('\n')
    }

    /// The text of the first `k` screen rows, each followed by a line break.
    pub open spec fn rows_text(&self, k: nat) -> Seq<char>
        decreases k,
    {
        if k == 0 {
            Seq::empty()
        } else {
            self.rows_text((k - 1) as nat) + self.screen_line((k - 1) as nat) + crlf()
        }
    }

    /// The status bar's left part: file name, modified mark and line count.
    pub open spec fn status_info(&self) -> Seq<char> {
        let label = match self.editor_rows.filename {
            Some(path) => match file_name_of(path@) {
                Some(name) => name,
                None => NO_NAME@,
            },
            None => NO_NAME@,
        };
        let modified = if self.dirty > 0 {
            MODIFIED@
        } else {
            Seq::empty()
        };
        label + seq![' '] + modified + " -- "@ + decimal(self.rows().len()) + " lines"@
    }

    /// The status bar's right part: cursor row (from 1) over the line count.
    pub open spec fn line_info(&self) -> Seq<char> {
        let y = self.cursor_controller.cursor_y;
        let shown = if y < usize::MAX {
            y + 1
        } else {
            y as int
        };
        decimal(shown as nat) + seq!['/'] + decimal(self.rows().len())
    }

    /// The status bar: the left part cut to the screen width, then the right
    /// part flush right when it fits.
    pub open spec fn status_line(&self) -> Seq<char> {
        let cols = self.win_size.0 as nat;
        let info = self.status_info();
        let info_len = min_nat(info.len(), cols);
        let room = (cols - info_len) as nat;
        let li = self.line_info();
        info.take(info_len as int) + if li.len() <= room {
            spaces((room - li.len()) as nat) + li
        } else {
            spaces(room)
        }
    }

    /// Draws screen row `i`, without its line break, into the frame.
    pub fn draw_row(&mut self, i: usize)
        requires
            old(self).wf(),
            i < old(self).win_size.1,
        ensures
            final(self).same_but_frame(*old(self)),
            printed_text(final(self).editor_contents.content@) == printed_text(
                old(self).editor_contents.content@,
            ) + old(self).screen_line(i as nat),
            old(self).row_drawn(
                old(self).editor_contents.content@,
                final(self).editor_contents.content@,
                i as nat,
            ),
    {
        let screen_rows = self.win_size.1;
        let screen_columns = self.win_size.0;
        let n = self.editor_rows.number_of_rows();
        let row_offset = self.cursor_controller.row_offset;
        let ghost line_start = self.editor_contents.content@;
        if row_offset >= n || i >= n - row_offset {
            if n == 0 && i == screen_rows / 3 {
                let total = WELCOME.unicode_len();
                let len = if total > screen_columns {
                    screen_columns
                } else {
                    total
                };
                let padding = (screen_columns - len) / 2;
                let ghost w = if WELCOME@.len() > screen_columns {
                    WELCOME@.take(screen_columns as int)
                } else {
                    WELCOME@
                };
                proof {
                    assert(WELCOME@.take(len as int) == w) by {
                        if WELCOME@.len() <= screen_columns {
                            assert(WELCOME@.take(len as int) =~= WELCOME@);
                        }
                    }
                }
                if padding != 0 {
                    let ghost c0 = self.editor_contents.content@;
                    self.editor_contents.push('~');
                    proof {
                        lemma_commands_push(c0, Command::Print('~'), crate::contents::Color::Reset);
                    }
                    let ghost c1 = self.editor_contents.content@;
                    self.editor_contents.push_spaces(padding - 1);
                    proof {
                        lemma_printed_appends(c1, self.editor_contents.content@, spaces((padding - 1) as nat));
                        lemma_appends_char(c0, '~');
                        lemma_appends_concat(c0, c1, self.editor_contents.content@, seq!['~'], spaces((padding - 1) as nat));
                    }
                }
                let ghost c2 = self.editor_contents.content@;
                self.editor_contents.push_str_take(WELCOME, len);
                proof {
                    lemma_printed_appends(c2, self.editor_contents.content@, WELCOME@.take(len as int));
                    if padding != 0 {
                        lemma_appends_concat(
                            line_start,
                            c2,
                            self.editor_contents.content@,
                            seq!['~'] + spaces((padding - 1) as nat),
                            w,
                        );
                    }
                    assert(appends_text(line_start, self.editor_contents.content@, welcome_line(WELCOME@, screen_columns as nat)));
                    assert(printed_text(self.editor_contents.content@) =~= printed_text(line_start)
                        + welcome_line(WELCOME@, screen_columns as nat));
                }
            } else {
                let ghost c0 = self.editor_contents.content@;
                self.editor_contents.push('~');
                proof {
                    lemma_commands_push(c0, Command::Print('~'), crate::contents::Color::Reset);
                    lemma_appends_char(c0, '~');
                    assert(printed_text(self.editor_contents.content@) =~= printed_text(line_start) + seq!['~']);
                }
            }
        } else {
            let file_row = i + row_offset;
            let row = &self.editor_rows.row_contents[file_row];
            let column_offset = self.cursor_controller.column_offset;
            let render_len = row.render.len();
            let rest = if render_len > column_offset {
                render_len - column_offset
            } else {
                0
            };
            let len = if rest < screen_columns {
                rest
            } else {
                screen_columns
            };
            let start_col = if len == 0 {
                0
            } else {
                column_offset
            };
            match self.syntax_highlight {
                Some(syntax_highlight) => {
                    syntax_highlight.color_row(
                        &self.editor_rows.row_contents[file_row].render,
                        &self.editor_rows.row_contents[file_row].highlight,
                        start_col,
                        start_col + len,
                        &mut self.editor_contents,
                    );
                    proof {
                        lemma_printed_colored(
                            line_start,
                            self.editor_contents.content@,
                            self.rows()[file_row as int].render@.subrange(start_col as int, start_col + len),
                            self.rows()[file_row as int].highlight@.subrange(start_col as int, start_col + len),
                        );
                    }
                },
                None => {
                    self.editor_contents.push_chars(
                        &self.editor_rows.row_contents[file_row].render,
                        start_col,
                        start_col + len,
                    );
                    proof {
                        lemma_printed_appends(
                            line_start,
                            self.editor_contents.content@,
                            self.rows()[file_row as int].render@.subrange(start_col as int, start_col + len),
                        );
                    }
                },
            }
        }
    }

    /// Draws every screen row into the frame.
    pub fn draw_rows(&mut self)
        requires
            old(self).wf(),
        ensures
            final(self).same_but_frame(*old(self)),
            printed_text(final(self).editor_contents.content@) == printed_text(
                old(self).editor_contents.content@,
            ) + old(self).rows_text(old(self).win_size.1 as nat),
            old(self).rows_drawn(
                old(self).editor_contents.content@,
                final(self).editor_contents.content@,
                old(self).win_size.1 as nat,
            ),
            final(self).editor_contents.content@.len() >= old(self).editor_contents.content@.len(),
            final(self).editor_contents.content@.take(old(self).editor_contents.content@.len() as int)
                == old(self).editor_contents.content@,
    {
        let screen_rows = self.win_size.1;
        let ghost start = printed_text(self.editor_contents.content@);
        let ghost before = *self;
        let ghost first = self.editor_contents.content@;
        let mut i: usize = 0;
        while i < screen_rows
            invariant
                self.wf(),
                self.same_but_frame(before),
                i <= screen_rows,
                screen_rows == self.win_size.1,
                printed_text(self.editor_contents.content@) == start + before.rows_text(i as nat),
                before.rows_drawn(first, self.editor_contents.content@, i as nat),
                self.editor_contents.content@.len() >= first.len(),
                self.editor_contents.content@.take(first.len() as int) == first,
            decreases screen_rows - i,
        {
            let ghost c_a = self.editor_contents.content@;
            self.draw_row(i);
            let ghost c_b = self.editor_contents.content@;
            let ghost c3 = self.editor_contents.content@;
            self.editor_contents.queue(Command::ClearUntilNewLine);
            self.editor_contents.push('\r');
            let ghost c4 = self.editor_contents.content@;
            self.editor_contents.push('\n');
            proof {
                lemma_commands_push(c3, Command::ClearUntilNewLine, crate::contents::Color::Reset);
                lemma_commands_push(c3.push(Command::ClearUntilNewLine), Command::Print('\r'), crate::contents::Color::Reset);
                lemma_commands_push(c4, Command::Print('\n'), crate::contents::Color::Reset);
                assert(printed_text(self.editor_contents.content@) =~= printed_text(c3) + crlf());
                assert(before.rows_text((i + 1) as nat) == before.rows_text(i as nat) + before.screen_line(i as nat) + crlf());
                assert(printed_text(self.editor_contents.content@) =~= start + before.rows_text((i + 1) as nat));
                let after = self.editor_contents.content@;
                assert(after.take(c_a.len() as int) =~= c_a);
                assert(after.take(c_b.len() as int) =~= c_b);
                assert(before.row_drawn(c_a, c_b, i as nat));
                assert(before.rows_drawn(first, after, (i + 1) as nat));
                assert(c_b.take(c_a.len() as int) == c_a);
                assert(after.take(first.len() as int) =~= first);
            }
            i = i + 1;
        }
    }

    /// The status bar's left part.
    pub fn status_info_chars(&self) -> (r: Vec<char>)
        ensures
            r@ == self.status_info(),
    {
        let mut info: Vec<char> = Vec::new();
        match &self.editor_rows.filename {
            Some(path) => match path_file_name(path.as_str()) {
                Some(name) => append_str(&mut info, name.as_str()),
                None => append_str(&mut info, NO_NAME),
            },
            None => append_str(&mut info, NO_NAME),
        }
        info.push(' ');
        if self.dirty > 0 {
            append_str(&mut info, MODIFIED);
        }
        append_str(&mut info, " -- ");
        let count = decimal_chars(self.editor_rows.number_of_rows());
        append_chars(&mut info, &count);
        append_str(&mut info, " lines");
        proof {
            assert(info@ =~= self.status_info());
        }
        info
    }

    /// The status bar's right part.
    pub fn line_info_chars(&self) -> (r: Vec<char>)
        ensures
            r@ == self.line_info(),
    {
        let mut line_info = decimal_chars(self.cursor_controller.cursor_y.saturating_add(1));
        line_info.push('/');
        let count = decimal_chars(self.editor_rows.number_of_rows());
        append_chars(&mut line_info, &count);
        proof {
            assert(line_info@ =~= self.line_info());
        }
        line_info
    }

    /// Draws the status bar in reverse video, followed by a line break.
    #[verifier::rlimit(40)]
    pub fn draw_status_bar(&mut self)
        requires
            old(self).wf(),
        ensures
            final(self).same_but_frame(*old(self)),
            printed_text(final(self).editor_contents.content@) == printed_text(
                old(self).editor_contents.content@,
            ) + old(self).status_line() + crlf(),
            old(self).status_drawn(
                old(self).editor_contents.content@,
                final(self).editor_contents.content@,
            ),
    {
        let ghost c0 = self.editor_contents.content@;
        self.editor_contents.queue(Command::ReverseVideo);
        let info = self.status_info_chars();
        let screen_columns = self.win_size.0;
        let info_len = if info.len() < screen_columns {
            info.len()
        } else {
            screen_columns
        };
        let line_info = self.line_info_chars();
        let ghost c1 = self.editor_contents.content@;
        self.editor_contents.push_chars(&info, 0, info_len);
        let ghost c2 = self.editor_contents.content@;
        let room = screen_columns - info_len;
        let ghost right: Seq<char>;
        if line_info.len() <= room {
            self.editor_contents.push_spaces(room - line_info.len());
            let ghost c3 = self.editor_contents.content@;
            self.editor_contents.push_chars(&line_info, 0, line_info.len());
            proof {
                lemma_printed_appends(c2, c3, spaces((room - line_info.len()) as nat));
                lemma_printed_appends(c3, self.editor_contents.content@, line_info@.subrange(0, line_info@.len() as int));
                assert(line_info@.subrange(0, line_info@.len() as int) =~= line_info@);
                right = spaces((room - line_info.len()) as nat) + line_info@;
                lemma_appends_concat(c2, c3, self.editor_contents.content@, spaces((room - line_info.len()) as nat), line_info@);
            }
        } else {
            self.editor_contents.push_spaces(room);
            proof {
                lemma_printed_appends(c2, self.editor_contents.content@, spaces(room as nat));
                right = spaces(room as nat);
            }
        }
        let ghost c5 = self.editor_contents.content@;
        self.editor_contents.queue(Command::ResetAttributes);
        let ghost c6 = self.editor_contents.content@;
        self.editor_contents.push('\r');
        let ghost c7 = self.editor_contents.content@;
        self.editor_contents.push('\n');
        proof {
            lemma_commands_push(c0, Command::ReverseVideo, crate::contents::Color::Reset);
            lemma_printed_appends(c1, c2, info@.subrange(0, info_len as int));
            assert(info@.subrange(0, info_len as int) =~= info@.take(info_len as int));
            lemma_commands_push(c5, Command::ResetAttributes, crate::contents::Color::Reset);
            lemma_commands_push(c6, Command::Print('\r'), crate::contents::Color::Reset);
            lemma_commands_push(c7, Command::Print('\n'), crate::contents::Color::Reset);
            assert(printed_text(self.editor_contents.content@) =~= printed_text(c0) + old(self).status_line() + crlf());
            lemma_appends_concat(c1, c2, c5, info@.take(info_len as int), right);
            let after = self.editor_contents.content@;
            let l = old(self).status_line().len() as int;
            assert(info@.take(info_len as int) + right =~= old(self).status_line());
            assert(c5.len() == c1.len() + l);
            assert(c1 =~= c0.push(Command::ReverseVideo));
            assert(after.take(c0.len() as int + 1 + l) =~= c5);
            assert(c5.take(c1.len() as int) == c1);
            assert(after.take(c0.len() as int + 1) =~= c1);
            assert(after.take(c0.len() as int) =~= c0);
        }
    }

    /// Draws the message still shown at `now`, cut to the screen width.
    pub fn draw_message_bar(&mut self, now: u64)
        requires
            old(self).wf(),
        ensures
            final(self).win_size == old(self).win_size,
            final(self).cursor_controller == old(self).cursor_controller,
            final(self).editor_rows == old(self).editor_rows,
            final(self).dirty == old(self).dirty,
            final(self).syntax_highlight == old(self).syntax_highlight,
            final(self).previous_highlight == old(self).previous_highlight,
            shown_message(final(self).status_message, now) == shown_message(old(self).status_message, now),
            printed_text(final(self).editor_contents.content@) == printed_text(
                old(self).editor_contents.content@,
            ) + match shown_message(old(self).status_message, now) {
                Some(m) => m@.take(min_nat(m@.len(), old(self).win_size.0 as nat) as int),
                None => Seq::empty(),
            },
            message_drawn(
                old(self).status_message,
                now,
                old(self).win_size.0 as nat,
                old(self).editor_contents.content@,
                final(self).editor_contents.content@,
            ),
    {
        let ghost c0 = self.editor_contents.content@;
        self.editor_contents.queue(Command::ClearUntilNewLine);
        proof {
            lemma_commands_push(c0, Command::ClearUntilNewLine, crate::contents::Color::Reset);
        }
        let screen_columns = self.win_size.0;
        match self.status_message.message(now) {
            Some(message) => {
                let total = message.as_str().unicode_len();
                let len = if total < screen_columns {
                    total
                } else {
                    screen_columns
                };
                let ghost c1 = self.editor_contents.content@;
                self.editor_contents.push_str_take(message.as_str(), len);
                proof {
                    lemma_printed_appends(c1, self.editor_contents.content@, message@.take(len as int));
                    let after = self.editor_contents.content@;
                    assert(after.take(c1.len() as int) == c1);
                    assert(after.take(c0.len() as int) =~= c0);
                }
            },
            None => {
                assert(printed_text(self.editor_contents.content@) =~= printed_text(c0) + Seq::<char>::empty());
                let ghost after = self.editor_contents.content@;
                assert(after.take(c0.len() as int) =~= c0);
                assert(after.take(c0.len() as int + 1) =~= after);
                assert(after.skip(after.len() as int) =~= Seq::<Command>::empty());
            },
        }
    }

    /// Composes a whole frame: scrolls so the cursor is in view, hides the
    /// terminal cursor, draws the rows, the status bar and the message bar, then
    /// places the terminal cursor on the editor's cursor and shows it.
    #[verifier::rlimit(50)]
    pub fn refresh_screen(&mut self, now: u64)
        requires
            old(self).wf(),
        ensures
            final(self).wf(),
            final(self).editor_rows == old(self).editor_rows,
            final(self).dirty == old(self).dirty,
            final(self).previous_highlight == old(self).previous_highlight,
            final(self).cursor_controller.cursor_x == old(self).cursor_controller.cursor_x,
            final(self).cursor_controller.cursor_y == old(self).cursor_controller.cursor_y,
            final(self).cursor_controller.render_x == crate::cursor_controller::render_column(
                old(self).editor_rows,
                old(self).cursor_controller.cursor_x as nat,
                old(self).cursor_controller.cursor_y as nat,
            ),
            final(self).cursor_controller.row_offset == (if old(self).cursor_controller.cursor_y
                < old(self).cursor_controller.row_offset {
                old(self).cursor_controller.cursor_y as int
            } else if old(self).cursor_controller.cursor_y >= old(self).cursor_controller.row_offset
                + old(self).win_size.1 {
                old(self).cursor_controller.cursor_y - old(self).win_size.1 + 1
            } else {
                old(self).cursor_controller.row_offset as int
            }),
            final(self).cursor_controller.column_offset == (if final(self).cursor_controller.render_x
                < old(self).cursor_controller.column_offset {
                final(self).cursor_controller.render_x as int
            } else if final(self).cursor_controller.render_x >= old(self).cursor_controller.column_offset
                + old(self).win_size.0 {
                final(self).cursor_controller.render_x - old(self).win_size.0 + 1
            } else {
                old(self).cursor_controller.column_offset as int
            }),
            final(self).cursor_controller.row_offset <= final(self).cursor_controller.cursor_y
                < final(self).cursor_controller.row_offset + final(self).win_size.1,
            final(self).cursor_controller.column_offset <= final(self).cursor_controller.render_x
                < final(self).cursor_controller.column_offset + final(self).win_size.0,
            ({
                let start = old(self).editor_contents.content@;
                let content = final(self).editor_contents.content@;
                let c = final(self).cursor_controller;
                &&& content.len() >= start.len() + 4
                &&& content.take(start.len() as int) == start
                &&& content[start.len() as int] == Command::HideCursor
                &&& content[start.len() as int + 1] == Command::MoveTo(0, 0)
                &&& exists|p: int, q: int|
                    #![trigger content.take(p), content.take(q)]
                    start.len() + 2 <= p <= q <= content.len() - 2 && final(self).rows_drawn(
                        content.take(start.len() as int + 2),
                        content.take(p),
                        final(self).win_size.1 as nat,
                    ) && final(self).status_drawn(content.take(p), content.take(q))
                        && message_drawn(
                        old(self).status_message,
                        now,
                        final(self).win_size.0 as nat,
                        content.take(q),
                        content.take(content.len() - 2),
                    )
                &&& content[content.len() - 2] == Command::MoveTo(
                    (c.render_x - c.column_offset) as u16,
                    (c.cursor_y - c.row_offset) as u16,
                )
                &&& content.last() == Command::ShowCursor
                &&& printed_text(content) == printed_text(start) + final(self).rows_text(
                    final(self).win_size.1 as nat,
                ) + final(self).status_line() + crlf() + match shown_message(
                    old(self).status_message,
                    now,
                ) {
                    Some(m) => m@.take(min_nat(m@.len(), final(self).win_size.0 as nat) as int),
                    None => Seq::empty(),
                }
            }),
    {
        let ghost start = self.editor_contents.content@;
        self.cursor_controller.scroll(&self.editor_rows);
        self.editor_contents.queue(Command::HideCursor);
        self.editor_contents.queue(Command::MoveTo(0, 0));
        let ghost c1 = self.editor_contents.content@;
        proof {
            lemma_commands_push(start, Command::HideCursor, crate::contents::Color::Reset);
            lemma_commands_push(start.push(Command::HideCursor), Command::MoveTo(0, 0), crate::contents::Color::Reset);
        }
        let ghost scrolled = *self;
        self.draw_rows();
        let ghost c2 = self.editor_contents.content@;
        self.draw_status_bar();
        let ghost c3 = self.editor_contents.content@;
        self.draw_message_bar(now);
        let ghost c4 = self.editor_contents.content@;
        let cursor_x = self.cursor_controller.render_x - self.cursor_controller.column_offset;
        let cursor_y = self.cursor_controller.cursor_y - self.cursor_controller.row_offset;
        self.editor_contents.queue(Command::MoveTo(cursor_x as u16, cursor_y as u16));
        let ghost c5 = self.editor_contents.content@;
        self.editor_contents.queue(Command::ShowCursor);
        proof {
            lemma_commands_push(c4, Command::MoveTo(cursor_x as u16, cursor_y as u16), crate::contents::Color::Reset);
            lemma_commands_push(c5, Command::ShowCursor, crate::contents::Color::Reset);
            lemma_rows_text_same(scrolled, *self, self.win_size.1 as nat);
            assert(scrolled.status_line() == self.status_line());
            lemma_rows_drawn_same(scrolled, *self, c1, c2, self.win_size.1 as nat);
            let after = self.editor_contents.content@;
            assert(after.take(c4.len() as int) =~= c4);
            lemma_prefix_chain(c1, c2, c3, c4, after);
            assert(after.take(start.len() as int) =~= start);
            assert(c1 =~= start.push(Command::HideCursor).push(Command::MoveTo(0, 0)));
            assert(self.status_drawn(after.take(c2.len() as int), after.take(c3.len() as int)));
        }
    }
}

} // verus!
