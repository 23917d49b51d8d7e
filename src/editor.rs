use vstd::prelude::*;
use crate::cursor_controller::{CursorController, min_nat};
use crate::editor_rows::EditorRows;
use crate::keys::{KeyCode, KeyEvent, KeyModifiers, Reader};
use crate::output::{Output, deleted_before_cursor, lines_with_cursor_row, split_at_cursor};

verus! {

/// How many times Ctrl-Q must be pressed in a row to quit with unsaved edits.
pub const QUIT_TIMES: u8 = 3;

/// What the application does after a key has been handled.
#[derive(Clone, Copy, Debug, PartialEq, Eq, Structural)]
pub enum Action {
    /// Draw the next frame and read the next key.
    Continue,
    /// Leave the editor.
    Quit,
    /// Warn that the document has unsaved edits and that Ctrl-Q must be
    /// pressed this many more times to quit.
    QuitWarning(u8),
    /// Save the document, asking for a file name first when it has none.
    Save,
    /// Run an incremental search.
    Find,
}

/// The editor: the state it shows and the quit countdown.
pub struct Editor {
    pub reader: Reader,
    pub output: Output,
    pub quit_times: u8,
}

pub open spec fn is_quit_key(key: KeyEvent) -> bool {
    key.code == KeyCode::Char('q') && key.modifiers == KeyModifiers::Control
}

pub open spec fn is_save_key(key: KeyEvent) -> bool {
    key.code == KeyCode::Char('s') && key.modifiers == KeyModifiers::Control
}

pub open spec fn is_find_key(key: KeyEvent) -> bool {
    key.code == KeyCode::Char('f') && key.modifiers == KeyModifiers::Control
}

pub open spec fn is_arrow_key(code: KeyCode) -> bool {
    ||| code == KeyCode::Up
    ||| code == KeyCode::Down
    ||| code == KeyCode::Left
    ||| code == KeyCode::Right
    ||| code == KeyCode::Home
    ||| code == KeyCode::End
}

/// Whether a key does anything beyond refilling the quit countdown.
pub open spec fn is_bound_key(key: KeyEvent) -> bool {
    ||| is_quit_key(key)
    ||| is_save_key(key)
    ||| is_find_key(key)
    ||| (key.modifiers == KeyModifiers::Plain && (is_arrow_key(key.code) || key.code
        == KeyCode::PageUp || key.code == KeyCode::PageDown || key.code == KeyCode::Backspace
        || key.code == KeyCode::Delete || key.code == KeyCode::Enter))
    ||| typed_char(key).is_some()
}

/// The character a key types, if it types one.
pub open spec fn typed_char(key: KeyEvent) -> Option<char> {
    if key.modifiers == KeyModifiers::Plain || key.modifiers == KeyModifiers::Shift {
        match key.code {
            KeyCode::Char(c) => Some(c),
            KeyCode::Tab => Some('\t'),
            _ => None,
        }
    } else {
        None
    }
}

/// What a quit request does, given the dirty counter and the countdown: with
/// unsaved edits and more than one request still needed, a warning and one
/// fewer needed; otherwise quitting.
pub open spec fn quit_step(dirty: u64, quit_times: u8) -> (Action, u8) {
    if dirty > 0 && quit_times > 1 {
        (Action::QuitWarning((quit_times - 1) as u8), (quit_times - 1) as u8)
    } else {
        (Action::Quit, quit_times)
    }
}

/// With unsaved edits and a full countdown, the first two quit requests warn
/// (two, then one more request needed) and the third quits.
pub proof fn lemma_three_quits(dirty: u64)
    requires
        dirty > 0,
    ensures
        quit_step(dirty, QUIT_TIMES) == (Action::QuitWarning(2), 2u8),
        quit_step(dirty, 2) == (Action::QuitWarning(1), 1u8),
        quit_step(dirty, 1).0 == Action::Quit,
{
}

/// The editor after the cursor moved one place right, as Delete does before it
/// deletes the character then before the cursor.
pub open spec fn moved_right(o: Output) -> Output {
    let c = o.cursor_controller;
    let target = c.key_target(KeyCode::Right, o.editor_rows);
    Output {
        cursor_controller: CursorController {
            cursor_x: min_nat(target.0, o.editor_rows.line_len(target.1 as int)) as usize,
            cursor_y: target.1 as usize,
            ..c
        },
        ..o
    }
}

/// The cursor position reached from (x, y) by `k` moves up, or down, each
/// followed by pulling the cursor back to the end of its row.
pub open spec fn steps(x: nat, y: nat, up: bool, rows: EditorRows, k: nat) -> (nat, nat)
    decreases k,
{
    if k == 0 {
        (x, y)
    } else {
        let (x1, y1) = steps(x, y, up, rows, (k - 1) as nat);
        let n = rows.row_contents@.len();
        let y2 = if up {
            if y1 == 0 {
                0
            } else {
                (y1 - 1) as nat
            }
        } else if y1 < n {
            y1 + 1
        } else {
            y1
        };
        (min_nat(x1, rows.line_len(y2 as int)), y2)
    }
}

/// The row a page key jumps to before stepping: the top of the viewport for
/// Page Up, its bottom (at most the line past the end) for Page Down.
pub open spec fn page_start(row_offset: nat, screen_rows: nat, n: nat, up: bool) -> nat {
    if up {
        min_nat(row_offset, n)
    } else {
        min_nat((row_offset + screen_rows - 1) as nat, n)
    }
}

impl Editor {
    pub open spec fn wf(&self) -> bool {
        &&& self.output.wf()
        &&& self.output.previous_highlight.is_none()
    }

    pub fn new(output: Output) -> (r: Editor)
        ensures
            r.output == output,
            r.quit_times == QUIT_TIMES,
    {
        Editor { reader: Reader, output, quit_times: QUIT_TIMES }
    }

    /// Moves the cursor a page up or down: it jumps to the top (or bottom) row
    /// of the viewport, then moves one row up (or down) once per viewport row.
    pub fn page(&mut self, up: bool)
        requires
            old(self).wf(),
        ensures
            final(self).wf(),
            final(self).output.editor_rows == old(self).output.editor_rows,
            final(self).output.dirty == old(self).output.dirty,
            final(self).output.syntax_highlight == old(self).output.syntax_highlight,
            final(self).quit_times == old(self).quit_times,
            ({
                let c = old(self).output.cursor_controller;
                let rows = old(self).output.editor_rows;
                let start = page_start(
                    c.row_offset as nat,
                    c.screen_rows as nat,
                    rows.row_contents@.len(),
                    up,
                );
                (final(self).output.cursor_controller.cursor_x as nat,
                final(self).output.cursor_controller.cursor_y as nat) == steps(
                    c.cursor_x as nat,
                    start,
                    up,
                    rows,
                    c.screen_rows as nat,
                )
            }),
    {
        let n = self.output.editor_rows.number_of_rows();
        let row_offset = self.output.cursor_controller.row_offset;
        let screen_rows = self.output.win_size.1;
        let ghost x0 = self.output.cursor_controller.cursor_x as nat;
        if up {
            self.output.cursor_controller.cursor_y = if row_offset < n {
                row_offset
            } else {
                n
            };
        } else {
            self.output.cursor_controller.cursor_y = if row_offset >= n || screen_rows - 1 >= n
                - row_offset {
                n
            } else {
                row_offset + (screen_rows - 1)
            };
        }
        let ghost y0 = self.output.cursor_controller.cursor_y as nat;
        let key = if up {
            KeyCode::Up
        } else {
            KeyCode::Down
        };
        let mut k: usize = 0;
        while k < screen_rows
            invariant
                self.output.editor_rows.wf(),
                self.output.cursor_controller.cursor_y <= self.output.editor_rows.row_contents@.len(),
                k > 0 ==> self.output.cursor_controller.in_document(self.output.editor_rows),
                key == (if up {
                    KeyCode::Up
                } else {
                    KeyCode::Down
                }),
                k <= screen_rows,
                (self.output.cursor_controller.cursor_x as nat,
                self.output.cursor_controller.cursor_y as nat) == steps(
                    x0,
                    y0,
                    up,
                    self.output.editor_rows,
                    k as nat,
                ),
                self.output.editor_rows == old(self).output.editor_rows,
                self.output.dirty == old(self).output.dirty,
                self.output.syntax_highlight == old(self).output.syntax_highlight,
                self.output.previous_highlight.is_none(),
                self.output.win_size == old(self).output.win_size,
                self.output.cursor_controller.screen_rows == old(self).output.cursor_controller.screen_rows,
                self.output.cursor_controller.screen_columns == old(self).output.cursor_controller.screen_columns,
                self.quit_times == old(self).quit_times,
                screen_rows == self.output.win_size.1,
                screen_rows >= 1,
            decreases screen_rows - k,
        {
            self.output.cursor_controller.move_cursor(key, &self.output.editor_rows);
            k = k + 1;
        }
    }

    /// Handles one key. Ctrl-Q quits, after warnings while there are unsaved
    /// edits; every other key refills the quit countdown. Ctrl-S asks the
    /// application to save, Ctrl-F to search. Arrows, Home and End move the cursor, Page Up and
    /// Page Down move it a page, Enter splits the row, Backspace deletes before
    /// the cursor and Delete after it, and a character or a tab is typed.
    pub fn process_key(&mut self, key_event: KeyEvent) -> (r: Action)
        requires
            old(self).wf(),
        ensures
            final(self).wf(),
            old(self).output.based() ==> final(self).output.based(),
            is_quit_key(key_event) ==> (r, final(self).quit_times) == quit_step(
                old(self).output.dirty,
                old(self).quit_times,
            ) && final(self).output == old(self).output,
            !is_quit_key(key_event) ==> final(self).quit_times == QUIT_TIMES,
            !is_bound_key(key_event) ==> final(self).output == old(self).output,
            is_save_key(key_event) ==> r == Action::Save && final(self).output == old(self).output,
            is_find_key(key_event) ==> r == Action::Find && final(self).output == old(self).output,
            !is_quit_key(key_event) && !is_save_key(key_event) && !is_find_key(key_event) ==> r
                == Action::Continue,
            key_event.modifiers == KeyModifiers::Plain && is_arrow_key(key_event.code) ==> {
                &&& final(self).output.editor_rows == old(self).output.editor_rows
                &&& final(self).output.dirty == old(self).output.dirty
                &&& final(self).output.syntax_highlight == old(self).output.syntax_highlight
                &&& final(self).output.previous_highlight == old(self).output.previous_highlight
                &&& final(self).output.cursor_controller.cursor_y
                    == old(self).output.cursor_controller.key_target(
                    key_event.code,
                    old(self).output.editor_rows,
                ).1
                &&& final(self).output.cursor_controller.cursor_x == min_nat(
                    old(self).output.cursor_controller.key_target(
                        key_event.code,
                        old(self).output.editor_rows,
                    ).0,
                    old(self).output.editor_rows.line_len(
                        final(self).output.cursor_controller.cursor_y as int,
                    ),
                )
            },
            key_event == (KeyEvent { code: KeyCode::Delete, modifiers: KeyModifiers::Plain })
                ==> deleted_before_cursor(moved_right(old(self).output), final(self).output),
            key_event == (KeyEvent { code: KeyCode::Enter, modifiers: KeyModifiers::Plain })
                ==> split_at_cursor(old(self).output, final(self).output),
            key_event == (KeyEvent { code: KeyCode::Backspace, modifiers: KeyModifiers::Plain })
                ==> deleted_before_cursor(old(self).output, final(self).output),
            key_event == (KeyEvent { code: KeyCode::PageUp, modifiers: KeyModifiers::Plain })
                || key_event == (KeyEvent { code: KeyCode::PageDown, modifiers: KeyModifiers::Plain })
                ==> {
                let c = old(self).output.cursor_controller;
                let rows = old(self).output.editor_rows;
                let up = key_event.code == KeyCode::PageUp;
                &&& final(self).output.editor_rows == rows
                &&& final(self).output.dirty == old(self).output.dirty
                &&& final(self).output.syntax_highlight == old(self).output.syntax_highlight
                &&& final(self).output.previous_highlight == old(self).output.previous_highlight
                &&& (final(self).output.cursor_controller.cursor_x as nat,
                final(self).output.cursor_controller.cursor_y as nat) == steps(
                    c.cursor_x as nat,
                    page_start(c.row_offset as nat, c.screen_rows as nat, rows.row_contents@.len(), up),
                    up,
                    rows,
                    c.screen_rows as nat,
                )
            },
            typed_char(key_event) matches Some(c) ==> {
                let y = old(self).output.cursor_controller.cursor_y as int;
                let x = old(self).output.cursor_controller.cursor_x as int;
                let lines = lines_with_cursor_row(old(self).output.lines(), y);
                &&& final(self).output.lines() == lines.update(y, lines[y].insert(x, c))
                &&& final(self).output.cursor_controller.cursor_x == x + 1
                &&& final(self).output.cursor_controller.cursor_y == y
                &&& final(self).output.dirty > 0
            },
    {
        match key_event {
            KeyEvent { code: KeyCode::Char('q'), modifiers: KeyModifiers::Control } => {
                if self.output.dirty > 0 && self.quit_times > 1 {
                    self.quit_times = self.quit_times - 1;
                    return Action::QuitWarning(self.quit_times);
                }
                return Action::Quit;
            },
            KeyEvent { code: KeyCode::Char('s'), modifiers: KeyModifiers::Control } => {
                self.quit_times = QUIT_TIMES;
                return Action::Save;
            },
            KeyEvent { code: KeyCode::Char('f'), modifiers: KeyModifiers::Control } => {
                self.quit_times = QUIT_TIMES;
                return Action::Find;
            },
            KeyEvent {
                code: KeyCode::Up | KeyCode::Down | KeyCode::Left | KeyCode::Right | KeyCode::Home
                | KeyCode::End,
                modifiers: KeyModifiers::Plain,
            } => {
                self.output.move_cursor(key_event.code);
            },
            KeyEvent { code: KeyCode::PageUp, modifiers: KeyModifiers::Plain } => {
                self.page(true);
            },
            KeyEvent { code: KeyCode::PageDown, modifiers: KeyModifiers::Plain } => {
                self.page(false);
            },
            KeyEvent { code: KeyCode::Backspace, modifiers: KeyModifiers::Plain } => {
                self.output.delete_char();
            },
            KeyEvent { code: KeyCode::Delete, modifiers: KeyModifiers::Plain } => {
                self.output.move_cursor(KeyCode::Right);
                self.output.delete_char();
            },
            KeyEvent { code: KeyCode::Enter, modifiers: KeyModifiers::Plain } => {
                self.output.insert_newline();
            },
            KeyEvent {
                code: KeyCode::Char(c),
                modifiers: KeyModifiers::Plain | KeyModifiers::Shift,
            } => {
                self.output.insert_char(c);
            },
            KeyEvent { code: KeyCode::Tab, modifiers: KeyModifiers::Plain | KeyModifiers::Shift } => {
                self.output.insert_char('\t');
            },
            _ => {},
        }
        self.quit_times = QUIT_TIMES;
        Action::Continue
    }

    /// Records a successful save: the document has no unsaved edits any more.
    pub fn saved(&mut self)
        ensures
            final(self).output.dirty == 0,
            final(self).output.editor_rows == old(self).output.editor_rows,
            final(self).output.cursor_controller == old(self).output.cursor_controller,
            final(self).output.previous_highlight == old(self).output.previous_highlight,
            final(self).output.syntax_highlight == old(self).output.syntax_highlight,
            final(self).output.win_size == old(self).output.win_size,
            final(self).quit_times == old(self).quit_times,
    {
        self.output.dirty = 0;
    }
}

} // verus!
