use vstd::prelude::*;
use crate::editor_rows::EditorRows;
use crate::keys::KeyCode;
use crate::row::{Row, TAB_STOP, lemma_render_len, lemma_width_mono, lemma_width_step, render_width};

verus! {

/// The cursor, in raw coordinates, and the viewport over the document.
#[derive(Clone, Copy)]
pub struct CursorController {
    /// Raw column of the cursor.
    pub cursor_x: usize,
    /// Row of the cursor; the number of rows stands for the line past the end.
    pub cursor_y: usize,
    pub screen_columns: usize,
    pub screen_rows: usize,
    /// First document row shown.
    pub row_offset: usize,
    /// First rendered column shown.
    pub column_offset: usize,
    /// Rendered column of the cursor, as of the last scroll.
    pub render_x: usize,
}

pub open spec fn min_nat(a: nat, b: nat) -> nat {
    if a <= b {
        a
    } else {
        b
    }
}

/// The rendered column of raw column `x` on row `y`; 0 on the row past the end.
pub open spec fn render_column(rows: EditorRows, x: nat, y: nat) -> nat {
    if y < rows.row_contents@.len() {
        render_width(rows.row_contents@[y as int].row_content@.take(x as int))
    } else {
        0
    }
}

impl CursorController {
    /// The cursor lies inside the document: on a row or on the line past the end,
    /// and at most at the end of its row.
    pub open spec fn in_document(&self, rows: EditorRows) -> bool {
        &&& self.cursor_y <= rows.row_contents@.len()
        &&& self.cursor_x <= rows.line_len(self.cursor_y as int)
    }

    /// Where a key moves the cursor, before it is pulled back to the end of its row.
    pub open spec fn key_target(&self, key: KeyCode, rows: EditorRows) -> (nat, nat) {
        let n = rows.row_contents@.len();
        let x = self.cursor_x as nat;
        let y = self.cursor_y as nat;
        match key {
            KeyCode::Up => (x, if y == 0 { 0 } else { (y - 1) as nat }),
            KeyCode::Down => (x, if y < n { y + 1 } else { y }),
            KeyCode::Left => if x != 0 {
                ((x - 1) as nat, y)
            } else if y != 0 {
                (rows.line_len(y - 1), (y - 1) as nat)
            } else {
                (x, y)
            },
            KeyCode::Right => if y < n && x < rows.line_len(y as int) {
                (x + 1, y)
            } else if y + 1 < n {
                (0, y + 1)
            } else {
                (x, y)
            },
            KeyCode::Home => if y < n {
                (0, y)
            } else {
                (x, y)
            },
            KeyCode::End => if y < n {
                (rows.row_contents@[y as int].render@.len(), y)
            } else {
                (x, y)
            },
            _ => (x, y),
        }
    }

    /// A controller at the top left of the document, for a viewport of
    /// `screen_column` columns and `screen_row` rows.
    pub fn new(win_size: (usize, usize)) -> (r: CursorController)
        ensures
            r.cursor_x == 0,
            r.cursor_y == 0,
            r.screen_columns == win_size.0,
            r.screen_rows == win_size.1,
            r.row_offset == 0,
            r.column_offset == 0,
            r.render_x == 0,
    {
        let (screen_column, screen_row) = win_size;
        CursorController {
            cursor_x: 0,
            cursor_y: 0,
            screen_columns: screen_column,
            screen_rows: screen_row,
            row_offset: 0,
            column_offset: 0,
            render_x: 0,
        }
    }

    /// Moves the cursor by one arrow, Home or End key, then pulls it back to the
    /// end of its row; returns the new position as (column, row).
    pub fn move_cursor(&mut self, arrow_key: KeyCode, editor_rows: &EditorRows) -> (r: (usize, usize))
        requires
            editor_rows.wf(),
            old(self).cursor_y <= editor_rows.row_contents@.len(),
        ensures
            final(self).cursor_y == old(self).key_target(arrow_key, *editor_rows).1,
            final(self).cursor_x == min_nat(
                old(self).key_target(arrow_key, *editor_rows).0,
                editor_rows.line_len(final(self).cursor_y as int),
            ),
            final(self).in_document(*editor_rows),
            r == (final(self).cursor_x, final(self).cursor_y),
            final(self).column_offset == (if arrow_key == KeyCode::Left && old(self).cursor_x == 0
                && old(self).cursor_y != 0 {
                let width = editor_rows.row_contents@[old(self).cursor_y - 1].render@.len();
                if width >= old(self).screen_columns {
                    (width - old(self).screen_columns) as nat
                } else {
                    0
                }
            } else {
                old(self).column_offset as nat
            }),
            final(self).row_offset == old(self).row_offset,
            final(self).render_x == old(self).render_x,
            final(self).screen_rows == old(self).screen_rows,
            final(self).screen_columns == old(self).screen_columns,
    {
        let number_of_rows = editor_rows.number_of_rows();
        match arrow_key {
            KeyCode::Up => {
                self.cursor_y = self.cursor_y.saturating_sub(1);
            },
            KeyCode::Down => {
                if self.cursor_y < number_of_rows {
                    self.cursor_y += 1;
                }
            },
            KeyCode::Left => {
                if self.cursor_x != 0 {
                    self.cursor_x -= 1;
                } else {
                    if self.cursor_y != 0 {
                        self.cursor_y -= 1;
                        self.cursor_x = editor_rows.get_editor_row(self.cursor_y).origin_len();
                        self.column_offset = editor_rows.get_editor_row(
                            self.cursor_y,
                        ).render_len().saturating_sub(self.screen_columns);
                    }
                }
            },
            KeyCode::Right => {
                if self.cursor_y < number_of_rows {
                    if self.cursor_x < editor_rows.get_editor_row(self.cursor_y).origin_len() {
                        self.cursor_x += 1;
                    } else {
                        if self.cursor_y < number_of_rows - 1 {
                            self.cursor_x = 0;
                            self.cursor_y += 1;
                        }
                    }
                }
            },
            KeyCode::Home => {
                if self.cursor_y < number_of_rows {
                    self.cursor_x = 0;
                }
            },
            KeyCode::End => {
                if self.cursor_y < number_of_rows {
                    self.cursor_x = editor_rows.get_editor_row(self.cursor_y).render_len();
                }
            },
            _ => {},
        }
        let row_len = if self.cursor_y < number_of_rows {
            editor_rows.get_editor_row(self.cursor_y).origin_len()
        } else {
            0
        };
        if row_len < self.cursor_x {
            self.cursor_x = row_len;
        }
        (self.cursor_x, self.cursor_y)
    }

    /// Computes the cursor's rendered column and moves the viewport the least
    /// needed to show the cursor.
    pub fn scroll(&mut self, editor_rows: &EditorRows)
        requires
            editor_rows.wf(),
            old(self).in_document(*editor_rows),
            old(self).screen_rows >= 1,
            old(self).screen_columns >= 1,
        ensures
            final(self).cursor_x == old(self).cursor_x,
            final(self).cursor_y == old(self).cursor_y,
            final(self).screen_rows == old(self).screen_rows,
            final(self).screen_columns == old(self).screen_columns,
            final(self).render_x == render_column(
                *editor_rows,
                old(self).cursor_x as nat,
                old(self).cursor_y as nat,
            ),
            final(self).row_offset == (if old(self).cursor_y < old(self).row_offset {
                old(self).cursor_y as int
            } else if old(self).cursor_y >= old(self).row_offset + old(self).screen_rows {
                old(self).cursor_y - old(self).screen_rows + 1
            } else {
                old(self).row_offset as int
            }),
            final(self).column_offset == (if final(self).render_x < old(self).column_offset {
                final(self).render_x as int
            } else if final(self).render_x >= old(self).column_offset + old(self).screen_columns {
                final(self).render_x - old(self).screen_columns + 1
            } else {
                old(self).column_offset as int
            }),
            final(self).row_offset <= final(self).cursor_y < final(self).row_offset
                + final(self).screen_rows,
            final(self).column_offset <= final(self).render_x < final(self).column_offset
                + final(self).screen_columns,
    {
        self.render_x = 0;
        if self.cursor_y < editor_rows.number_of_rows() {
            self.render_x = self.get_render_x(editor_rows.get_editor_row(self.cursor_y));
        }
        if self.cursor_y < self.row_offset {
            self.row_offset = self.cursor_y;
        }
        if self.cursor_y - self.row_offset >= self.screen_rows {
            self.row_offset = self.cursor_y - (self.screen_rows - 1);
        }
        if self.render_x < self.column_offset {
            self.column_offset = self.render_x;
        }
        if self.render_x - self.column_offset >= self.screen_columns {
            self.column_offset = self.render_x - (self.screen_columns - 1);
        }
    }

    /// The rendered column of the cursor's raw column on `row`.
    pub fn get_render_x(&self, row: &Row) -> (r: usize)
        requires
            row.wf(),
            self.cursor_x <= row.row_content@.len(),
        ensures
            r == render_width(row.row_content@.take(self.cursor_x as int)),
    {
        let ghost raw = row.row_content@;
        proof {
            lemma_render_len(raw);
            assert(raw.take(raw.len() as int) =~= raw);
            assert(raw.take(0) =~= Seq::<char>::empty());
        }
        let render_len = row.render.len();
        let mut render_x: usize = 0;
        let mut i: usize = 0;
        while i < self.cursor_x
            invariant
                row.wf(),
                raw == row.row_content@,
                self.cursor_x <= raw.len(),
                render_len == row.render@.len(),
                raw.take(raw.len() as int) == raw,
                render_width(raw) == row.render@.len(),
                i <= self.cursor_x,
                render_x == render_width(raw.take(i as int)),
            decreases self.cursor_x - i,
        {
            proof {
                lemma_width_step(raw, i as int);
                lemma_width_mono(raw, i as int + 1, raw.len() as int);
            }
            if row.row_content[i] == '\t' {
                render_x = render_x + (TAB_STOP - render_x % TAB_STOP);
            } else {
                render_x = render_x + 1;
            }
            i = i + 1;
        }
        render_x
    }
}

} // verus!
