use vstd::prelude::*;
use crate::contents::EditorContents;
use crate::cursor_controller::{CursorController, render_column};
use crate::editor_rows::{EditorRows, base_highlight, lines_of_rows, rows_based};
use crate::highlight::{SyntaxHighlight, lemma_number_highlight_len};
use crate::keys::KeyCode;
use crate::row::{HighlightType, Row, row_content_x, first_past};
use crate::search::{first_match, last_match, marked, find_from, rfind_before, mark_match};
use crate::prompt::{Prompt, PromptStep, prompt_step};
use crate::status::StatusMessage;

verus! {

/// The editor's state: the document, the cursor and viewport, the frame being
/// drawn, the status message, and what a search has changed.
pub struct Output {
    /// Viewport size as (columns, rows), the status and message bars excluded.
    pub win_size: (usize, usize),
    pub editor_contents: EditorContents,
    pub cursor_controller: CursorController,
    pub editor_rows: EditorRows,
    pub status_message: StatusMessage,
    /// Nonzero while there are unsaved edits.
    pub dirty: u64,
    pub syntax_highlight: Option<SyntaxHighlight>,
    /// The row that shows a search match, with its classification from before the match.
    pub previous_highlight: Option<(usize, Vec<HighlightType>)>,
}

/// The raw content of the rows after a new empty row has been added at the end
/// when the cursor stands past the end.
pub open spec fn lines_with_cursor_row(lines: Seq<Seq<char>>, y: int) -> Seq<Seq<char>> {
    if y == lines.len() {
        lines.push(Seq::empty())
    } else {
        lines
    }
}

/// The effect of Enter: the cursor's row is split at the cursor (an empty row
/// is opened above when the cursor is at the start of its row), and the cursor
/// moves to the start of the next row.
pub open spec fn split_at_cursor(before: Output, after: Output) -> bool {
    let y = before.cursor_controller.cursor_y as int;
    let x = before.cursor_controller.cursor_x as int;
    let lines = before.lines();
    &&& after.lines() == if x == 0 {
        lines.insert(y, Seq::empty())
    } else {
        lines.update(y, lines[y].take(x)).insert(y + 1, lines[y].skip(x))
    }
    &&& after.cursor_controller.cursor_x == 0
    &&& after.cursor_controller.cursor_y == y + 1
    &&& after.dirty > 0
}

/// The effect of Backspace: the character before the cursor is removed, or at
/// the start of a row the row is joined to the one above; past the end of the
/// document and at its very start nothing changes.
pub open spec fn deleted_before_cursor(before: Output, after: Output) -> bool {
    let y = before.cursor_controller.cursor_y as int;
    let x = before.cursor_controller.cursor_x as int;
    let lines = before.lines();
    if y == lines.len() || (x == 0 && y == 0) {
        &&& after.editor_rows == before.editor_rows
        &&& after.lines() == lines
        &&& after.cursor_controller == before.cursor_controller
        &&& after.dirty == before.dirty
    } else if x > 0 {
        &&& after.lines() == lines.update(y, lines[y].remove(x - 1))
        &&& after.cursor_controller.cursor_x == x - 1
        &&& after.cursor_controller.cursor_y == y
        &&& after.dirty > 0
    } else {
        &&& after.lines() == lines.update(y - 1, lines[y - 1] + lines[y]).remove(y)
        &&& after.cursor_controller.cursor_x == lines[y - 1].len()
        &&& after.cursor_controller.cursor_y == y - 1
        &&& after.dirty > 0
    }
}

pub uninterp spec fn extension_of(path: Seq<char>) -> Option<Seq<char>>;

/// Relies on `Path::extension`: the part of a path's file name after its last
/// dot, if it has one (here only when it is valid Unicode).
#[verifier::external_body]
fn path_extension(path: &str) -> (r: Option<String>)
    ensures
        match r {
            Some(ext) => extension_of(path@) == Some(ext@),
            None => extension_of(path@).is_none(),
        },
{
    let ext = std::path::Path::new(path).extension()?;
    Some(String::from(ext.to_str()?))
}

/// The first row in `[lo, hi)` whose rendered text holds `keyword`.
pub open spec fn first_row_forward(rows: Seq<Row>, keyword: Seq<char>, lo: int, hi: int) -> Option<nat>
    decreases hi - lo,
{
    if lo >= hi {
        None
    } else if first_match(rows[lo].render@, keyword, 0).is_some() {
        Some(lo as nat)
    } else {
        first_row_forward(rows, keyword, lo + 1, hi)
    }
}

/// The last row in `[lo, hi)` whose rendered text holds `keyword`.
pub open spec fn first_row_backward(rows: Seq<Row>, keyword: Seq<char>, lo: int, hi: int) -> Option<
    nat,
>
    decreases hi - lo,
{
    if lo >= hi {
        None
    } else if first_match(rows[hi - 1].render@, keyword, 0).is_some() {
        Some((hi - 1) as nat)
    } else {
        first_row_backward(rows, keyword, lo, hi - 1)
    }
}

pub open spec fn first_index(text: Seq<char>, keyword: Seq<char>) -> nat {
    match first_match(text, keyword, 0) {
        Some(i) => i,
        None => 0,
    }
}

pub open spec fn is_row_search_key(key: KeyCode) -> bool {
    key == KeyCode::Left || key == KeyCode::Right
}

pub open spec fn ends_search(key: KeyCode) -> bool {
    key == KeyCode::Esc || key == KeyCode::Enter
}

pub proof fn lemma_first_past_bound(raw: Seq<char>, render_x: nat, i: nat)
    ensures
        first_past(raw, render_x, i) == 0 || first_past(raw, render_x, i) < raw.len(),
    decreases raw.len() - i,
{
    if i < raw.len() && !(crate::row::render_width(raw.take(i as int + 1)) > render_x) {
        lemma_first_past_bound(raw, render_x, i + 1);
    }
}

pub proof fn lemma_forward_found(rows: Seq<Row>, keyword: Seq<char>, lo: int, hi: int)
    requires
        0 <= lo,
        hi <= rows.len(),
    ensures
        first_row_forward(rows, keyword, lo, hi) matches Some(r) ==> lo <= r < hi && first_match(
            rows[r as int].render@,
            keyword,
            0,
        ).is_some(),
    decreases hi - lo,
{
    if lo < hi && first_match(rows[lo].render@, keyword, 0).is_none() {
        lemma_forward_found(rows, keyword, lo + 1, hi);
    }
}

pub proof fn lemma_backward_found(rows: Seq<Row>, keyword: Seq<char>, lo: int, hi: int)
    requires
        0 <= lo,
        hi <= rows.len(),
    ensures
        first_row_backward(rows, keyword, lo, hi) matches Some(r) ==> lo <= r < hi && first_match(
            rows[r as int].render@,
            keyword,
            0,
        ).is_some(),
    decreases hi - lo,
{
    if lo < hi && first_match(rows[hi - 1].render@, keyword, 0).is_none() {
        lemma_backward_found(rows, keyword, lo, hi - 1);
    }
}

pub proof fn lemma_first_match_found(text: Seq<char>, keyword: Seq<char>, from: int)
    ensures
        first_match(text, keyword, from) matches Some(i) ==> from <= i && i + keyword.len()
            <= text.len(),
    decreases text.len() + 1 - from,
{
    if 0 <= from <= text.len() && !crate::search::occurs_at(text, keyword, from) {
        lemma_first_match_found(text, keyword, from + 1);
    }
}

pub proof fn lemma_last_match_found(text: Seq<char>, keyword: Seq<char>, i: int)
    ensures
        crate::search::last_match_from(text, keyword, i) matches Some(j) ==> j <= i && j
            + keyword.len() <= text.len(),
    decreases i + 1,
{
    if i >= 0 && !crate::search::occurs_at(text, keyword, i) {
        lemma_last_match_found(text, keyword, i - 1);
    }
}

/// A search session that starts on an editor whose rows all carry their base
/// classification starts settled; and while every row carries its base
/// classification, no character anywhere is marked as a search match.
pub proof fn lemma_no_match_when_based(o: Output)
    requires
        o.based(),
    ensures
        o.previous_highlight.is_none() ==> o.search_settled(),
        forall|i: int, j: int|
            0 <= i < o.rows().len() && 0 <= j < o.rows()[i].highlight@.len() ==> #[trigger] o.rows()[i].highlight@[j]
                != HighlightType::SearchMatch,
{
    assert forall|i: int, j: int|
        0 <= i < o.rows().len() && 0 <= j < o.rows()[i].highlight@.len() implies #[trigger] o.rows()[i].highlight@[j]
            != HighlightType::SearchMatch by {
        crate::highlight::lemma_number_highlight_no_match(o.rows()[i].render@);
    }
}

/// A search keystroke keeps the search settled: every row but the one showing
/// the match carries its base classification, and the saved classification
/// is the base one. A keystroke that ends the search leaves every row at its
/// base classification, with nothing saved.
pub proof fn lemma_searched_settled(a: Output, b: Output, keyword: Seq<char>, key: KeyCode)
    requires
        a.wf(),
        a.search_settled(),
        a.searched(b, keyword, key),
    ensures
        b.search_settled(),
        ends_search(key) ==> b.previous_highlight.is_none() && b.based(),
{
    assert forall|i: int| 0 <= i < a.rows().len() implies a.restored_highlight(i) == base_highlight(
        a.syntax_highlight,
        a.rows()[i].render@,
    ) by {}
    match a.search_hit(keyword, key) {
        None => {},
        Some((row, index)) => {
            assert(b.saved_row() == row);
        },
    }
}

/// In a well-formed editor, which every edit leaves behind, each row has one
/// classification per rendered character.
pub proof fn lemma_highlight_sized(o: Output)
    requires
        o.wf(),
    ensures
        forall|i: int|
            0 <= i < o.rows().len() ==> (#[trigger] o.rows()[i]).highlight@.len() == o.rows()[i].render@.len(),
{
    assert forall|i: int| 0 <= i < o.rows().len() implies (#[trigger] o.rows()[i]).highlight@.len()
        == o.rows()[i].render@.len() by {
        assert(o.rows()[i].wf());
    }
}

pub proof fn lemma_session_prefix(
    states: Seq<Output>,
    keywords: Seq<Seq<char>>,
    keys: Seq<KeyCode>,
    k: int,
)
    requires
        states.len() == keys.len() + 1,
        keywords.len() == keys.len(),
        states[0].wf(),
        states[0].based(),
        states[0].previous_highlight.is_none(),
        forall|i: int|
            0 <= i < keys.len() ==> #[trigger] states[i].searched(states[i + 1], keywords[i], keys[i]),
        0 <= k <= keys.len(),
    ensures
        states[k].wf(),
        states[k].search_settled(),
        states[k].syntax_highlight == states[0].syntax_highlight,
        states[k].dirty == states[0].dirty,
        states[k].rows().len() == states[0].rows().len(),
        forall|i: int|
            0 <= i < states[0].rows().len() ==> (#[trigger] states[k].rows()[i]).row_content
                == states[0].rows()[i].row_content && states[k].rows()[i].render
                == states[0].rows()[i].render,
    decreases k,
{
    if k == 0 {
        lemma_no_match_when_based(states[0]);
    } else {
        lemma_session_prefix(states, keywords, keys, k - 1);
        let j = k - 1;
        assert(states[j].searched(states[j + 1], keywords[j], keys[j]));
        assert(states[j + 1] == states[k]);
        lemma_searched_settled(states[k - 1], states[k], keywords[k - 1], keys[k - 1]);
    }
}

/// A whole search session: from an editor whose rows all carry their base
/// classification, with nothing saved, a run of search keystrokes that ends
/// with a key ending the search (Enter or Esc) gives every row back exactly the
/// classification it had before the session, so no row is left marked as a
/// search match; nothing stays saved, and the text is unchanged.
pub proof fn lemma_search_session(states: Seq<Output>, keywords: Seq<Seq<char>>, keys: Seq<KeyCode>)
    requires
        keys.len() >= 1,
        states.len() == keys.len() + 1,
        keywords.len() == keys.len(),
        states[0].wf(),
        states[0].based(),
        states[0].previous_highlight.is_none(),
        forall|i: int|
            0 <= i < keys.len() ==> #[trigger] states[i].searched(states[i + 1], keywords[i], keys[i]),
        ends_search(keys.last()),
    ensures
        states.last().previous_highlight.is_none(),
        states.last().dirty == states[0].dirty,
        states.last().rows().len() == states[0].rows().len(),
        forall|i: int|
            0 <= i < states[0].rows().len() ==> (#[trigger] states.last().rows()[i]).row_content
                == states[0].rows()[i].row_content && states.last().rows()[i].highlight@
                == states[0].rows()[i].highlight@,
        forall|i: int, j: int|
            0 <= i < states.last().rows().len() && 0 <= j < states.last().rows()[i].highlight@.len()
                ==> #[trigger] states.last().rows()[i].highlight@[j] != HighlightType::SearchMatch,
{
    let n = keys.len() as int;
    lemma_session_prefix(states, keywords, keys, n - 1);
    let j = n - 1;
    assert(states[j].searched(states[j + 1], keywords[j], keys[j]));
    assert(states[j + 1] == states[n]);
    assert(states.last() == states[n]);
    lemma_searched_settled(states[n - 1], states[n], keywords[n - 1], keys[n - 1]);
    let last = states[n];
    assert forall|i: int| 0 <= i < states[0].rows().len() implies (#[trigger] last.rows()[i]).row_content
        == states[0].rows()[i].row_content && last.rows()[i].highlight@
        == states[0].rows()[i].highlight@ by {
        assert(last.rows()[i].row_content == states[n - 1].rows()[i].row_content);
        assert(last.rows()[i].render == states[n - 1].rows()[i].render);
    }
    lemma_no_match_when_based(last);
}

/// The key the search runs with after a prompt key: the key itself while the
/// prompt goes on, Enter when it is done, Esc when it is cancelled.
pub open spec fn search_code(step: PromptStep, key: KeyCode) -> KeyCode {
    match step {
        PromptStep::Continue => key,
        PromptStep::Done => KeyCode::Enter,
        PromptStep::Cancelled => KeyCode::Esc,
    }
}

impl Output {
    pub open spec fn wf(&self) -> bool {
        &&& self.editor_rows.wf()
        &&& self.cursor_controller.in_document(self.editor_rows)
        &&& self.cursor_controller.screen_columns == self.win_size.0
        &&& self.cursor_controller.screen_rows == self.win_size.1
        &&& self.win_size.0 >= 1
        &&& self.win_size.1 >= 1
        &&& self.previous_highlight matches Some((p, h)) ==> p < self.editor_rows.row_contents@.len()
            && h@.len() == self.editor_rows.row_contents@[p as int].render@.len()
    }

    pub open spec fn rows(&self) -> Seq<Row> {
        self.editor_rows.row_contents@
    }

    pub open spec fn lines(&self) -> Seq<Seq<char>> {
        self.editor_rows.lines()
    }

    /// Every row carries its base classification.
    pub open spec fn based(&self) -> bool {
        rows_based(self.rows(), self.syntax_highlight)
    }

    /// The row saved by a search, or -1.
    pub open spec fn saved_row(&self) -> int {
        match self.previous_highlight {
            Some((p, _)) => p as int,
            None => -1,
        }
    }

    /// Every row carries its base classification, but for the row that shows a
    /// search match, whose saved classification is its base one.
    pub open spec fn search_settled(&self) -> bool {
        &&& forall|i: int|
            0 <= i < self.rows().len() && i != self.saved_row() ==> (#[trigger] self.rows()[i]).highlight@
                == base_highlight(self.syntax_highlight, self.rows()[i].render@)
        &&& self.previous_highlight matches Some((p, h)) ==> h@ == base_highlight(
            self.syntax_highlight,
            self.rows()[p as int].render@,
        )
    }

    /// The classification of row `i` once a search match is taken back.
    pub open spec fn restored_highlight(&self, i: int) -> Seq<HighlightType> {
        match self.previous_highlight {
            Some((p, h)) => if p == i {
                h@
            } else {
                self.rows()[i].highlight@
            },
            None => self.rows()[i].highlight@,
        }
    }

    /// Where a search for `keyword` after `key` finds a match, as (row, rendered column).
    pub open spec fn search_hit(&self, keyword: Seq<char>, key: KeyCode) -> Option<(nat, nat)> {
        let rows = self.rows();
        let n = rows.len();
        let x = self.cursor_controller.cursor_x as nat;
        let y = self.cursor_controller.cursor_y as int;
        if ends_search(key) {
            None
        } else if is_row_search_key(key) {
            if y < n {
                let text = rows[y].render@;
                let at = render_column(self.editor_rows, x, y as nat) as int;
                let found = if key == KeyCode::Left {
                    last_match(text, keyword, at)
                } else {
                    first_match(text, keyword, at)
                };
                match found {
                    Some(i) => Some((y as nat, i)),
                    None => None,
                }
            } else {
                None
            }
        } else {
            let row = if key == KeyCode::Up {
                first_row_backward(rows, keyword, 0, y)
            } else if key == KeyCode::Down {
                first_row_forward(rows, keyword, y + 1, n as int)
            } else {
                first_row_forward(rows, keyword, 0, n as int)
            };
            match row {
                Some(r) => Some((r, first_index(rows[r as int].render@, keyword))),
                None => None,
            }
        }
    }

    /// What one search keystroke does to the editor: `after` is `self` once
    /// the match shown before is taken back and, unless `key_code` ends the
    /// search, the match of `keyword` that `search_hit` finds is shown and the
    /// cursor stands on it.
    pub open spec fn searched(&self, after: Output, keyword: Seq<char>, key_code: KeyCode) -> bool {
        &&& after.wf()
        &&& after.rows().len() == self.rows().len()
        &&& forall|i: int|
                    0 <= i < self.rows().len() ==> (#[trigger] after.rows()[i]).row_content
                        == self.rows()[i].row_content && after.rows()[i].render == self.rows()[i].render
        &&& after.editor_rows.filename == self.editor_rows.filename
        &&& after.syntax_highlight == self.syntax_highlight
        &&& after.dirty == self.dirty
        &&& match self.search_hit(keyword, key_code) {
                    None => {
                        &&& after.previous_highlight.is_none()
                        &&& forall|i: int|
                            0 <= i < self.rows().len() ==> #[trigger] after.rows()[i].highlight@
                                == self.restored_highlight(i)
                        &&& after.cursor_controller == self.cursor_controller
                    },
                    Some((row, index)) => {
                        &&& after.previous_highlight matches Some((p, h)) && p == row && h@ == self.restored_highlight(row as int)
                        &&& after.rows()[row as int].highlight@ == marked(
                            self.restored_highlight(row as int),
                            index as int,
                            keyword.len() as int,
                        )
                        &&& forall|i: int|
                            0 <= i < self.rows().len() && i != row ==> #[trigger] after.rows()[i].highlight@ == self.restored_highlight(i)
                        &&& after.cursor_controller.cursor_y == row
                        &&& after.cursor_controller.cursor_x == row_content_x(
                            self.rows()[row as int].row_content@,
                            index,
                        )
                        &&& after.cursor_controller.row_offset == if is_row_search_key(key_code) {
                            self.cursor_controller.row_offset as int
                        } else {
                            self.rows().len() as int
                        }
                        &&& after.cursor_controller.column_offset
                            == self.cursor_controller.column_offset
                    },
                }
    }

    /// A fresh editor over `editor_rows` with a viewport of `win_size` (columns, rows).
    pub fn new(
        win_size: (usize, usize),
        editor_rows: EditorRows,
        syntax_highlight: Option<SyntaxHighlight>,
        status_message: StatusMessage,
    ) -> (r: Output)
        requires
            win_size.0 >= 1,
            win_size.1 >= 1,
            editor_rows.wf(),
        ensures
            r.wf(),
            r.win_size == win_size,
            r.editor_rows == editor_rows,
            r.syntax_highlight == syntax_highlight,
            r.status_message == status_message,
            r.dirty == 0,
            r.previous_highlight.is_none(),
            r.cursor_controller.cursor_x == 0,
            r.cursor_controller.cursor_y == 0,
            r.cursor_controller.row_offset == 0,
            r.cursor_controller.column_offset == 0,
            r.editor_contents.content@.len() == 0,
    {
        Output {
            win_size,
            editor_contents: EditorContents::new(),
            cursor_controller: CursorController::new(win_size),
            editor_rows,
            status_message,
            dirty: 0,
            syntax_highlight,
            previous_highlight: None,
        }
    }

    /// The highlighter chosen for files with `extension`, if any.
    pub fn select_syntax(extension: &str) -> (r: Option<SyntaxHighlight>)
        ensures
            r == (if SyntaxHighlight::Rust.handles_extension(extension@) {
                Some(SyntaxHighlight::Rust)
            } else {
                None::<SyntaxHighlight>
            }),
    {
        let list: Vec<SyntaxHighlight> = vec![SyntaxHighlight::Rust];
        let mut i: usize = 0;
        while i < list.len()
            invariant
                list@ == seq![SyntaxHighlight::Rust],
                i <= list@.len(),
                i > 0 ==> !SyntaxHighlight::Rust.handles_extension(extension@),
            decreases list@.len() - i,
        {
            if list[i].handles(extension) {
                return Some(list[i]);
            }
            i = i + 1;
        }
        None
    }

    /// The highlighter chosen for the file at `path`, by its extension.
    pub fn syntax_for_file(path: &str) -> (r: Option<SyntaxHighlight>)
        ensures
            r == match extension_of(path@) {
                Some(ext) => if SyntaxHighlight::Rust.handles_extension(ext) {
                    Some(SyntaxHighlight::Rust)
                } else {
                    None::<SyntaxHighlight>
                },
                None => None::<SyntaxHighlight>,
            },
    {
        match path_extension(path) {
            Some(ext) => Self::select_syntax(ext.as_str()),
            None => None,
        }
    }

    /// One key of a search prompt: the prompt takes the key, then the search
    /// runs for the input, as if Enter had been pressed when the prompt is done
    /// and Esc when it is cancelled. Returns where the prompt stands.
    pub fn search_key(&mut self, prompt: &mut Prompt, key: crate::keys::KeyEvent) -> (r: PromptStep)
        requires
            old(self).wf(),
        ensures
            final(self).wf(),
            (r, final(prompt).input@) == prompt_step(old(prompt).input@, key),
            old(self).searched(*final(self), final(prompt).input@, search_code(r, key.code)),
            r != PromptStep::Continue ==> final(self).previous_highlight.is_none(),
            old(self).search_settled() ==> final(self).search_settled(),
            old(self).search_settled() && r != PromptStep::Continue ==> final(self).based(),
    {
        let step = prompt.on_key(key);
        let code = match step {
            PromptStep::Continue => key.code,
            PromptStep::Done => KeyCode::Enter,
            PromptStep::Cancelled => KeyCode::Esc,
        };
        self.find_callback(&prompt.input, code);
        step
    }

    /// Ends a search: when it was cancelled, the cursor goes back to `saved`,
    /// where it stood before the search (if that still lies in the document);
    /// otherwise it stays on the match.
    pub fn end_search(&mut self, saved: CursorController, step: PromptStep)
        requires
            old(self).wf(),
        ensures
            final(self).wf(),
            final(self).editor_rows == old(self).editor_rows,
            final(self).dirty == old(self).dirty,
            final(self).previous_highlight == old(self).previous_highlight,
            final(self).syntax_highlight == old(self).syntax_highlight,
            final(self).cursor_controller == if step == PromptStep::Cancelled && saved.in_document(
                old(self).editor_rows,
            ) && saved.screen_columns == old(self).win_size.0 && saved.screen_rows == old(self).win_size.1 {
                saved
            } else {
                old(self).cursor_controller
            },
    {
        if let PromptStep::Cancelled = step {
            let n = self.editor_rows.number_of_rows();
            if saved.cursor_y <= n && saved.screen_columns == self.win_size.0 && saved.screen_rows
                == self.win_size.1 {
                let len = if saved.cursor_y < n {
                    self.editor_rows.get_editor_row(saved.cursor_y).origin_len()
                } else {
                    0
                };
                if saved.cursor_x <= len {
                    self.cursor_controller = saved;
                }
            }
        }
    }

    pub fn move_cursor(&mut self, direction: KeyCode)
        requires
            old(self).wf(),
        ensures
            final(self).wf(),
            final(self).cursor_controller.cursor_y == old(self).cursor_controller.key_target(
                direction,
                old(self).editor_rows,
            ).1,
            final(self).cursor_controller.cursor_x == crate::cursor_controller::min_nat(
                old(self).cursor_controller.key_target(direction, old(self).editor_rows).0,
                old(self).editor_rows.line_len(final(self).cursor_controller.cursor_y as int),
            ),
            final(self).editor_rows == old(self).editor_rows,
            final(self).dirty == old(self).dirty,
            final(self).previous_highlight == old(self).previous_highlight,
            final(self).syntax_highlight == old(self).syntax_highlight,
            final(self).editor_contents == old(self).editor_contents,
            final(self).status_message == old(self).status_message,
            final(self).win_size == old(self).win_size,
            direction != KeyCode::Left ==> final(self).cursor_controller.column_offset == old(self).cursor_controller.column_offset,
            final(self).cursor_controller.row_offset == old(self).cursor_controller.row_offset,
            final(self).cursor_controller.render_x == old(self).cursor_controller.render_x,
            final(self).cursor_controller.screen_rows == old(self).cursor_controller.screen_rows,
            final(self).cursor_controller.screen_columns == old(self).cursor_controller.screen_columns,
    {
        self.cursor_controller.move_cursor(direction, &self.editor_rows);
    }

    /// Inserts `ch` at the cursor, first adding an empty row when the cursor is
    /// past the end, and moves the cursor past it.
    pub fn insert_char(&mut self, ch: char)
        requires
            old(self).wf(),
            old(self).previous_highlight.is_none(),
        ensures
            final(self).wf(),
            final(self).previous_highlight.is_none(),
            old(self).based() ==> final(self).based(),
            ({
                let y = old(self).cursor_controller.cursor_y as int;
                let x = old(self).cursor_controller.cursor_x as int;
                let lines = lines_with_cursor_row(old(self).lines(), y);
                final(self).lines() == lines.update(y, lines[y].insert(x, ch))
            }),
            final(self).cursor_controller.cursor_x == old(self).cursor_controller.cursor_x + 1,
            final(self).cursor_controller.cursor_y == old(self).cursor_controller.cursor_y,
            final(self).rows()[old(self).cursor_controller.cursor_y as int].highlight@ == base_highlight(
                final(self).syntax_highlight,
                final(self).rows()[old(self).cursor_controller.cursor_y as int].render@,
            ),
            final(self).dirty > 0,
            final(self).dirty >= old(self).dirty,
            final(self).editor_rows.filename == old(self).editor_rows.filename,
            final(self).syntax_highlight == old(self).syntax_highlight,
    {
        let ghost old_lines = self.lines();
        if self.cursor_controller.cursor_y == self.editor_rows.number_of_rows() {
            let n = self.editor_rows.number_of_rows();
            self.editor_rows.insert_row(n, Vec::new());
            self.dirty = self.dirty.saturating_add(1);
            proof {
                assert(self.lines() =~= old_lines.push(Seq::empty()));
            }
        }
        let ghost mid_rows = self.rows();
        let y = self.cursor_controller.cursor_y;
        let x = self.cursor_controller.cursor_x;
        self.editor_rows.row_contents[y].insert_char(x, ch);
        if let Some(it) = self.syntax_highlight {
            proof {
                lemma_number_highlight_len(self.rows()[y as int].render@);
            }
            it.update_syntax(y, &mut self.editor_rows.row_contents);
        }
        let new_len = self.editor_rows.row_contents[y].row_content.len();
        self.cursor_controller.cursor_x = x + 1;
        self.dirty = self.dirty.saturating_add(1);
        proof {
            let lines = lines_with_cursor_row(old_lines, y as int);
            assert(lines_of_rows(mid_rows) == lines);
            assert(self.lines() =~= lines.update(y as int, lines[y as int].insert(x as int, ch)));
        }
    }

    /// Splits the row at the cursor, or opens an empty row above it when the
    /// cursor is at the start of its row, and moves the cursor to the start of
    /// the next row.
    pub fn insert_newline(&mut self)
        requires
            old(self).wf(),
            old(self).previous_highlight.is_none(),
        ensures
            final(self).wf(),
            final(self).previous_highlight.is_none(),
            old(self).based() ==> final(self).based(),
            split_at_cursor(*old(self), *final(self)),
            final(self).rows()[old(self).cursor_controller.cursor_y as int].highlight@ == base_highlight(
                final(self).syntax_highlight,
                final(self).rows()[old(self).cursor_controller.cursor_y as int].render@,
            ),
            old(self).cursor_controller.cursor_x > 0 ==> final(self).rows()[old(self).cursor_controller.cursor_y + 1].highlight@ == base_highlight(
                final(self).syntax_highlight,
                final(self).rows()[old(self).cursor_controller.cursor_y + 1].render@,
            ),
            final(self).dirty >= old(self).dirty,
            final(self).editor_rows.filename == old(self).editor_rows.filename,
            final(self).syntax_highlight == old(self).syntax_highlight,
    {
        let ghost old_lines = self.lines();
        let ghost old_rows = self.rows();
        let y = self.cursor_controller.cursor_y;
        let x = self.cursor_controller.cursor_x;
        if x == 0 {
            self.editor_rows.insert_row(y, Vec::new());
            proof {
                assert(self.lines() =~= old_lines.insert(y as int, Seq::empty()));
                if self.syntax_highlight.is_some() {
                    assert(crate::highlight::number_highlight(Seq::<char>::empty()) =~= Seq::<HighlightType>::empty());
                    assert(self.rows()[y as int].render@ =~= Seq::<char>::empty());
                }
            }
        } else {
            let n = self.editor_rows.number_of_rows();
            assert(y < n);
            let tail = split_off_tail(&self.editor_rows.row_contents[y].row_content, x);
            self.editor_rows.row_contents[y].row_content.truncate(x);
            EditorRows::render_row(&mut self.editor_rows.row_contents[y]);
            self.editor_rows.insert_row(y + 1, tail);
            if let Some(it) = self.syntax_highlight {
                proof {
                    lemma_number_highlight_len(self.rows()[y as int].render@);
                    lemma_number_highlight_len(self.rows()[y + 1].render@);
                }
                it.update_syntax(y, &mut self.editor_rows.row_contents);
                it.update_syntax(y + 1, &mut self.editor_rows.row_contents);
            }
            proof {
                let lines = old_lines;
                assert(self.lines() =~= lines.update(y as int, lines[y as int].take(x as int)).insert(
                    y + 1,
                    lines[y as int].skip(x as int),
                ));
            }
        }
        let n = self.editor_rows.number_of_rows();
        assert(y < n);
        proof {
            if rows_based(old_rows, self.syntax_highlight) {
                assert forall|i: int| 0 <= i < self.rows().len() implies (#[trigger] self.rows()[i]).highlight@
                    == base_highlight(self.syntax_highlight, self.rows()[i].render@) by {
                    if x > 0 && i > y + 1 {
                        assert(self.rows()[i] == old_rows[i - 1]);
                    } else if x == 0 && i > y {
                        assert(self.rows()[i] == old_rows[i - 1]);
                    } else if i < y {
                        assert(self.rows()[i] == old_rows[i]);
                    }
                }
            }
        }
        self.cursor_controller.cursor_x = 0;
        self.cursor_controller.cursor_y = y + 1;
        self.dirty = self.dirty.saturating_add(1);
    }

    /// Deletes the character before the cursor, or joins the cursor's row to the
    /// row above when the cursor is at the start of its row. Past the end of the
    /// document, and at its very start, nothing changes.
    pub fn delete_char(&mut self)
        requires
            old(self).wf(),
            old(self).previous_highlight.is_none(),
        ensures
            final(self).wf(),
            final(self).previous_highlight.is_none(),
            old(self).based() ==> final(self).based(),
            deleted_before_cursor(*old(self), *final(self)),
            final(self).dirty != old(self).dirty ==> final(self).rows()[final(self).cursor_controller.cursor_y as int].highlight@ == base_highlight(
                final(self).syntax_highlight,
                final(self).rows()[final(self).cursor_controller.cursor_y as int].render@,
            ),
            final(self).editor_rows.filename == old(self).editor_rows.filename,
            final(self).syntax_highlight == old(self).syntax_highlight,
    {
        let ghost old_lines = self.lines();
        let y = self.cursor_controller.cursor_y;
        let x = self.cursor_controller.cursor_x;
        if y == self.editor_rows.number_of_rows() || (x == 0 && y == 0) {
            return;
        }
        if x > 0 {
            self.editor_rows.row_contents[y].delete_char(x - 1);
            self.cursor_controller.cursor_x = x - 1;
            proof {
                assert(self.lines() =~= old_lines.update(y as int, old_lines[y as int].remove(x - 1)));
            }
        } else {
            let previous_len = self.editor_rows.get_editor_row(y - 1).origin_len();
            self.editor_rows.join_adjacent_rows(y);
            self.cursor_controller.cursor_x = previous_len;
            self.cursor_controller.cursor_y = y - 1;
            proof {
                assert(self.lines() =~= old_lines.update(y - 1, old_lines[y - 1] + old_lines[y as int]).remove(y as int));
            }
        }
        let cy = self.cursor_controller.cursor_y;
        let ghost edited = self.lines();
        if let Some(it) = self.syntax_highlight {
            proof {
                lemma_number_highlight_len(self.rows()[cy as int].render@);
            }
            it.update_syntax(cy, &mut self.editor_rows.row_contents);
        }
        self.dirty = self.dirty.saturating_add(1);
        proof {
            assert(self.lines() =~= edited);
        }
    }

    /// Where a search for `keyword` after `key_code` finds a match, as (row, rendered column).
    pub fn find_match(&self, keyword: &Vec<char>, key_code: KeyCode) -> (r: Option<(usize, usize)>)
        requires
            self.wf(),
        ensures
            match r {
                Some((row, i)) => self.search_hit(keyword@, key_code) == Some((row as nat, i as nat)),
                None => self.search_hit(keyword@, key_code).is_none(),
            },
    {
        if matches!(key_code, KeyCode::Esc | KeyCode::Enter) {
            return None;
        }
        let ghost rows = self.rows();
        let n = self.editor_rows.number_of_rows();
        let y = self.cursor_controller.cursor_y;
        if matches!(key_code, KeyCode::Left | KeyCode::Right) {
            if y < n {
                let row = self.editor_rows.get_editor_row(y);
                let at = self.cursor_controller.get_render_x(row);
                let found = if matches!(key_code, KeyCode::Left) {
                    rfind_before(&row.render, keyword, at)
                } else {
                    find_from(&row.render, keyword, at)
                };
                match found {
                    Some(i) => Some((y, i)),
                    None => None,
                }
            } else {
                None
            }
        } else if matches!(key_code, KeyCode::Up) {
            let mut i: usize = y;
            while i > 0
                invariant
                    rows == self.rows(),
                    n == rows.len(),
                    i <= y <= n,
                    y == self.cursor_controller.cursor_y,
                    key_code == KeyCode::Up,
                    first_row_backward(rows, keyword@, 0, y as int) == first_row_backward(
                        rows,
                        keyword@,
                        0,
                        i as int,
                    ),
                decreases i,
            {
                if let Some(index) = find_from(&self.editor_rows.row_contents[i - 1].render, keyword, 0) {
                    proof {
                        assert(first_row_backward(rows, keyword@, 0, i as int) == Some((i - 1) as nat));
                        assert(first_index(rows[i - 1].render@, keyword@) == index);
                    }
                    return Some((i - 1, index));
                }
                i = i - 1;
            }
            None
        } else {
            let mut i: usize = 0;
            if matches!(key_code, KeyCode::Down) {
                if y >= n {
                    return None;
                }
                i = y + 1;
            }
            let ghost lo = i;
            while i < n
                invariant
                    rows == self.rows(),
                    n == rows.len(),
                    lo <= i <= n,
                    y == self.cursor_controller.cursor_y,
                    !ends_search(key_code),
                    !is_row_search_key(key_code),
                    key_code != KeyCode::Up,
                    lo == (if key_code == KeyCode::Down {
                        y + 1
                    } else {
                        0
                    }),
                    first_row_forward(rows, keyword@, lo as int, n as int) == first_row_forward(
                        rows,
                        keyword@,
                        i as int,
                        n as int,
                    ),
                decreases n - i,
            {
                if let Some(index) = find_from(&self.editor_rows.row_contents[i].render, keyword, 0) {
                    proof {
                        assert(first_row_forward(rows, keyword@, i as int, n as int) == Some(i as nat));
                        assert(first_index(rows[i as int].render@, keyword@) == index);
                    }
                    return Some((i, index));
                }
                i = i + 1;
            }
            None
        }
    }

    /// Saves the classification of row `at` and marks `len` characters from
    /// rendered column `from` as a search match.
    fn show_match(&mut self, at: usize, from: usize, len: usize)
        requires
            old(self).wf(),
            old(self).previous_highlight.is_none(),
            at < old(self).rows().len(),
            from + len <= old(self).rows()[at as int].render@.len(),
        ensures
            final(self).wf(),
            final(self).previous_highlight matches Some((p, h)) && p == at && h@ == old(self).rows()[at as int].highlight@,
            final(self).rows().len() == old(self).rows().len(),
            forall|i: int|
                0 <= i < old(self).rows().len() && i != at ==> #[trigger] final(self).rows()[i]
                    == old(self).rows()[i],
            final(self).rows()[at as int].row_content == old(self).rows()[at as int].row_content,
            final(self).rows()[at as int].render == old(self).rows()[at as int].render,
            final(self).rows()[at as int].highlight@ == marked(
                old(self).rows()[at as int].highlight@,
                from as int,
                len as int,
            ),
            final(self).cursor_controller == old(self).cursor_controller,
            final(self).editor_rows.filename == old(self).editor_rows.filename,
            final(self).syntax_highlight == old(self).syntax_highlight,
            final(self).dirty == old(self).dirty,
            final(self).win_size == old(self).win_size,
    {
        let saved = copy_highlight(&self.editor_rows.row_contents[at].highlight);
        let mut shown = copy_highlight(&self.editor_rows.row_contents[at].highlight);
        mark_match(&mut shown, from, len);
        self.editor_rows.row_contents[at].highlight = shown;
        self.previous_highlight = Some((at, saved));
    }

    /// One keystroke of an incremental search for `keyword`: takes back the match
    /// shown before, then, unless the key ends the search, looks for the keyword
    /// (within the cursor's row after Left or Right, in the rows above after Up,
    /// in the rows below after Down, everywhere otherwise), shows the first match
    /// found and moves the cursor to it.
    pub fn find_callback(&mut self, keyword: &Vec<char>, key_code: KeyCode)
        requires
            old(self).wf(),
        ensures
            final(self).wf(),
            old(self).searched(*final(self), keyword@, key_code),
            old(self).search_settled() ==> final(self).search_settled(),
            old(self).search_settled() && ends_search(key_code) ==> final(self).previous_highlight.is_none() && final(self).based(),
    {
        let hit = self.find_match(keyword, key_code);
        let ghost before = *self;
        if let Some((row_index, highlight)) = self.previous_highlight.take() {
            self.editor_rows.row_contents[row_index].highlight = highlight;
        }
        proof {
            assert forall|i: int| 0 <= i < self.rows().len() implies (#[trigger] self.rows()[i]).highlight@
                == before.restored_highlight(i) && self.rows()[i].row_content == before.rows()[i].row_content
                && self.rows()[i].render == before.rows()[i].render by {}
            if before.search_settled() {
                assert(self.based());
            }
        }
        if let Some((row, index)) = hit {
            proof {
                let rows = before.rows();
                let y = before.cursor_controller.cursor_y as int;
                let x = before.cursor_controller.cursor_x as nat;
                match before.search_hit(keyword@, key_code) {
                    Some((r0, i0)) => {
                        assert(row as nat == r0 && index as nat == i0);
                        if is_row_search_key(key_code) {
                            let at = render_column(before.editor_rows, x, y as nat) as int;
                            lemma_first_match_found(rows[y].render@, keyword@, at);
                            lemma_last_match_found(rows[y].render@, keyword@, at - keyword@.len());
                        } else if key_code == KeyCode::Up {
                            lemma_backward_found(rows, keyword@, 0, y);
                            lemma_first_match_found(rows[row as int].render@, keyword@, 0);
                        } else if key_code == KeyCode::Down {
                            lemma_forward_found(rows, keyword@, y + 1, rows.len() as int);
                            lemma_first_match_found(rows[row as int].render@, keyword@, 0);
                        } else {
                            lemma_forward_found(rows, keyword@, 0, rows.len() as int);
                            lemma_first_match_found(rows[row as int].render@, keyword@, 0);
                        }
                    },
                    None => {
                        assert(false);
                    },
                }
            }
            self.show_match(row, index, keyword.len());
            let x = self.editor_rows.row_contents[row].get_row_content_x(index);
            proof {
                lemma_first_past_bound(self.rows()[row as int].row_content@, index as nat, 0);
            }
            self.cursor_controller.cursor_y = row;
            self.cursor_controller.cursor_x = x;
            if !matches!(key_code, KeyCode::Left | KeyCode::Right) {
                self.cursor_controller.row_offset = self.editor_rows.number_of_rows();
            }
        }
    }
}

/// A copy of a row's classification.
pub fn copy_highlight(h: &Vec<HighlightType>) -> (r: Vec<HighlightType>)
    ensures
        r@ == h@,
{
    let mut r: Vec<HighlightType> = Vec::new();
    let mut i: usize = 0;
    while i < h.len()
        invariant
            i <= h@.len(),
            r@ == h@.take(i as int),
        decreases h@.len() - i,
    {
        r.push(h[i]);
        i = i + 1;
        proof {
            assert(r@ =~= h@.take(i as int));
        }
    }
    proof {
        assert(h@.take(h@.len() as int) =~= h@);
    }
    r
}

/// The characters of `v` from index `at` on.
pub fn split_off_tail(v: &Vec<char>, at: usize) -> (r: Vec<char>)
    requires
        at <= v@.len(),
    ensures
        r@ == v@.skip(at as int),
{
    let mut r: Vec<char> = Vec::new();
    let mut i: usize = at;
    while i < v.len()
        invariant
            at <= i <= v@.len(),
            r@ == v@.subrange(at as int, i as int),
        decreases v@.len() - i,
    {
        r.push(crate::contents::char_at(v, i));
        i = i + 1;
        proof {
            assert(r@ =~= v@.subrange(at as int, i as int));
        }
    }
    proof {
        assert(v@.subrange(at as int, v@.len() as int) =~= v@.skip(at as int));
    }
    r
}

} // verus!
