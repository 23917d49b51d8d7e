use vstd::prelude::*;
use crate::highlight::{SyntaxHighlight, number_highlight};
use crate::row::{Row, all_normal, normal_highlight, render_chars};

verus! {

/// Why a buffer could not be saved.
#[derive(Clone, Copy, Debug, PartialEq, Eq, Structural)]
pub enum SaveError {
    /// No file name is bound to the buffer yet.
    NoFileName,
}

/// The raw content of each row, in order.
pub open spec fn lines_of_rows(rows: Seq<Row>) -> Seq<Seq<char>> {
    Seq::new(rows.len(), |i: int| rows[i].row_content@)
}

/// The classification a row carries when no search match is shown.
pub open spec fn base_highlight(syntax: Option<SyntaxHighlight>, render: Seq<char>) -> Seq<
    crate::row::HighlightType,
> {
    match syntax {
        Some(_) => number_highlight(render),
        None => all_normal(render.len()),
    }
}

pub open spec fn rows_wf(rows: Seq<Row>) -> bool {
    forall|i: int| 0 <= i < rows.len() ==> (#[trigger] rows[i]).wf()
}

/// Every row carries its base classification.
pub open spec fn rows_based(rows: Seq<Row>, syntax: Option<SyntaxHighlight>) -> bool {
    forall|i: int|
        0 <= i < rows.len() ==> (#[trigger] rows[i]).highlight@ == base_highlight(
            syntax,
            rows[i].render@,
        )
}

/// A line without one trailing carriage return.
pub open spec fn strip_cr(line: Seq<char>) -> Seq<char> {
    if line.len() > 0 && line.last() == '\r' {
        line.drop_last()
    } else {
        line
    }
}

/// The lines completed, and the line begun, after reading `text`.
pub open spec fn split_state(text: Seq<char>) -> (Seq<Seq<char>>, Seq<char>)
    decreases text.len(),
{
    if text.len() == 0 {
        (Seq::empty(), Seq::empty())
    } else {
        let (done, current) = split_state(text.drop_last());
        if text.last() == '\n' {
            (done.push(strip_cr(current)), Seq::empty())
        } else {
            (done, current.push(text.last()))
        }
    }
}

/// The lines of a text: split at each `\n` (a `\r` right before it goes with the
/// line break), with no empty line after a final line break.
pub open spec fn lines_of(text: Seq<char>) -> Seq<Seq<char>> {
    let (done, current) = split_state(text);
    if current.len() == 0 {
        done
    } else {
        done.push(current)
    }
}

/// Lines joined with `\n`, with no line break after the last one.
pub open spec fn join_lines(lines: Seq<Seq<char>>) -> Seq<char>
    decreases lines.len(),
{
    if lines.len() == 0 {
        Seq::empty()
    } else if lines.len() == 1 {
        lines[0]
    } else {
        join_lines(lines.drop_last()) + seq!['\n'] + lines.last()
    }
}

pub open spec fn has_no_newline(line: Seq<char>) -> bool {
    forall|k: int| 0 <= k < line.len() ==> line[k] != '\n'
}

pub open spec fn ends_with_cr(line: Seq<char>) -> bool {
    line.len() > 0 && line.last() == '\r'
}

pub proof fn lemma_split_plain(s: Seq<char>, t: Seq<char>)
    requires
        has_no_newline(t),
    ensures
        split_state(s + t) == (split_state(s).0, split_state(s).1 + t),
    decreases t.len(),
{
    if t.len() == 0 {
        assert(s + t =~= s);
        assert(split_state(s).1 + t =~= split_state(s).1);
    } else {
        let u = t.drop_last();
        lemma_split_plain(s, u);
        assert((s + t).drop_last() =~= s + u);
        assert(split_state(s).1 + t =~= (split_state(s).1 + u).push(t.last()));
    }
}

pub proof fn lemma_split_break(s: Seq<char>)
    ensures
        split_state(s + seq!['\n']) == (split_state(s).0.push(strip_cr(split_state(s).1)), Seq::<
            char,
        >::empty()),
{
    assert((s + seq!['\n']).drop_last() =~= s);
}

pub proof fn lemma_split_joined(lines: Seq<Seq<char>>, k: int)
    requires
        1 <= k <= lines.len(),
        forall|i: int| 0 <= i < lines.len() ==> has_no_newline(#[trigger] lines[i]),
        forall|i: int| 0 <= i < lines.len() - 1 ==> !ends_with_cr(#[trigger] lines[i]),
    ensures
        split_state(join_lines(lines.take(k))) == (lines.take(k - 1), lines[k - 1]),
    decreases k,
{
    if k == 1 {
        assert(lines.take(1).len() == 1);
        assert(join_lines(lines.take(1)) == lines[0]);
        assert(split_state(Seq::<char>::empty()) == (Seq::<Seq<char>>::empty(), Seq::<char>::empty()));
        lemma_split_plain(Seq::<char>::empty(), lines[0]);
        assert(Seq::<char>::empty() + lines[0] =~= lines[0]);
        assert(Seq::<char>::empty() + lines[0] =~= lines[0]);
        assert(lines.take(0) =~= Seq::<Seq<char>>::empty());
    } else {
        lemma_split_joined(lines, k - 1);
        let prev = join_lines(lines.take(k - 1));
        assert(lines.take(k).drop_last() =~= lines.take(k - 1));
        assert(lines.take(k).last() == lines[k - 1]);
        assert(join_lines(lines.take(k)) == prev + seq!['\n'] + lines[k - 1]);
        lemma_split_break(prev);
        assert(strip_cr(lines[k - 2]) == lines[k - 2]);
        assert(lines.take(k - 2).push(lines[k - 2]) =~= lines.take(k - 1));
        lemma_split_plain(prev + seq!['\n'], lines[k - 1]);
        assert(Seq::<char>::empty() + lines[k - 1] =~= lines[k - 1]);
    }
}

/// Loading what saving wrote gives back the same lines, provided no line holds a
/// line break, no line but the last ends with a carriage return, and the last
/// line is not empty (a final empty line leaves no trace in the saved text).
pub proof fn lemma_save_load_round_trip(lines: Seq<Seq<char>>)
    requires
        forall|i: int| 0 <= i < lines.len() ==> has_no_newline(#[trigger] lines[i]),
        forall|i: int| 0 <= i < lines.len() - 1 ==> !ends_with_cr(#[trigger] lines[i]),
        lines.len() > 0 ==> lines.last().len() > 0,
    ensures
        lines_of(join_lines(lines)) == lines,
{
    if lines.len() == 0 {
        assert(split_state(Seq::<char>::empty()) == (Seq::<Seq<char>>::empty(), Seq::<char>::empty()));
        assert(lines =~= Seq::<Seq<char>>::empty());
    } else {
        let n = lines.len() as int;
        lemma_split_joined(lines, n);
        assert(lines.take(n) =~= lines);
        assert(lines.take(n - 1).push(lines[n - 1]) =~= lines);
    }
}

/// The document: its rows in order and the file it belongs to.
pub struct EditorRows {
    pub row_contents: Vec<Row>,
    pub filename: Option<String>,
}

impl EditorRows {
    pub open spec fn wf(&self) -> bool {
        rows_wf(self.row_contents@)
    }

    pub open spec fn lines(&self) -> Seq<Seq<char>> {
        lines_of_rows(self.row_contents@)
    }

    /// The raw length of row `y`, or 0 on the row past the end.
    pub open spec fn line_len(&self, y: int) -> nat {
        if 0 <= y < self.row_contents@.len() {
            self.row_contents@[y].row_content@.len()
        } else {
            0
        }
    }

    /// An empty document with no file name.
    pub fn new() -> (r: EditorRows)
        ensures
            r.wf(),
            r.row_contents@.len() == 0,
            r.filename.is_none(),
    {
        EditorRows { row_contents: Vec::new(), filename: None }
    }

    /// The document held in `text`, read from the file `file`: one row per line,
    /// each classified by `syntax_highlight` when there is one.
    pub fn from_file(file: String, text: &Vec<char>, syntax_highlight: Option<SyntaxHighlight>) -> (r:
        EditorRows)
        ensures
            r.wf(),
            rows_based(r.row_contents@, syntax_highlight),
            r.lines() == lines_of(text@),
            r.filename == Some(file),
    {
        let mut content: Vec<Row> = Vec::new();
        let mut current: Vec<char> = Vec::new();
        let mut i: usize = 0;
        proof {
            assert(text@.take(0) =~= Seq::<char>::empty());
            assert(lines_of_rows(content@) =~= Seq::<Seq<char>>::empty());
        }
        while i < text.len()
            invariant
                i <= text@.len(),
                rows_wf(content@),
                rows_based(content@, syntax_highlight),
                lines_of_rows(content@) == split_state(text@.take(i as int)).0,
                current@ == split_state(text@.take(i as int)).1,
            decreases text@.len() - i,
        {
            let c = text[i];
            proof {
                assert(text@.take(i + 1).drop_last() =~= text@.take(i as int));
                assert(text@.take(i + 1).last() == c);
            }
            if c == '\n' {
                let ghost before = current@;
                let n = current.len();
                if n > 0 && current[n - 1] == '\r' {
                    current.pop();
                }
                assert(current@ == strip_cr(before)) by {
                    if before.len() > 0 && before.last() == '\r' {
                        assert(current@ =~= before.drop_last());
                    }
                }
                let line = current;
                current = Vec::new();
                Self::push_row(&mut content, line, syntax_highlight);
            } else {
                current.push(c);
            }
            i = i + 1;
        }
        if current.len() > 0 {
            Self::push_row(&mut content, current, syntax_highlight);
        }
        proof {
            assert(text@.take(text@.len() as int) =~= text@);
        }
        EditorRows { row_contents: content, filename: Some(file) }
    }

    /// Appends a row holding `line`, classified by `syntax_highlight` when there is one.
    fn push_row(content: &mut Vec<Row>, line: Vec<char>, syntax_highlight: Option<SyntaxHighlight>)
        requires
            rows_wf(old(content)@),
            rows_based(old(content)@, syntax_highlight),
        ensures
            rows_wf(final(content)@),
            rows_based(final(content)@, syntax_highlight),
            lines_of_rows(final(content)@) == lines_of_rows(old(content)@).push(line@),
    {
        let row = Row::new(line);
        content.push(row);
        if let Some(s) = syntax_highlight {
            proof {
                crate::highlight::lemma_number_highlight_len(content@.last().render@);
            }
            s.update_syntax(content.len() - 1, content);
        }
        proof {
            assert(lines_of_rows(final(content)@) =~= lines_of_rows(old(content)@).push(line@));
        }
    }

    /// The rendered text of row `at`.
    pub fn get_render(&self, at: usize) -> (r: &Vec<char>)
        requires
            at < self.row_contents@.len(),
        ensures
            *r == self.row_contents@[at as int].render,
    {
        &self.row_contents[at].render
    }

    /// Renders `row` again from its raw content, leaving every character unclassified.
    pub fn render_row(row: &mut Row)
        ensures
            final(row).wf(),
            final(row).row_content@ == old(row).row_content@,
            final(row).highlight@ == all_normal(final(row).render@.len()),
    {
        row.render = render_chars(&row.row_content);
        row.highlight = normal_highlight(row.render.len());
    }

    pub fn number_of_rows(&self) -> (r: usize)
        ensures
            r == self.row_contents@.len(),
    {
        self.row_contents.len()
    }

    pub fn get_editor_row(&self, at: usize) -> (r: &Row)
        requires
            at < self.row_contents@.len(),
        ensures
            *r == self.row_contents@[at as int],
    {
        &self.row_contents[at]
    }

    /// Inserts a row holding `contents` at index `at`; later rows move down by one.
    pub fn insert_row(&mut self, at: usize, contents: Vec<char>)
        requires
            at <= old(self).row_contents@.len(),
        ensures
            final(self).filename == old(self).filename,
            final(self).row_contents@.len() == old(self).row_contents@.len() + 1,
            forall|j: int| 0 <= j < at ==> #[trigger] final(self).row_contents@[j] == old(self).row_contents@[j],
            forall|j: int|
                at < j < final(self).row_contents@.len() ==> #[trigger] final(self).row_contents@[j]
                    == old(self).row_contents@[j - 1],
            final(self).row_contents@[at as int].wf(),
            final(self).row_contents@[at as int].row_content@ == contents@,
            final(self).row_contents@[at as int].highlight@ == all_normal(
                final(self).row_contents@[at as int].render@.len(),
            ),
    {
        let new_row = Row::new(contents);
        self.row_contents.insert(at, new_row);
    }

    /// What saving writes: the rows' raw content joined with `\n`, with no final
    /// line break; an error when no file name is bound.
    pub fn save(&self) -> (r: Result<Vec<char>, SaveError>)
        ensures
            self.filename.is_none() <==> r == Err::<Vec<char>, SaveError>(SaveError::NoFileName),
            r matches Ok(text) ==> text@ == join_lines(self.lines()),
    {
        match &self.filename {
            None => Err(SaveError::NoFileName),
            Some(_) => Ok(self.contents()),
        }
    }

    /// The rows' raw content joined with `\n`, with no final line break.
    pub fn contents(&self) -> (r: Vec<char>)
        ensures
            r@ == join_lines(self.lines()),
    {
        let ghost lines = self.lines();
        let mut out: Vec<char> = Vec::new();
        let mut i: usize = 0;
        proof {
            assert(lines.take(0) =~= Seq::<Seq<char>>::empty());
        }
        while i < self.row_contents.len()
            invariant
                lines == self.lines(),
                i <= lines.len(),
                lines.len() == self.row_contents@.len(),
                out@ == join_lines(lines.take(i as int)),
            decreases lines.len() - i,
        {
            proof {
                assert(lines.take(i + 1).drop_last() =~= lines.take(i as int));
                assert(lines.take(i + 1).last() == lines[i as int]);
            }
            if i > 0 {
                out.push('\n');
            }
            let line = &self.row_contents[i].row_content;
            let ghost mid = out@;
            let mut k: usize = 0;
            while k < line.len()
                invariant
                    k <= line@.len(),
                    out@ == mid + line@.take(k as int),
                decreases line@.len() - k,
            {
                out.push(crate::contents::char_at(line, k));
                k = k + 1;
                proof {
                    assert(out@ =~= mid + line@.take(k as int));
                }
            }
            proof {
                assert(line@.take(line@.len() as int) =~= line@);
                if i == 0 {
                    assert(out@ =~= lines.take(1)[0]);
                } else {
                    assert(out@ =~= join_lines(lines.take(i as int)) + seq!['\n'] + lines[i as int]);
                }
            }
            i = i + 1;
        }
        proof {
            assert(lines.take(lines.len() as int) =~= lines);
        }
        out
    }

    /// Appends row `at` to the row before it and removes it; later rows move up by one.
    pub fn join_adjacent_rows(&mut self, at: usize)
        requires
            1 <= at < old(self).row_contents@.len(),
        ensures
            final(self).filename == old(self).filename,
            final(self).row_contents@.len() == old(self).row_contents@.len() - 1,
            forall|j: int| 0 <= j < at - 1 ==> #[trigger] final(self).row_contents@[j] == old(self).row_contents@[j],
            forall|j: int|
                at <= j < final(self).row_contents@.len() ==> #[trigger] final(self).row_contents@[j]
                    == old(self).row_contents@[j + 1],
            final(self).row_contents@[at - 1].wf(),
            final(self).row_contents@[at - 1].row_content@ == old(self).row_contents@[at
                - 1].row_content@ + old(self).row_contents@[at as int].row_content@,
            final(self).row_contents@[at - 1].highlight@ == all_normal(
                final(self).row_contents@[at - 1].render@.len(),
            ),
    {
        let mut current_row = self.row_contents.remove(at);
        let mut previous_row = self.row_contents.remove(at - 1);
        previous_row.row_content.append(&mut current_row.row_content);
        Self::render_row(&mut previous_row);
        self.row_contents.insert(at - 1, previous_row);
    }
}

} // verus!
