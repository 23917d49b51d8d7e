use vstd::prelude::*;
use crate::editor_rows::EditorRows;

verus! {

/// Width of a tab stop: a tab advances the rendered column to the next multiple of it.
pub const TAB_STOP: usize = 8;

/// What kind of text a rendered character belongs to, for colouring.
#[derive(Clone, Copy, Debug, PartialEq, Eq, Structural)]
pub enum HighlightType {
    Normal,
    Number,
    SearchMatch,
}

/// The rendered column reached after drawing `c` from column `col`.
pub open spec fn next_column(col: nat, c: char) -> nat {
    if c == '\t' {
        col + (TAB_STOP - col % (TAB_STOP as nat)) as nat
    } else {
        col + 1
    }
}

/// The rendered width of a raw line.
pub open spec fn render_width(raw: Seq<char>) -> nat
    decreases raw.len(),
{
    if raw.len() == 0 {
        0
    } else {
        next_column(render_width(raw.drop_last()), raw.last())
    }
}

pub open spec fn spaces(n: nat) -> Seq<char> {
    Seq::new(n, |i: int| ' ')
}

/// A raw line with every tab expanded to spaces up to the next tab stop.
pub open spec fn render_of(raw: Seq<char>) -> Seq<char>
    decreases raw.len(),
{
    if raw.len() == 0 {
        Seq::empty()
    } else {
        let prev = render_of(raw.drop_last());
        if raw.last() == '\t' {
            prev + spaces((TAB_STOP - prev.len() % (TAB_STOP as nat)) as nat)
        } else {
            prev.push(raw.last())
        }
    }
}

pub open spec fn all_normal(n: nat) -> Seq<HighlightType> {
    Seq::new(n, |i: int| HighlightType::Normal)
}

/// The first raw index whose character reaches past rendered column `render_x`,
/// searching from raw index `i`; 0 when no character does.
pub open spec fn first_past(raw: Seq<char>, render_x: nat, i: nat) -> nat
    decreases raw.len() - i,
{
    if i >= raw.len() {
        0
    } else if render_width(raw.take(i as int + 1)) > render_x {
        i
    } else {
        first_past(raw, render_x, i + 1)
    }
}

/// The raw column that rendered column `render_x` falls in (0 past the end).
pub open spec fn row_content_x(raw: Seq<char>, render_x: nat) -> nat {
    first_past(raw, render_x, 0)
}

pub proof fn lemma_render_len(raw: Seq<char>)
    ensures
        render_of(raw).len() == render_width(raw),
    decreases raw.len(),
{
    if raw.len() > 0 {
        lemma_render_len(raw.drop_last());
    }
}

pub proof fn lemma_width_step(raw: Seq<char>, i: int)
    requires
        0 <= i < raw.len(),
    ensures
        render_width(raw.take(i + 1)) == next_column(render_width(raw.take(i)), raw[i]),
        render_width(raw.take(i + 1)) > render_width(raw.take(i)),
{
    assert(raw.take(i + 1).drop_last() =~= raw.take(i));
}

pub proof fn lemma_width_mono(raw: Seq<char>, i: int, j: int)
    requires
        0 <= i <= j <= raw.len(),
    ensures
        render_width(raw.take(i)) <= render_width(raw.take(j)),
        j - i <= render_width(raw.take(j)) - render_width(raw.take(i)),
    decreases j - i,
{
    if i < j {
        lemma_width_mono(raw, i, j - 1);
        lemma_width_step(raw, j - 1);
    }
}

/// Tab expansion never shortens a line, and each tab ends exactly on a tab stop.
pub proof fn lemma_tab_rendering(raw: Seq<char>)
    ensures
        render_of(raw).len() >= raw.len(),
        forall|i: int|
            0 <= i < raw.len() && raw[i] == '\t' ==> #[trigger] render_width(raw.take(i + 1))
                % (TAB_STOP as nat) == 0 && render_width(raw.take(i + 1)) > render_width(
                raw.take(i),
            ),
{
    lemma_render_len(raw);
    lemma_width_mono(raw, 0, raw.len() as int);
    assert(raw.take(raw.len() as int) =~= raw);
    assert(raw.take(0) =~= Seq::<char>::empty());
    assert forall|i: int|
        0 <= i < raw.len() && raw[i] == '\t' implies #[trigger] render_width(raw.take(i + 1))
            % (TAB_STOP as nat) == 0 && render_width(raw.take(i + 1)) > render_width(
            raw.take(i),
        ) by {
        lemma_width_step(raw, i);
    }
}

/// One line of the document.
pub struct Row {
    /// The line as written, without its line break.
    pub row_content: Vec<char>,
    /// The line with tabs expanded.
    pub render: Vec<char>,
    /// One classification per character of `render`.
    pub highlight: Vec<HighlightType>,
}

impl Row {
    pub open spec fn wf(&self) -> bool {
        &&& self.render@ == render_of(self.row_content@)
        &&& self.highlight@.len() == self.render@.len()
    }

    /// A row holding `row_content`, rendered, with every character unclassified.
    pub fn new(row_content: Vec<char>) -> (r: Row)
        ensures
            r.wf(),
            r.row_content@ == row_content@,
            r.highlight@ == all_normal(r.render@.len()),
    {
        let render = render_chars(&row_content);
        let highlight = normal_highlight(render.len());
        Row { row_content, render, highlight }
    }

    pub fn origin_len(&self) -> (r: usize)
        ensures
            r == self.row_content@.len(),
    {
        self.row_content.len()
    }

    pub fn render_len(&self) -> (r: usize)
        ensures
            r == self.render@.len(),
    {
        self.render.len()
    }

    /// Inserts `ch` before raw column `at` and renders the row again.
    pub fn insert_char(&mut self, at: usize, ch: char)
        requires
            at <= old(self).row_content@.len(),
        ensures
            final(self).wf(),
            final(self).row_content@ == old(self).row_content@.insert(at as int, ch),
            final(self).highlight@ == all_normal(final(self).render@.len()),
    {
        self.row_content.insert(at, ch);
        EditorRows::render_row(self);
    }

    /// Removes the character at raw column `at` and renders the row again.
    pub fn delete_char(&mut self, at: usize)
        requires
            at < old(self).row_content@.len(),
        ensures
            final(self).wf(),
            final(self).row_content@ == old(self).row_content@.remove(at as int),
            final(self).highlight@ == all_normal(final(self).render@.len()),
    {
        self.row_content.remove(at);
        EditorRows::render_row(self);
    }

    /// The raw column that holds rendered column `render_x`; 0 when the row ends before it.
    pub fn get_row_content_x(&self, render_x: usize) -> (r: usize)
        requires
            self.wf(),
        ensures
            r == row_content_x(self.row_content@, render_x as nat),
    {
        let ghost raw = self.row_content@;
        proof {
            lemma_render_len(raw);
            assert(raw.take(raw.len() as int) =~= raw);
            assert(raw.take(0) =~= Seq::<char>::empty());
        }
        let render_len = self.render.len();
        let mut current_render_x: usize = 0;
        let mut i: usize = 0;
        while i < self.row_content.len()
            invariant
                self.wf(),
                render_len == self.render@.len(),
                raw.take(raw.len() as int) == raw,
                raw == self.row_content@,
                i <= raw.len(),
                current_render_x == render_width(raw.take(i as int)),
                render_width(raw) == self.render@.len(),
                row_content_x(raw, render_x as nat) == first_past(raw, render_x as nat, i as nat),
            decreases raw.len() - i,
        {
            proof {
                lemma_width_step(raw, i as int);
                lemma_width_mono(raw, i as int + 1, raw.len() as int);
            }
            let ch = self.row_content[i];
            if ch == '\t' {
                current_render_x = current_render_x + (TAB_STOP - current_render_x % TAB_STOP);
            } else {
                current_render_x = current_render_x + 1;
            }
            if current_render_x > render_x {
                return i;
            }
            i = i + 1;
        }
        0
    }
}

/// A classification of `n` characters, all `Normal`.
pub fn normal_highlight(n: usize) -> (r: Vec<HighlightType>)
    ensures
        r@ == all_normal(n as nat),
{
    let mut r: Vec<HighlightType> = Vec::new();
    let mut i: usize = 0;
    while i < n
        invariant
            i <= n,
            r@ == all_normal(i as nat),
        decreases n - i,
    {
        r.push(HighlightType::Normal);
        i = i + 1;
        proof {
            assert(r@ =~= all_normal(i as nat));
        }
    }
    r
}

/// Expands the tabs of a raw line.
pub fn render_chars(raw: &Vec<char>) -> (r: Vec<char>)
    ensures
        r@ == render_of(raw@),
{
    let mut r: Vec<char> = Vec::new();
    let mut i: usize = 0;
    proof {
        assert(raw@.take(0) =~= Seq::<char>::empty());
    }
    while i < raw.len()
        invariant
            i <= raw.len(),
            r@ == render_of(raw@.take(i as int)),
        decreases raw.len() - i,
    {
        let ghost prev = r@;
        let c = raw[i];
        proof {
            assert(raw@.take(i + 1).drop_last() =~= raw@.take(i as int));
            assert(raw@.take(i + 1).last() == c);
        }
        if c == '\t' {
            r.push(' ');
            while r.len() % TAB_STOP != 0
                invariant
                    prev.len() < r@.len() <= prev.len() + (TAB_STOP - prev.len() % (
                    TAB_STOP as nat)),
                    r@ == prev + spaces((r@.len() - prev.len()) as nat),
                decreases prev.len() + TAB_STOP - r@.len(),
            {
                r.push(' ');
                proof {
                    assert(r@ =~= prev + spaces((r@.len() - prev.len()) as nat));
                }
            }
            proof {
                assert(r@ =~= prev + spaces((TAB_STOP - prev.len() % (TAB_STOP as nat)) as nat));
            }
        } else {
            r.push(c);
        }
        i = i + 1;
    }
    proof {
        assert(raw@.take(raw@.len() as int) =~= raw@);
    }
    r
}

} // verus!
