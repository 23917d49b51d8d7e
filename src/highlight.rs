use vstd::prelude::*;
use crate::contents::{Color, Command, EditorContents};
use crate::row::{HighlightType, Row};

verus! {

/// The characters with Unicode's `White_Space` property.
pub open spec fn white_space(c: char) -> bool {
    let u = c as u32;
    ||| 0x9 <= u <= 0xD
    ||| u == 0x20
    ||| u == 0x85
    ||| u == 0xA0
    ||| u == 0x1680
    ||| 0x2000 <= u <= 0x200A
    ||| u == 0x2028
    ||| u == 0x2029
    ||| u == 0x202F
    ||| u == 0x205F
    ||| u == 0x3000
}

/// Whether `c` has Unicode's `White_Space` property.
pub fn is_whitespace(c: char) -> (r: bool)
    ensures
        r == white_space(c),
{
    let u = c as u32;
    (0x9 <= u && u <= 0xD) || u == 0x20 || u == 0x85 || u == 0xA0 || u == 0x1680 || (0x2000 <= u
        && u <= 0x200A) || u == 0x2028 || u == 0x2029 || u == 0x202F || u == 0x205F || u == 0x3000
}

/// Punctuation that ends a word for the purpose of number highlighting.
pub open spec fn punctuation(c: char) -> bool {
    ||| c == ','
    ||| c == '.'
    ||| c == '('
    ||| c == ')'
    ||| c == '+'
    ||| c == '-'
    ||| c == '/'
    ||| c == '*'
    ||| c == '='
    ||| c == '~'
    ||| c == '%'
    ||| c == '<'
    ||| c == '>'
    ||| c == '"'
    ||| c == '\''
    ||| c == ';'
}

pub open spec fn separator(c: char) -> bool {
    white_space(c) || punctuation(c)
}

pub open spec fn decimal_digit(c: char) -> bool {
    '0' <= c <= '9'
}

/// Whether `c` separates words: white space or one of a fixed set of punctuation marks.
pub fn is_separator(c: char) -> (r: bool)
    ensures
        r == separator(c),
{
    is_whitespace(c) || c == ',' || c == '.' || c == '(' || c == ')' || c == '+' || c == '-'
        || c == '/' || c == '*' || c == '=' || c == '~' || c == '%' || c == '<' || c == '>'
        || c == '"' || c == '\'' || c == ';'
}

/// The classification of the character that follows `prefix`, given the
/// classification `prev` of `prefix`.
pub open spec fn next_highlight(prefix: Seq<char>, prev: Seq<HighlightType>, c: char) -> HighlightType {
    let after_separator = prefix.len() == 0 || separator(prefix.last());
    let after_number = prev.len() > 0 && prev.last() == HighlightType::Number;
    if (decimal_digit(c) || c == '.') && (after_separator || after_number) {
        HighlightType::Number
    } else {
        HighlightType::Normal
    }
}

/// Number highlighting of a rendered row: a digit or `.` is a `Number` when it
/// starts the row, follows a separator, or follows a `Number`.
pub open spec fn number_highlight(render: Seq<char>) -> Seq<HighlightType>
    decreases render.len(),
{
    if render.len() == 0 {
        Seq::empty()
    } else {
        let prefix = render.drop_last();
        let prev = number_highlight(prefix);
        prev.push(next_highlight(prefix, prev, render.last()))
    }
}

pub proof fn lemma_number_highlight_len(render: Seq<char>)
    ensures
        number_highlight(render).len() == render.len(),
    decreases render.len(),
{
    if render.len() > 0 {
        lemma_number_highlight_len(render.drop_last());
    }
}

pub proof fn lemma_number_highlight_no_match(render: Seq<char>)
    ensures
        forall|j: int|
            0 <= j < number_highlight(render).len() ==> #[trigger] number_highlight(render)[j]
                != HighlightType::SearchMatch,
    decreases render.len(),
{
    if render.len() > 0 {
        lemma_number_highlight_no_match(render.drop_last());
    }
}

/// Classifies every character of a rendered row.
pub fn number_highlight_of(render: &Vec<char>) -> (r: Vec<HighlightType>)
    ensures
        r@ == number_highlight(render@),
{
    let mut r: Vec<HighlightType> = Vec::new();
    let mut i: usize = 0;
    let mut previous_separator = true;
    let mut previous_highlight_type = HighlightType::Normal;
    proof {
        assert(render@.take(0) =~= Seq::<char>::empty());
    }
    while i < render.len()
        invariant
            i <= render@.len(),
            r@ == number_highlight(render@.take(i as int)),
            r@.len() == i,
            previous_separator == (i == 0 || separator(render@[i - 1])),
            previous_highlight_type == (if i == 0 {
                HighlightType::Normal
            } else {
                r@[i - 1]
            }),
        decreases render@.len() - i,
    {
        let c = render[i];
        let ghost prefix = render@.take(i as int);
        proof {
            assert(render@.take(i + 1).drop_last() =~= prefix);
            assert(render@.take(i + 1).last() == c);
        }
        let highlight_type = if ('0' <= c && c <= '9' || c == '.') && (previous_separator
            || previous_highlight_type == HighlightType::Number) {
            HighlightType::Number
        } else {
            HighlightType::Normal
        };
        r.push(highlight_type);
        previous_highlight_type = highlight_type;
        previous_separator = is_separator(c);
        i = i + 1;
    }
    proof {
        assert(render@.take(render@.len() as int) =~= render@);
    }
    r
}

/// The syntax highlighters this editor knows, chosen by file extension.
#[derive(Clone, Copy, Debug, PartialEq, Eq, Structural)]
pub enum SyntaxHighlight {
    Rust,
}

/// Whether two strings hold the same characters.
pub fn str_eq(a: &str, b: &str) -> (r: bool)
    ensures
        r == (a@ == b@),
{
    let n = a.unicode_len();
    if n != b.unicode_len() {
        return false;
    }
    let mut i: usize = 0;
    while i < n
        invariant
            n == a@.len() == b@.len(),
            i <= n,
            a@.take(i as int) == b@.take(i as int),
        decreases n - i,
    {
        if a.get_char(i) != b.get_char(i) {
            return false;
        }
        proof {
            assert(a@.take(i + 1) =~= a@.take(i as int).push(a@[i as int]));
            assert(b@.take(i + 1) =~= b@.take(i as int).push(b@[i as int]));
        }
        i = i + 1;
    }
    proof {
        assert(a@.take(n as int) =~= a@);
        assert(b@.take(n as int) =~= b@);
    }
    true
}

impl SyntaxHighlight {
    /// The file extensions this highlighter is chosen for.
    pub open spec fn extension_list(self) -> Seq<&'static str> {
        match self {
            SyntaxHighlight::Rust => seq!["rs", "rust"],
        }
    }

    pub open spec fn handles_extension(self, extension: Seq<char>) -> bool {
        exists|i: int| 0 <= i < self.extension_list().len() && #[trigger] self.extension_list()[i]@ == extension
    }

    pub fn extensions(&self) -> (r: Vec<&'static str>)
        ensures
            r@ == self.extension_list(),
    {
        match self {
            SyntaxHighlight::Rust => vec!["rs", "rust"],
        }
    }

    /// Whether this highlighter is chosen for files with `extension`.
    pub fn handles(&self, extension: &str) -> (r: bool)
        ensures
            r == self.handles_extension(extension@),
    {
        let list = self.extensions();
        let mut i: usize = 0;
        while i < list.len()
            invariant
                list@ == self.extension_list(),
                i <= list@.len(),
                forall|k: int| 0 <= k < i ==> #[trigger] list@[k]@ != extension@,
            decreases list@.len() - i,
        {
            if str_eq(list[i], extension) {
                return true;
            }
            i = i + 1;
        }
        false
    }

    /// The colour that shows a classification.
    pub fn syntax_color(&self, highlight_type: HighlightType) -> (r: Color)
        ensures
            r == color_for(highlight_type),
    {
        match highlight_type {
            HighlightType::Normal => Color::Reset,
            HighlightType::Number => Color::Cyan,
            HighlightType::SearchMatch => Color::Blue,
        }
    }

    /// Classifies the characters of row `at` again; the other rows are left alone.
    pub fn update_syntax(&self, at: usize, editor_rows: &mut Vec<Row>)
        requires
            at < old(editor_rows)@.len(),
        ensures
            final(editor_rows)@.len() == old(editor_rows)@.len(),
            forall|j: int|
                0 <= j < old(editor_rows)@.len() && j != at ==> #[trigger] final(editor_rows)@[j]
                    == old(editor_rows)@[j],
            final(editor_rows)@[at as int].row_content == old(editor_rows)@[at as int].row_content,
            final(editor_rows)@[at as int].render == old(editor_rows)@[at as int].render,
            final(editor_rows)@[at as int].highlight@ == number_highlight(
                old(editor_rows)@[at as int].render@,
            ),
    {
        let highlight = number_highlight_of(&editor_rows[at].render);
        editor_rows[at].highlight = highlight;
    }

    /// Draws a rendered slice with colours, changing colour only where the
    /// classification's colour changes, and resets the colour at the end.
    pub fn color_row(
        &self,
        render: &Vec<char>,
        highlight: &Vec<HighlightType>,
        from: usize,
        to: usize,
        out: &mut EditorContents,
    )
        requires
            from <= to <= render@.len(),
            render@.len() == highlight@.len(),
        ensures
            colored(
                old(out).content@,
                final(out).content@,
                render@.subrange(from as int, to as int),
                highlight@.subrange(from as int, to as int),
            ),
    {
        let ghost start = out.content@;
        let mut current_color = self.syntax_color(HighlightType::Normal);
        let mut i: usize = from;
        while i < to
            invariant
                from <= i <= to <= render@.len(),
                render@.len() == highlight@.len(),
                start.len() <= out.content@.len(),
                out.content@.take(start.len() as int) == start,
                printed_text(out.content@.skip(start.len() as int)) == render@.subrange(
                    from as int,
                    i as int,
                ),
                current_color == (if i == from {
                    Color::Reset
                } else {
                    color_for(highlight@[i - 1])
                }),
                shown_in(out.content@.skip(start.len() as int), Color::Reset) == current_color,
                out.content@.skip(start.len() as int) == color_commands(
                    render@.subrange(from as int, i as int),
                    highlight@.subrange(from as int, i as int),
                ),
            decreases to - i,
        {
            let color = self.syntax_color(highlight[i]);
            let ghost before = out.content@.skip(start.len() as int);
            if current_color != color {
                out.queue(Command::SetForegroundColor(color));
            }
            let c = crate::contents::char_at(render, i);
            out.push(c);
            proof {
                let after = out.content@.skip(start.len() as int);
                if current_color != color {
                    let mid = before.push(Command::SetForegroundColor(color));
                    assert(after =~= mid.push(Command::Print(c)));
                    lemma_commands_push(before, Command::SetForegroundColor(color), Color::Reset);
                    lemma_commands_push(mid, Command::Print(c), Color::Reset);
                } else {
                    assert(after =~= before.push(Command::Print(c)));
                    lemma_commands_push(before, Command::Print(c), Color::Reset);
                }
                assert(render@.subrange(from as int, i + 1) =~= render@.subrange(
                    from as int,
                    i as int,
                ).push(c));
                let r1 = render@.subrange(from as int, i + 1);
                let h1 = highlight@.subrange(from as int, i + 1);
                assert(r1.drop_last() =~= render@.subrange(from as int, i as int));
                assert(h1.take(i - from) =~= highlight@.subrange(from as int, i as int));
                assert(r1[i - from] == c);
                assert(h1[i - from] == highlight@[i as int]);
                if current_color != color {
                    assert(after =~= color_commands(r1, h1));
                } else {
                    assert(after =~= color_commands(r1, h1));
                }
            }
            current_color = color;
            i = i + 1;
        }
        let ghost loop_end = out.content@;
        proof {
            assert(render@.subrange(from as int, from as int) =~= Seq::<char>::empty());
        }
        out.queue(Command::ResetColor);
        proof {
            let body = out.content@.skip(start.len() as int);
            assert(out.content@.take(start.len() as int) =~= start);
            assert(body.drop_last() =~= out.content@.drop_last().skip(start.len() as int));
            assert(out.content@.drop_last() =~= loop_end);
        }
    }
}

/// The fixed palette: default colour for plain text, cyan for numbers, blue for search matches.
pub open spec fn color_for(h: HighlightType) -> Color {
    match h {
        HighlightType::Normal => Color::Reset,
        HighlightType::Number => Color::Cyan,
        HighlightType::SearchMatch => Color::Blue,
    }
}

/// The characters that `cmds` print, in order.
pub open spec fn printed_text(cmds: Seq<Command>) -> Seq<char>
    decreases cmds.len(),
{
    if cmds.len() == 0 {
        Seq::empty()
    } else {
        let prev = printed_text(cmds.drop_last());
        match cmds.last() {
            Command::Print(c) => prev.push(c),
            _ => prev,
        }
    }
}

/// The foreground colour in force after `cmds`, starting from `initial`.
pub open spec fn shown_in(cmds: Seq<Command>, initial: Color) -> Color
    decreases cmds.len(),
{
    if cmds.len() == 0 {
        initial
    } else {
        match cmds.last() {
            Command::SetForegroundColor(c) => c,
            Command::ResetColor => Color::Reset,
            _ => shown_in(cmds.drop_last(), initial),
        }
    }
}

pub proof fn lemma_commands_push(cmds: Seq<Command>, x: Command, initial: Color)
    ensures
        printed_text(cmds.push(x)) == (match x {
            Command::Print(c) => printed_text(cmds).push(c),
            _ => printed_text(cmds),
        }),
        shown_in(cmds.push(x), initial) == (match x {
            Command::SetForegroundColor(c) => c,
            Command::ResetColor => Color::Reset,
            _ => shown_in(cmds, initial),
        }),
{
    assert(cmds.push(x).drop_last() =~= cmds);
}

pub proof fn lemma_printed_concat(a: Seq<Command>, b: Seq<Command>)
    ensures
        printed_text(a + b) == printed_text(a) + printed_text(b),
    decreases b.len(),
{
    if b.len() == 0 {
        assert(a + b =~= a);
        assert(printed_text(a) + Seq::<char>::empty() =~= printed_text(a));
    } else {
        lemma_printed_concat(a, b.drop_last());
        assert((a + b).drop_last() =~= a + b.drop_last());
        assert((a + b).last() == b.last());
        match b.last() {
            Command::Print(c) => {
                assert(printed_text(a) + printed_text(b) =~= (printed_text(a) + printed_text(
                    b.drop_last(),
                )).push(c));
            },
            _ => {},
        }
    }
}

pub proof fn lemma_printed_prints(cmds: Seq<Command>, s: Seq<char>)
    requires
        crate::contents::prints(cmds, s),
    ensures
        printed_text(cmds) == s,
    decreases s.len(),
{
    if s.len() > 0 {
        let k = s.len() - 1;
        assert(crate::contents::prints_char(cmds[k], s[k]));
        assert(crate::contents::prints(cmds.drop_last(), s.drop_last()));
        lemma_printed_prints(cmds.drop_last(), s.drop_last());
        assert(s =~= s.drop_last().push(s.last()));
    } else {
        assert(cmds.len() == 0);
    }
}

/// After appending `s` as text, the printed text grows by `s`.
pub proof fn lemma_printed_appends(before: Seq<Command>, after: Seq<Command>, s: Seq<char>)
    requires
        crate::contents::appends_text(before, after, s),
    ensures
        printed_text(after) == printed_text(before) + s,
{
    assert(after =~= before + after.skip(before.len() as int));
    lemma_printed_concat(before, after.skip(before.len() as int));
    lemma_printed_prints(after.skip(before.len() as int), s);
}

/// After a coloured drawing of `render`, the printed text grows by `render`.
pub proof fn lemma_printed_colored(
    before: Seq<Command>,
    after: Seq<Command>,
    render: Seq<char>,
    highlight: Seq<HighlightType>,
)
    requires
        colored(before, after, render, highlight),
    ensures
        printed_text(after) == printed_text(before) + render,
{
    let body = after.skip(before.len() as int);
    assert(after =~= before + body);
    assert(body =~= body.drop_last().push(Command::ResetColor));
    lemma_commands_push(body.drop_last(), Command::ResetColor, Color::Reset);
    lemma_printed_concat(before, body);
}

/// The commands that draw `render` in colour: each character printed, preceded
/// by a colour switch exactly where its colour differs from the one before
/// (the default colour before the first).
pub open spec fn color_commands(render: Seq<char>, highlight: Seq<HighlightType>) -> Seq<Command>
    decreases render.len(),
{
    if render.len() == 0 || highlight.len() < render.len() {
        Seq::empty()
    } else {
        let n = render.len() - 1;
        let prev = color_commands(render.drop_last(), highlight.take(n));
        let before = if n == 0 {
            Color::Reset
        } else {
            color_for(highlight[n - 1])
        };
        let color = color_for(highlight[n]);
        let switch = if color != before {
            seq![Command::SetForegroundColor(color)]
        } else {
            Seq::empty()
        };
        prev + switch + seq![Command::Print(render[n])]
    }
}

/// Whether `after` is `before` followed by the coloured drawing of `render`:
/// its characters in order, the colour switched to each character's colour
/// only where it changes, and the colour reset at the end.
pub open spec fn colored(
    before: Seq<Command>,
    after: Seq<Command>,
    render: Seq<char>,
    highlight: Seq<HighlightType>,
) -> bool {
    let body = after.skip(before.len() as int);
    &&& before.len() < after.len()
    &&& after.take(before.len() as int) == before
    &&& after.last() == Command::ResetColor
    &&& body.drop_last() == color_commands(render, highlight)
    &&& printed_text(body.drop_last()) == render
    &&& shown_in(body.drop_last(), Color::Reset) == (if render.len() == 0 {
        Color::Reset
    } else {
        color_for(highlight.last())
    })
}

} // verus!
