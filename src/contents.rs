use vstd::prelude::*;

verus! {

/// A foreground colour of the terminal.
#[derive(Clone, Copy, Debug, PartialEq, Eq, Structural)]
pub enum Color {
    Reset,
    Cyan,
    Blue,
}

/// One step of a frame drawn on the terminal.
#[derive(Clone, Copy, Debug, PartialEq, Eq, Structural)]
pub enum Command {
    Print(char),
    SetForegroundColor(Color),
    ResetColor,
    ClearUntilNewLine,
    ReverseVideo,
    ResetAttributes,
    HideCursor,
    ShowCursor,
    MoveTo(u16, u16),
}

/// Whether `cmd` prints exactly the character `c`.
pub open spec fn prints_char(cmd: Command, c: char) -> bool {
    match cmd {
        Command::Print(x) => x == c,
        _ => false,
    }
}

/// Whether `cmds` is one `Print` command for each character of `s`, in order.
pub open spec fn prints(cmds: Seq<Command>, s: Seq<char>) -> bool {
    &&& cmds.len() == s.len()
    &&& forall|k: int| 0 <= k < s.len() ==> prints_char(#[trigger] cmds[k], s[k])
}

/// Whether `after` is `before` followed by one `Print` command for each character of `s`.
pub open spec fn appends_text(before: Seq<Command>, after: Seq<Command>, s: Seq<char>) -> bool {
    &&& after.len() == before.len() + s.len()
    &&& after.take(before.len() as int) == before
    &&& prints(after.skip(before.len() as int), s)
}

/// Text appended in two steps is the two texts appended in one.
pub proof fn lemma_appends_concat(
    a: Seq<Command>,
    b: Seq<Command>,
    c: Seq<Command>,
    s: Seq<char>,
    t: Seq<char>,
)
    requires
        appends_text(a, b, s),
        appends_text(b, c, t),
    ensures
        appends_text(a, c, s + t),
{
    assert(c.take(a.len() as int) =~= a) by {
        assert(c.take(a.len() as int) =~= b.take(b.len() as int).take(a.len() as int));
        assert(b.take(b.len() as int) =~= b);
    }
    assert forall|k: int| 0 <= k < (s + t).len() implies prints_char(
        #[trigger] c.skip(a.len() as int)[k],
        (s + t)[k],
    ) by {
        if k < s.len() {
            assert(c[a.len() + k] == b[a.len() + k]);
            assert(b.skip(a.len() as int)[k] == b[a.len() + k]);
        } else {
            assert(c.skip(b.len() as int)[k - s.len()] == c[a.len() + k]);
        }
    }
}

/// A single printed character appended.
pub proof fn lemma_appends_char(a: Seq<Command>, c: char)
    ensures
        appends_text(a, a.push(Command::Print(c)), seq![c]),
{
    assert(a.push(Command::Print(c)).take(a.len() as int) =~= a);
    assert(a.push(Command::Print(c)).skip(a.len() as int) =~= seq![Command::Print(c)]);
}

/// The character at index `i` of `v`.
pub fn char_at(v: &Vec<char>, i: usize) -> (c: char)
    requires
        i < v@.len(),
    ensures
        c == v@[i as int],
{
    v[i]
}

/// A frame under construction: nothing reaches the terminal until it is flushed whole.
pub struct EditorContents {
    pub content: Vec<Command>,
}

impl EditorContents {
    pub fn new() -> (r: EditorContents)
        ensures
            r.content@ == Seq::<Command>::empty(),
    {
        EditorContents { content: Vec::new() }
    }

    /// Appends a printed character.
    pub fn push(&mut self, c: char)
        ensures
            final(self).content@ == old(self).content@.push(Command::Print(c)),
    {
        self.content.push(Command::Print(c));
    }

    /// Appends every character of `string`, in order.
    pub fn push_str(&mut self, string: &str)
        ensures
            appends_text(old(self).content@, final(self).content@, string@),
    {
        let n = string.unicode_len();
        self.push_str_take(string, n);
        assert(string@.take(n as int) =~= string@);
    }

    /// Appends the first `k` characters of `string`, in order.
    pub fn push_str_take(&mut self, string: &str, k: usize)
        requires
            k <= string@.len(),
        ensures
            appends_text(old(self).content@, final(self).content@, string@.take(k as int)),
    {
        let mut i: usize = 0;
        let ghost start = self.content@;
        while i < k
            invariant
                k <= string@.len(),
                i <= k,
                self.content@.len() == start.len() + i,
                forall|j: int| 0 <= j < start.len() ==> self.content@[j] == start[j],
                forall|j: int|
                    start.len() <= j < self.content@.len() ==> prints_char(self.content@[j], string@[j - start.len()]),
            decreases k - i,
        {
            let c = string.get_char(i);
            self.push(c);
            i = i + 1;
        }
        assert(self.content@.take(start.len() as int) =~= start);
    }

    /// Appends `n` spaces.
    pub fn push_spaces(&mut self, n: usize)
        ensures
            appends_text(old(self).content@, final(self).content@, crate::row::spaces(n as nat)),
    {
        let mut i: usize = 0;
        let ghost start = self.content@;
        while i < n
            invariant
                i <= n,
                self.content@.len() == start.len() + i,
                forall|j: int| 0 <= j < start.len() ==> self.content@[j] == start[j],
                forall|j: int|
                    start.len() <= j < self.content@.len() ==> prints_char(self.content@[j], ' '),
            decreases n - i,
        {
            self.push(' ');
            i = i + 1;
        }
        assert(self.content@.take(start.len() as int) =~= start);
    }

    /// Appends the characters of `chars` from index `from` up to index `to`, in order.
    pub fn push_chars(&mut self, chars: &Vec<char>, from: usize, to: usize)
        requires
            from <= to <= chars@.len(),
        ensures
            appends_text(old(self).content@, final(self).content@, chars@.subrange(from as int, to as int)),
    {
        let mut i: usize = from;
        let ghost start = self.content@;
        while i < to
            invariant
                from <= i <= to <= chars@.len(),
                self.content@.len() == start.len() + (i - from),
                forall|k: int| 0 <= k < start.len() ==> self.content@[k] == start[k],
                forall|j: int|
                    start.len() <= j < self.content@.len() ==> prints_char(self.content@[j], chars@[j - start.len() + from]),
            decreases to - i,
        {
            let c = char_at(chars, i);
            self.push(c);
            i = i + 1;
        }
        assert(self.content@.take(start.len() as int) =~= start);
    }

    /// Appends one command that is not printed text.
    pub fn queue(&mut self, command: Command)
        ensures
            final(self).content@ == old(self).content@.push(command),
    {
        self.content.push(command);
    }
}

} // verus!
