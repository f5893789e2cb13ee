//! The editor of the draft: characters with a caret between them. Line breaks are
//! characters too.

use vstd::prelude::*;
use crate::text;

verus! {

/// A draft under the caret.
#[derive(Debug)]
pub struct Draft {
    chars: Vec<char>,
    caret: usize,
}

/// What a [`Draft`] holds: its text, and how many characters stand before the
/// caret.
#[verifier::ext_equal]
pub struct DraftView {
    pub text: Seq<char>,
    pub caret: int,
}

impl View for Draft {
    type V = DraftView;

    closed spec fn view(&self) -> DraftView {
        DraftView { text: self.chars@, caret: self.caret as int }
    }
}

/// Where the line of the caret position `at` begins.
pub open spec fn line_start(s: Seq<char>, at: int) -> int
    decreases at,
{
    if at <= 0 {
        0
    } else if s[at - 1] == '\n' {
        at
    } else {
        line_start(s, at - 1)
    }
}

/// Where the line of the caret position `at` ends, before its line break.
pub open spec fn line_end(s: Seq<char>, at: int) -> int
    decreases s.len() - at,
{
    if at >= s.len() || s[at] == '\n' {
        at
    } else {
        line_end(s, at + 1)
    }
}

proof fn lemma_line_start(s: Seq<char>, at: int)
    requires
        0 <= at <= s.len(),
    ensures
        0 <= line_start(s, at) <= at,
        line_start(s, at) > 0 ==> s[line_start(s, at) - 1] == '\n',
        forall|k: int| line_start(s, at) <= k < at ==> s[k] != '\n',
    decreases at,
{
    if at > 0 && s[at - 1] != '\n' {
        lemma_line_start(s, at - 1);
    }
}

proof fn lemma_line_end(s: Seq<char>, at: int)
    requires
        0 <= at <= s.len(),
    ensures
        at <= line_end(s, at) <= s.len(),
        line_end(s, at) < s.len() ==> s[line_end(s, at)] == '\n',
        forall|k: int| at <= k < line_end(s, at) ==> s[k] != '\n',
    decreases s.len() - at,
{
    if at < s.len() && s[at] != '\n' {
        lemma_line_end(s, at + 1);
    }
}

/// How many line breaks `s` holds.
pub open spec fn breaks(s: Seq<char>) -> nat
    decreases s.len(),
{
    if s.len() == 0 {
        0
    } else {
        breaks(s.drop_last()) + if s.last() == '\n' {
            1nat
        } else {
            0nat
        }
    }
}

/// The smaller of two numbers.
pub open spec fn smaller(a: int, b: int) -> int {
    if a < b {
        a
    } else {
        b
    }
}

impl DraftView {
    /// Whether the caret stands in the text.
    pub open spec fn wf(self) -> bool {
        0 <= self.caret <= self.text.len()
    }

    /// With `s` typed in at the caret.
    pub open spec fn typed(self, s: Seq<char>) -> DraftView {
        DraftView {
            text: self.text.take(self.caret) + s + self.text.skip(self.caret),
            caret: self.caret + s.len(),
        }
    }

    /// Without the characters from `from` to the caret.
    pub open spec fn cut_from(self, from: int) -> DraftView {
        DraftView { text: self.text.take(from) + self.text.skip(self.caret), caret: from }
    }

    /// With the caret at `at`.
    pub open spec fn at(self, at: int) -> DraftView {
        DraftView { caret: at, ..self }
    }

    /// The caret's column in its line.
    pub open spec fn column(self) -> int {
        self.caret - line_start(self.text, self.caret)
    }

    /// With the caret in the line above, in the same column where that line is
    /// long enough. In the first line it stays.
    pub open spec fn above(self) -> DraftView {
        let start = line_start(self.text, self.caret);
        if start == 0 {
            self
        } else {
            self.at(smaller(line_start(self.text, start - 1) + self.column(), start - 1))
        }
    }

    /// With the caret in the line below, in the same column where that line is
    /// long enough. In the last line it stays.
    pub open spec fn below(self) -> DraftView {
        let end = line_end(self.text, self.caret);
        if end == self.text.len() {
            self
        } else {
            self.at(smaller(end + 1 + self.column(), line_end(self.text, end + 1)))
        }
    }
}

fn start_of_line(chars: &Vec<char>, at: usize) -> (r: usize)
    requires
        at <= chars@.len(),
    ensures
        r as int == line_start(chars@, at as int),
        r <= at,
{
    let mut i: usize = at;
    while i > 0 && chars[i - 1] != '\n'
        invariant
            i <= at <= chars@.len(),
            line_start(chars@, i as int) == line_start(chars@, at as int),
        decreases i,
    {
        i -= 1;
    }
    i
}

fn end_of_line(chars: &Vec<char>, at: usize) -> (r: usize)
    requires
        at <= chars@.len(),
    ensures
        r as int == line_end(chars@, at as int),
        at <= r <= chars@.len(),
{
    let mut i: usize = at;
    while i < chars.len() && chars[i] != '\n'
        invariant
            at <= i <= chars@.len(),
            line_end(chars@, i as int) == line_end(chars@, at as int),
        decreases chars@.len() - i,
    {
        i += 1;
    }
    i
}

impl Draft {
    /// An empty draft.
    pub fn new() -> (r: Draft)
        ensures
            r@ == (DraftView { text: Seq::empty(), caret: 0 }),
            r@.wf(),
    {
        Draft { chars: Vec::new(), caret: 0 }
    }

    /// Types a character.
    pub fn insert(&mut self, c: char)
        requires
            old(self)@.wf(),
        ensures
            final(self)@ == old(self)@.typed(seq![c]),
            final(self)@.wf(),
    {
        let ghost before = self@;
        self.chars.insert(self.caret, c);
        let len: usize = self.chars.len();
        assert(self.caret < len);
        self.caret = self.caret + 1;
        assert(self@.text =~= before.typed(seq![c]).text);
    }

    /// Types a text.
    pub fn insert_text(&mut self, s: &str)
        requires
            old(self)@.wf(),
        ensures
            final(self)@ == old(self)@.typed(s@),
            final(self)@.wf(),
    {
        let ghost before = self@;
        let typed = text::to_chars(s);
        let mut i: usize = 0;
        assert(before.typed(s@.take(0)).text =~= before.text);
        while i < typed.len()
            invariant
                i <= typed@.len(),
                typed@ == s@,
                before.wf(),
                self@.wf(),
                self@ == before.typed(s@.take(i as int)),
            decreases typed@.len() - i,
        {
            self.insert(typed[i]);
            i += 1;
            proof {
                assert(s@.take(i as int) =~= s@.take(i - 1).push(s@[i - 1]));
                assert(self@.text =~= before.typed(s@.take(i as int)).text);
            }
        }
        assert(s@.take(i as int) =~= s@);
    }

    /// Takes the character before the caret back; whether there was one.
    pub fn backspace(&mut self) -> (r: bool)
        requires
            old(self)@.wf(),
        ensures
            r == (old(self)@.caret > 0),
            !r ==> final(self)@ == old(self)@,
            r ==> final(self)@ == old(self)@.cut_from(old(self)@.caret - 1),
            final(self)@.wf(),
    {
        if self.caret == 0 {
            return false;
        }
        let ghost before = self@;
        self.caret = self.caret - 1;
        let _ = self.chars.remove(self.caret);
        assert(self@.text =~= before.cut_from(before.caret - 1).text);
        true
    }

    /// Deletes from the caret back to the start of its line.
    pub fn delete_to_line_start(&mut self)
        requires
            old(self)@.wf(),
        ensures
            final(self)@ == old(self)@.cut_from(line_start(old(self)@.text, old(self)@.caret)),
            final(self)@.wf(),
    {
        let ghost before = self@;
        let start: usize = start_of_line(&self.chars, self.caret);
        assert(before.cut_from(before.caret).text =~= before.text);
        while self.caret > start
            invariant
                before.wf(),
                self@.wf(),
                0 <= start <= self@.caret <= before.caret,
                self@ == before.cut_from(self@.caret),
            decreases self@.caret,
        {
            let ghost here = self@;
            let _ = self.backspace();
            assert(self@.text =~= before.cut_from(here.caret - 1).text);
        }
    }

    /// Moves the caret one character back.
    pub fn left(&mut self)
        requires
            old(self)@.wf(),
        ensures
            final(self)@ == old(self)@.at(
                if old(self)@.caret > 0 {
                    old(self)@.caret - 1
                } else {
                    0
                },
            ),
            final(self)@.wf(),
    {
        self.caret = self.caret.saturating_sub(1);
    }

    /// Moves the caret one character on.
    pub fn right(&mut self)
        requires
            old(self)@.wf(),
        ensures
            final(self)@ == old(self)@.at(
                smaller(old(self)@.caret + 1, old(self)@.text.len() as int),
            ),
            final(self)@.wf(),
    {
        if self.caret < self.chars.len() {
            self.caret = self.caret + 1;
        }
    }

    /// Moves the caret to the start of its line.
    pub fn home(&mut self)
        requires
            old(self)@.wf(),
        ensures
            final(self)@ == old(self)@.at(line_start(old(self)@.text, old(self)@.caret)),
            final(self)@.wf(),
    {
        self.caret = start_of_line(&self.chars, self.caret);
    }

    /// Moves the caret to the end of its line.
    pub fn end(&mut self)
        requires
            old(self)@.wf(),
        ensures
            final(self)@ == old(self)@.at(line_end(old(self)@.text, old(self)@.caret)),
            final(self)@.wf(),
    {
        self.caret = end_of_line(&self.chars, self.caret);
    }

    /// Moves the caret one line up.
    pub fn up(&mut self)
        requires
            old(self)@.wf(),
        ensures
            final(self)@ == old(self)@.above(),
            final(self)@.wf(),
    {
        let start: usize = start_of_line(&self.chars, self.caret);
        if start > 0 {
            let first: usize = start_of_line(&self.chars, start - 1);
            let column: usize = self.caret - start;
            self.caret = if column < start - 1 - first {
                first + column
            } else {
                start - 1
            };
        }
    }

    /// Moves the caret one line down.
    pub fn down(&mut self)
        requires
            old(self)@.wf(),
        ensures
            final(self)@ == old(self)@.below(),
            final(self)@.wf(),
    {
        let start: usize = start_of_line(&self.chars, self.caret);
        let end: usize = end_of_line(&self.chars, self.caret);
        if end < self.chars.len() {
            let column: usize = self.caret - start;
            let last: usize = end_of_line(&self.chars, end + 1);
            self.caret = if column < last - (end + 1) {
                end + 1 + column
            } else {
                last
            };
        }
    }

    /// The draft's text.
    pub fn text(&self) -> (r: String)
        ensures
            r@ == self@.text,
    {
        let r = text::from_chars(&self.chars, 0, self.chars.len());
        assert(r@ =~= self@.text);
        r
    }

    /// The draft's lines.
    pub fn lines(&self) -> (r: Vec<String>)
        ensures
            text::texts(r@) == text::split(self@.text, '\n'),
            r@.len() >= 1,
    {
        let whole = self.text();
        text::split_on(whole.as_str(), '\n')
    }

    /// The caret's line and its column there, in characters.
    pub fn position(&self) -> (r: (usize, usize))
        requires
            self@.wf(),
        ensures
            r.0 == breaks(self@.text.take(self@.caret)),
            r.1 == self@.column(),
    {
        let mut row: usize = 0;
        let mut i: usize = 0;
        assert(self@.text.take(0) =~= Seq::empty());
        while i < self.caret
            invariant
                i <= self.caret <= self.chars@.len(),
                row <= i,
                row == breaks(self.chars@.take(i as int)),
            decreases self.caret - i,
        {
            if self.chars[i] == '\n' {
                row += 1;
            }
            i += 1;
            assert(self.chars@.take(i as int).drop_last() =~= self.chars@.take(i - 1));
        }
        (row, self.caret - start_of_line(&self.chars, self.caret))
    }
}

/// What was typed is taken back character by character.
pub proof fn law_backspace_undoes_typing(d: DraftView, c: char)
    requires
        d.wf(),
    ensures
        d.typed(seq![c]).cut_from(d.caret) == d,
{
    assert(d.typed(seq![c]).cut_from(d.caret).text =~= d.text);
}

/// The caret's line lies between two line breaks or ends of the text, and the
/// caret in it.
pub proof fn law_caret_in_its_line(d: DraftView)
    requires
        d.wf(),
    ensures
        ({
            let start = line_start(d.text, d.caret);
            let end = line_end(d.text, d.caret);
            &&& 0 <= start <= d.caret <= end <= d.text.len()
            &&& start > 0 ==> d.text[start - 1] == '\n'
            &&& end < d.text.len() ==> d.text[end] == '\n'
            &&& forall|k: int| start <= k < end ==> #[trigger] d.text[k] != '\n'
        }),
{
    lemma_line_start(d.text, d.caret);
    lemma_line_end(d.text, d.caret);
}

/// Typing puts the text where the caret is and the caret behind it; what stood
/// before and behind stays.
pub proof fn law_typing(d: DraftView, s: Seq<char>)
    requires
        d.wf(),
    ensures
        ({
            let after = d.typed(s);
            &&& after.wf()
            &&& after.text.len() == d.text.len() + s.len()
            &&& after.caret == d.caret + s.len()
            &&& after.text.take(d.caret) == d.text.take(d.caret)
            &&& after.text.subrange(d.caret, after.caret) == s
            &&& after.text.skip(after.caret) == d.text.skip(d.caret)
        }),
{
    let after = d.typed(s);
    assert(after.text.take(d.caret) =~= d.text.take(d.caret));
    assert(after.text.subrange(d.caret, after.caret) =~= s);
    assert(after.text.skip(after.caret) =~= d.text.skip(d.caret));
}

/// What is deleted back from the caret is gone, and nothing else.
pub proof fn law_deleting(d: DraftView, from: int)
    requires
        d.wf(),
        0 <= from <= d.caret,
    ensures
        ({
            let after = d.cut_from(from);
            &&& after.wf()
            &&& after.caret == from
            &&& after.text.len() == d.text.len() - (d.caret - from)
            &&& after.text.take(from) == d.text.take(from)
            &&& after.text.skip(from) == d.text.skip(d.caret)
        }),
{
    let after = d.cut_from(from);
    assert(after.text.take(from) =~= d.text.take(from));
    assert(after.text.skip(from) =~= d.text.skip(d.caret));
}

proof fn lemma_start_at_break(s: Seq<char>, at: int, from: int)
    requires
        0 <= from <= at <= s.len(),
        from == 0 || s[from - 1] == '\n',
        forall|k: int| from <= k < at ==> s[k] != '\n',
    ensures
        line_start(s, at) == from,
    decreases at,
{
    if from < at {
        assert(s[at - 1] != '\n');
        lemma_start_at_break(s, at - 1, from);
    }
}

/// A move up goes to the line above, one down to the line below; the caret keeps
/// its column where that line is long enough, and else stands at its end. The text
/// stays as it is.
pub proof fn law_moves_between_lines(d: DraftView)
    requires
        d.wf(),
    ensures
        d.above().text == d.text && d.below().text == d.text,
        d.above().wf() && d.below().wf(),
        ({
            let start = line_start(d.text, d.caret);
            let up = d.above();
            &&& start == 0 ==> up.caret == d.caret
            &&& start > 0 ==> line_end(d.text, up.caret) == start - 1
            &&& start > 0 ==> up.column() == d.column() || (up.caret == start - 1 && up.column()
                < d.column())
        }),
        ({
            let end = line_end(d.text, d.caret);
            let down = d.below();
            &&& end == d.text.len() ==> down.caret == d.caret
            &&& end < d.text.len() ==> line_start(d.text, down.caret) == end + 1
            &&& end < d.text.len() ==> down.column() == d.column() || (down.caret == line_end(
                d.text,
                end + 1,
            ) && down.column() < d.column())
        }),
{
    let s = d.text;
    let start = line_start(s, d.caret);
    let end = line_end(s, d.caret);
    lemma_line_start(s, d.caret);
    lemma_line_end(s, d.caret);
    if start > 0 {
        let above = line_start(s, start - 1);
        lemma_line_start(s, start - 1);
        let up = d.above();
        assert(above <= up.caret <= start - 1);
        lemma_start_at_break(s, up.caret, above);
        lemma_end_at_break(s, up.caret, start - 1);
    }
    if end < s.len() {
        let below = line_end(s, end + 1);
        lemma_line_end(s, end + 1);
        let down = d.below();
        assert(end + 1 <= down.caret <= below);
        lemma_start_at_break(s, down.caret, end + 1);
    }
}

proof fn lemma_end_at_break(s: Seq<char>, at: int, to: int)
    requires
        0 <= at <= to <= s.len(),
        to == s.len() || s[to] == '\n',
        forall|k: int| at <= k < to ==> s[k] != '\n',
    ensures
        line_end(s, at) == to,
    decreases to - at,
{
    if at < to {
        assert(s[at] != '\n');
        lemma_end_at_break(s, at + 1, to);
    }
}

/// The caret's row counts the line breaks before it.
pub proof fn law_row_counts_breaks(s: Seq<char>, c: char)
    ensures
        breaks(Seq::empty()) == 0,
        c == '\n' ==> breaks(s.push(c)) == breaks(s) + 1,
        c != '\n' ==> breaks(s.push(c)) == breaks(s),
{
    assert(s.push(c).drop_last() =~= s);
}

/// A character that is typed and taken back leaves the draft as it was.
pub proof fn law_insert_then_backspace(a: &mut Draft, b: &mut Draft, c: char, r: bool)
    requires
        old(a)@.wf(),
        call_ensures(Draft::insert, (a, c), ()),
        final(a)@ == old(b)@,
        call_ensures(Draft::backspace, (b,), r),
    ensures
        r,
        final(b)@ == old(a)@,
{
    law_backspace_undoes_typing(old(a)@, c);
}

/// Typing a text puts it at the caret; the caret then stands behind it.
pub proof fn law_inserted_text_stands_at_the_caret(d: &mut Draft, s: &str)
    requires
        old(d)@.wf(),
        call_ensures(Draft::insert_text, (d, s), ()),
    ensures
        final(d)@.text == old(d)@.text.take(old(d)@.caret) + s@ + old(d)@.text.skip(old(d)@.caret),
        final(d)@.caret == old(d)@.caret + s@.len(),
{
}

/// The keys that move the caret change no letter, and move it where they say.
pub proof fn law_caret_keys(
    home: &mut Draft,
    end: &mut Draft,
    left: &mut Draft,
    right: &mut Draft,
)
    requires
        old(home)@.wf() && old(end)@.wf() && old(left)@.wf() && old(right)@.wf(),
        call_ensures(Draft::home, (home,), ()),
        call_ensures(Draft::end, (end,), ()),
        call_ensures(Draft::left, (left,), ()),
        call_ensures(Draft::right, (right,), ()),
    ensures
        final(home)@.text == old(home)@.text && final(end)@.text == old(end)@.text,
        final(left)@.text == old(left)@.text && final(right)@.text == old(right)@.text,
        final(home)@.caret <= old(home)@.caret && (final(home)@.caret == 0
            || final(home)@.text[final(home)@.caret - 1] == '\n'),
        final(end)@.caret >= old(end)@.caret && (final(end)@.caret == final(end)@.text.len()
            || final(end)@.text[final(end)@.caret] == '\n'),
        old(left)@.caret > 0 ==> final(left)@.caret == old(left)@.caret - 1,
        old(left)@.caret == 0 ==> final(left)@.caret == 0,
        old(right)@.caret < old(right)@.text.len() ==> final(right)@.caret == old(right)@.caret + 1,
        old(right)@.caret == old(right)@.text.len() ==> final(right)@.caret == old(right)@.caret,
{
    law_caret_in_its_line(old(home)@);
    law_caret_in_its_line(old(end)@);
}

/// Deleting to the start of the line takes what stands between that and the caret,
/// and no line break.
pub proof fn law_line_is_deleted_back(d: &mut Draft)
    requires
        old(d)@.wf(),
        call_ensures(Draft::delete_to_line_start, (d,), ()),
    ensures
        ({
            let from = final(d)@.caret;
            &&& 0 <= from <= old(d)@.caret
            &&& final(d)@.text == old(d)@.text.take(from) + old(d)@.text.skip(old(d)@.caret)
            &&& forall|k: int| from <= k < old(d)@.caret ==> #[trigger] old(d)@.text[k] != '\n'
            &&& from == 0 || old(d)@.text[from - 1] == '\n'
        }),
{
    law_caret_in_its_line(old(d)@);
}

/// The lines of a draft, joined again, are its text.
pub proof fn law_draft_lines_join(d: &Draft, t: String, lines: Vec<String>)
    requires
        call_ensures(Draft::text, (d,), t),
        call_ensures(Draft::lines, (d,), lines),
    ensures
        t@ == d@.text,
        text::joined(text::texts(lines@), '\n') == d@.text,
{
    text::law_split_joins(d@.text, '\n');
}

} // verus!
