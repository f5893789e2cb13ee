//! Parser for the backend's textual `/model` listing.
//!
//! ```text
//! 1. Qwen3.8 Max (Alibaba)
//! 2. Qwen3.5 Plus (Alibaba)
//! ```
//!
//! The active row carries a green marker before its name and a stray
//! variation selector behind it. Names may hold slashes, dots and parentheses,
//! so the provider is the last parenthesised group of a row. Lines that are no
//! rows are skipped.

use vstd::prelude::*;
use crate::text;

verus! {

/// One parsed row of the `/model` listing.
#[derive(Debug, PartialEq, Eq)]
pub struct ModelEntry {
    /// The row's own listing number, sent back as `/model <number>`.
    pub number: usize,
    /// Display name with the active-marker noise removed.
    pub name: String,
    /// Text of the trailing `(provider)` group, when present.
    pub provider: Option<String>,
    /// Whether the backend flagged this row as the active model.
    pub active: bool,
}

/// What a [`ModelEntry`] holds.
#[verifier::ext_equal]
pub struct ModelEntryView {
    pub number: nat,
    pub name: Seq<char>,
    pub provider: Option<Seq<char>>,
    pub active: bool,
}

impl View for ModelEntry {
    type V = ModelEntryView;

    open spec fn view(&self) -> ModelEntryView {
        ModelEntryView {
            number: self.number as nat,
            name: self.name@,
            provider: match self.provider {
                Some(p) => Some(p@),
                None => None,
            },
            active: self.active,
        }
    }
}

/// Marker that the backend puts before the active model's name.
pub const ACTIVE_MARKER: char = '\u{1F7E2}';

/// Stray variation selector that the backend puts behind a marked name.
pub const VARIATION_SELECTOR: char = '\u{FE0F}';

pub open spec fn is_digit(c: char) -> bool {
    '0' <= c && c <= '9'
}

/// How many digits `s` begins with.
pub open spec fn leading_digits(s: Seq<char>) -> nat
    decreases s.len(),
{
    if s.len() > 0 && is_digit(s[0]) {
        1 + leading_digits(s.drop_first())
    } else {
        0
    }
}

/// The number that a run of digits denotes.
pub open spec fn digits_value(s: Seq<char>) -> nat
    decreases s.len(),
{
    if s.len() == 0 {
        0
    } else {
        10 * digits_value(s.drop_last()) + (s.last() as nat - '0' as nat) as nat
    }
}

/// The last index of `c` in `s`, if any.
pub open spec fn last_index(s: Seq<char>, c: char) -> Option<int>
    decreases s.len(),
{
    if s.len() == 0 {
        None
    } else if s.last() == c {
        Some(s.len() - 1)
    } else {
        last_index(s.drop_last(), c)
    }
}

/// `name (provider)` split at the last `(`, where the group closes the text and
/// something stands before it.
pub open spec fn trailing_group(s: Seq<char>) -> Option<(Seq<char>, Seq<char>)> {
    if s.len() > 0 && s.last() == ')' {
        match last_index(s, '(') {
            Some(open) if open > 0 => Some(
                (s.take(open), s.subrange(open + 1, s.len() - 1)),
            ),
            _ => None,
        }
    } else {
        None
    }
}

/// `s` without the variation selectors behind it.
pub open spec fn trim_selectors(s: Seq<char>) -> Seq<char>
    decreases s.len(),
{
    if s.len() > 0 && s.last() == VARIATION_SELECTOR {
        trim_selectors(s.drop_last())
    } else {
        s
    }
}

/// A name without the noise behind it.
pub open spec fn clean_name(s: Seq<char>) -> Seq<char> {
    text::trim_end(trim_selectors(text::trim_end(s)))
}

/// The entry of a row whose number is read and whose name and provider are
/// `rest`.
pub open spec fn named_entry(number: nat, rest: Seq<char>, active: bool) -> Option<ModelEntryView> {
    let (raw, provider) = match trailing_group(rest) {
        Some((name, p)) if p.len() > 0 => (name, Some(p)),
        _ => (rest, None),
    };
    let name = clean_name(raw);
    if rest.len() == 0 || name.len() == 0 {
        None
    } else {
        Some(ModelEntryView { number, name, provider, active })
    }
}

/// The entry of one line of the listing, `None` where the line is no row.
pub open spec fn row_entry(raw: Seq<char>) -> Option<ModelEntryView> {
    let line = text::trim(raw);
    let n = leading_digits(line);
    let number = digits_value(line.take(n as int));
    let tail = text::trim_start(line.skip(n as int));
    if n == 0 || number > usize::MAX {
        None
    } else if tail.len() == 0 || (tail[0] != '.' && tail[0] != ')') {
        None
    } else {
        let rest = text::trim_start(tail.drop_first());
        if rest.len() > 0 && rest[0] == ACTIVE_MARKER {
            named_entry(number, text::trim_start(rest.drop_first()), true)
        } else {
            named_entry(number, rest, false)
        }
    }
}

/// The entries of a list of lines.
pub open spec fn listing_entries(lines: Seq<Seq<char>>) -> Seq<ModelEntryView>
    decreases lines.len(),
{
    if lines.len() == 0 {
        Seq::empty()
    } else {
        match row_entry(lines.last()) {
            Some(e) => listing_entries(lines.drop_last()).push(e),
            None => listing_entries(lines.drop_last()),
        }
    }
}

/// What a list of entries holds.
pub open spec fn entry_views(v: Seq<ModelEntry>) -> Seq<ModelEntryView> {
    Seq::new(v.len(), |i: int| v[i]@)
}

/// The row number of a run of digits, `None` where no machine integer holds it.
fn parse_number(chars: &Vec<char>, from: usize, to: usize) -> (r: Option<usize>)
    requires
        from <= to <= chars@.len(),
        forall|i: int| from <= i < to ==> is_digit(#[trigger] chars@[i]),
    ensures
        match r {
            Some(n) => n as nat == digits_value(chars@.subrange(from as int, to as int)),
            None => digits_value(chars@.subrange(from as int, to as int)) > usize::MAX,
        },
{
    let mut n: usize = 0;
    let mut i: usize = from;
    let ghost whole = chars@.subrange(from as int, to as int);
    while i < to
        invariant
            from <= i <= to <= chars@.len(),
            whole == chars@.subrange(from as int, to as int),
            n as nat == digits_value(chars@.subrange(from as int, i as int)),
            forall|k: int| from <= k < to ==> is_digit(#[trigger] chars@[k]),
        decreases to - i,
    {
        let d: usize = (chars[i] as u32 - '0' as u32) as usize;
        proof {
            assert(chars@.subrange(from as int, i + 1).drop_last() =~= chars@.subrange(
                from as int,
                i as int,
            ));
            assert(digits_value(chars@.subrange(from as int, i + 1)) == 10 * n + d);
            lemma_digits_grow(whole, (i + 1 - from) as int);
            assert(whole.take(i + 1 - from) =~= chars@.subrange(from as int, i + 1));
        }
        match n.checked_mul(10) {
            Some(tens) => match tens.checked_add(d) {
                Some(next) => {
                    n = next;
                },
                None => {
                    return None;
                },
            },
            None => {
                return None;
            },
        }
        i += 1;
    }
    Some(n)
}

proof fn lemma_digits_grow(s: Seq<char>, k: int)
    requires
        0 <= k <= s.len(),
    ensures
        digits_value(s.take(k)) <= digits_value(s),
    decreases s.len() - k,
{
    if k < s.len() {
        lemma_digits_grow(s, k + 1);
        assert(s.take(k + 1).drop_last() =~= s.take(k));
    } else {
        assert(s.take(k) =~= s);
    }
}

proof fn lemma_leading_digits(s: Seq<char>, i: int)
    requires
        0 <= i <= s.len(),
        forall|k: int| 0 <= k < i ==> is_digit(#[trigger] s[k]),
        i < s.len() ==> !is_digit(s[i]),
    ensures
        leading_digits(s) == i,
    decreases i,
{
    if i > 0 {
        assert forall|k: int| 0 <= k < i - 1 implies is_digit(#[trigger] s.drop_first()[k]) by {
            assert(s.drop_first()[k] == s[k + 1]);
        }
        lemma_leading_digits(s.drop_first(), i - 1);
    }
}

/// First index of `chars[from..to]` that holds no white space.
fn skip_white(chars: &Vec<char>, from: usize, to: usize) -> (r: usize)
    requires
        from <= to <= chars@.len(),
    ensures
        from <= r <= to,
        chars@.subrange(r as int, to as int) == text::trim_start(
            chars@.subrange(from as int, to as int),
        ),
{
    let mut a: usize = from;
    let ghost whole = chars@.subrange(from as int, to as int);
    while a < to && chars[a].is_whitespace()
        invariant
            from <= a <= to <= chars@.len(),
            text::trim_start(chars@.subrange(a as int, to as int)) == text::trim_start(whole),
        decreases to - a,
    {
        assert(chars@.subrange(a as int, to as int).drop_first() =~= chars@.subrange(
            a + 1,
            to as int,
        ));
        a += 1;
    }
    a
}

/// End of `chars[from..to]` without the white space behind it.
fn drop_white(chars: &Vec<char>, from: usize, to: usize) -> (r: usize)
    requires
        from <= to <= chars@.len(),
    ensures
        from <= r <= to,
        chars@.subrange(from as int, r as int) == text::trim_end(
            chars@.subrange(from as int, to as int),
        ),
{
    let mut b: usize = to;
    let ghost whole = chars@.subrange(from as int, to as int);
    while from < b && chars[b - 1].is_whitespace()
        invariant
            from <= b <= to <= chars@.len(),
            text::trim_end(chars@.subrange(from as int, b as int)) == text::trim_end(whole),
        decreases b - from,
    {
        assert(chars@.subrange(from as int, b as int).drop_last() =~= chars@.subrange(
            from as int,
            b - 1,
        ));
        b -= 1;
    }
    b
}

/// End of `chars[from..to]` without the variation selectors behind it.
fn drop_selectors(chars: &Vec<char>, from: usize, to: usize) -> (r: usize)
    requires
        from <= to <= chars@.len(),
    ensures
        from <= r <= to,
        chars@.subrange(from as int, r as int) == trim_selectors(
            chars@.subrange(from as int, to as int),
        ),
{
    let mut b: usize = to;
    let ghost whole = chars@.subrange(from as int, to as int);
    while from < b && chars[b - 1] == VARIATION_SELECTOR
        invariant
            from <= b <= to <= chars@.len(),
            trim_selectors(chars@.subrange(from as int, b as int)) == trim_selectors(whole),
        decreases b - from,
    {
        assert(chars@.subrange(from as int, b as int).drop_last() =~= chars@.subrange(
            from as int,
            b - 1,
        ));
        b -= 1;
    }
    b
}

/// Splits `name (provider)` in `chars[from..to]` at the last `(` whose group
/// closes the text; gives the index of that `(`.
fn group_start(chars: &Vec<char>, from: usize, to: usize) -> (r: Option<usize>)
    requires
        from <= to <= chars@.len(),
    ensures
        match r {
            Some(open) => from < open < to - 1 && trailing_group(
                chars@.subrange(from as int, to as int),
            ) == Some(
                (
                    chars@.subrange(from as int, open as int),
                    chars@.subrange(open + 1, to - 1),
                ),
            ),
            None => trailing_group(chars@.subrange(from as int, to as int)) is None,
        },
{
    let ghost whole = chars@.subrange(from as int, to as int);
    if from == to || chars[to - 1] != ')' {
        return None;
    }
    let mut b: usize = to;
    assert(whole.take(b - from) =~= whole);
    while from < b
        invariant
            from <= b <= to <= chars@.len(),
            from < to,
            whole == chars@.subrange(from as int, to as int),
            whole.last() == ')',
            last_index(whole.take(b - from), '(') == last_index(whole, '('),
        decreases b - from,
    {
        assert(whole.take(b - from).drop_last() =~= whole.take(b - from - 1));
        assert(whole.take(b - from).last() == chars@[b - 1]);
        if chars[b - 1] == '(' {
            if b - 1 == from {
                return None;
            }
            proof {
                let open = b - 1;
                assert(whole.take(open - from) =~= chars@.subrange(from as int, open));
                assert(whole.subrange(open - from + 1, whole.len() - 1) =~= chars@.subrange(
                    open + 1,
                    to - 1,
                ));
            }
            return Some(b - 1);
        }
        b -= 1;
    }
    None
}

/// Splits `name (provider)` at the last `(` whose group closes the text.
pub fn split_trailing_group(rest: &str) -> (r: Option<(String, String)>)
    ensures
        match r {
            Some((name, provider)) => trailing_group(rest@) == Some((name@, provider@)),
            None => trailing_group(rest@) is None,
        },
{
    let chars = text::to_chars(rest);
    assert(chars@.subrange(0, chars@.len() as int) =~= rest@);
    match group_start(&chars, 0, chars.len()) {
        Some(open) => Some(
            (
                text::from_chars(&chars, 0, open),
                text::from_chars(&chars, open + 1, chars.len() - 1),
            ),
        ),
        None => None,
    }
}

fn entry_from(chars: &Vec<char>, number: usize, from: usize, to: usize, active: bool) -> (r: Option<
    ModelEntry,
>)
    requires
        from <= to <= chars@.len(),
    ensures
        match r {
            Some(e) => named_entry(
                number as nat,
                chars@.subrange(from as int, to as int),
                active,
            ) == Some(e@),
            None => named_entry(
                number as nat,
                chars@.subrange(from as int, to as int),
                active,
            ) is None,
        },
{
    if from == to {
        return None;
    }
    let mut end: usize = to;
    let mut provider: Option<String> = None;
    if let Some(open) = group_start(chars, from, to) {
        if open + 1 < to - 1 {
            provider = Some(text::from_chars(chars, open + 1, to - 1));
            end = open;
        }
    }
    let cut = drop_white(chars, from, end);
    let cut = drop_selectors(chars, from, cut);
    let cut = drop_white(chars, from, cut);
    if cut == from {
        return None;
    }
    Some(ModelEntry { number, name: text::from_chars(chars, from, cut), provider, active })
}

#[verifier::spinoff_prover]
#[verifier::rlimit(50)]
fn parse_row(raw: &str) -> (r: Option<ModelEntry>)
    ensures
        match r {
            Some(e) => row_entry(raw@) == Some(e@),
            None => row_entry(raw@) is None,
        },
{
    let chars = text::to_chars(raw);
    assert(chars@.subrange(0, chars@.len() as int) =~= raw@);
    let (a, b) = text::trim_bounds(&chars, 0, chars.len());
    let ghost line = text::trim(raw@);
    assert(line == chars@.subrange(a as int, b as int));
    let mut d: usize = a;
    while d < b && '0' <= chars[d] && chars[d] <= '9'
        invariant
            a <= d <= b <= chars@.len(),
            forall|k: int| a <= k < d ==> is_digit(#[trigger] chars@[k]),
        decreases b - d,
    {
        d += 1;
    }
    proof {
        assert forall|k: int| 0 <= k < d - a implies is_digit(#[trigger] line[k]) by {
            assert(line[k] == chars@[a + k]);
        }
        lemma_leading_digits(line, d - a);
        assert(line.take(d - a) =~= chars@.subrange(a as int, d as int));
        assert(line.skip(d - a) =~= chars@.subrange(d as int, b as int));
    }
    if d == a {
        return None;
    }
    let number = match parse_number(&chars, a, d) {
        Some(n) => n,
        None => {
            return None;
        },
    };
    let t = skip_white(&chars, d, b);
    if t == b || (chars[t] != '.' && chars[t] != ')') {
        return None;
    }
    assert(chars@.subrange(t as int, b as int).drop_first() =~= chars@.subrange(
        t + 1,
        b as int,
    ));
    let rest = skip_white(&chars, t + 1, b);
    if rest < b && chars[rest] == ACTIVE_MARKER {
        assert(chars@.subrange(rest as int, b as int).drop_first() =~= chars@.subrange(
            rest + 1,
            b as int,
        ));
        let name = skip_white(&chars, rest + 1, b);
        entry_from(&chars, number, name, b, true)
    } else {
        entry_from(&chars, number, rest, b, false)
    }
}

/// Parses a bare `/model` result into model rows, in listing order. Lines that
/// are no rows are skipped.
pub fn parse_model_listing(content: &str) -> (r: Vec<ModelEntry>)
    ensures
        entry_views(r@) == listing_entries(text::lines(content@)),
{
    let lines = text::lines_of(content);
    let ghost views = text::lines(content@);
    let mut entries: Vec<ModelEntry> = Vec::new();
    let mut i: usize = 0;
    proof {
        assert(views.take(0) =~= Seq::empty());
        assert(entry_views(entries@) =~= Seq::empty());
        assert(views.len() == lines@.len());
    }
    while i < lines.len()
        invariant
            i <= lines@.len(),
            views == text::texts(lines@),
            entry_views(entries@) == listing_entries(views.take(i as int)),
        decreases lines@.len() - i,
    {
        assert(views.take(i + 1).drop_last() =~= views.take(i as int));
        assert(views.take(i + 1).last() == lines@[i as int]@);
        let ghost before = entries@;
        match parse_row(lines[i].as_str()) {
            Some(e) => {
                entries.push(e);
                assert(entry_views(entries@) =~= entry_views(before).push(e@));
            },
            None => {},
        }
        i += 1;
    }
    assert(views.take(i as int) =~= views);
    entries
}

/// Whether `s` begins with `prefix`.
pub open spec fn starts_with(s: Seq<char>, prefix: Seq<char>) -> bool {
    prefix.len() <= s.len() && s.take(prefix.len() as int) == prefix
}

/// What a selection confirmation tells: the text behind its prefix.
pub open spec fn confirmed_label(content: Seq<char>) -> Option<Seq<char>> {
    let body = text::trim(content);
    let prefix = "Selected model: "@;
    if starts_with(body, prefix) && text::trim(body.skip(prefix.len() as int)).len() > 0 {
        Some(text::trim(body.skip(prefix.len() as int)))
    } else {
        None
    }
}

/// Parses a `/model <n>` confirmation into the label that the toast shows;
/// `None` where the body is no confirmation.
pub fn parse_selection_confirmation(content: &str) -> (r: Option<String>)
    ensures
        match r {
            Some(s) => confirmed_label(content@) == Some(s@),
            None => confirmed_label(content@) is None,
        },
{
    let body = text::trimmed(content);
    let chars = text::to_chars(body.as_str());
    let prefix = text::to_chars("Selected model: ");
    let n = prefix.len();
    if chars.len() < n {
        return None;
    }
    let mut i: usize = 0;
    while i < n
        invariant
            i <= n,
            n == prefix@.len(),
            n <= chars@.len(),
            chars@ == text::trim(content@),
            prefix@ == "Selected model: "@,
            chars@.take(i as int) == prefix@.take(i as int),
        decreases n - i,
    {
        if chars[i] != prefix[i] {
            assert(chars@.take(n as int)[i as int] != prefix@[i as int]);
            return None;
        }
        i += 1;
        assert(chars@.take(i as int) =~= prefix@.take(i as int));
    }
    assert(prefix@.take(n as int) =~= prefix@);
    let (a, b) = text::trim_bounds(&chars, n, chars.len());
    assert(chars@.subrange(n as int, chars@.len() as int) =~= chars@.skip(n as int));
    if a == b {
        return None;
    }
    Some(text::from_chars(&chars, a, b))
}

/// An entry as a listing row.
pub open spec fn row_label(e: ModelEntryView) -> Seq<char> {
    match e.provider {
        Some(p) => text::decimal(e.number) + ". "@ + e.name + " ("@ + p + ")"@,
        None => text::decimal(e.number) + ". "@ + e.name,
    }
}

/// Renders one entry back into its listing row (`N. name (provider)`).
pub fn listing_row_label(entry: &ModelEntry) -> (r: String)
    ensures
        r@ == row_label(entry@),
{
    let mut out = text::decimal_usize(entry.number);
    out.append(". ");
    out.append(entry.name.as_str());
    match &entry.provider {
        Some(p) => {
            out.append(" (");
            out.append(p.as_str());
            out.append(")");
        },
        None => {},
    }
    out
}

proof fn lemma_decimal(n: nat)
    ensures
        text::decimal(n).len() >= 1,
        forall|i: int| 0 <= i < text::decimal(n).len() ==> is_digit(#[trigger] text::decimal(n)[i]),
        digits_value(text::decimal(n)) == n,
    decreases n,
{
    let d = text::decimal(n);
    assert(text::digit(n % 10) as nat == '0' as nat + n % 10);
    if n < 10 {
        assert(d.drop_last() =~= Seq::empty());
        assert(digits_value(d.drop_last()) == 0);
    } else {
        lemma_decimal(n / 10);
        assert(d.drop_last() =~= text::decimal(n / 10));
    }
}

proof fn lemma_last_index(s: Seq<char>, c: char, k: int)
    requires
        0 <= k < s.len(),
        s[k] == c,
        forall|i: int| k < i < s.len() ==> #[trigger] s[i] != c,
    ensures
        last_index(s, c) == Some(k),
    decreases s.len(),
{
    if k < s.len() - 1 {
        assert(s.last() == s[s.len() - 1]);
        lemma_last_index(s.drop_last(), c, k);
    }
}

/// Whether an entry's row says all of it: its name carries no noise, its
/// provider holds no `(`, and it is not marked as active (a row label has no
/// marker).
pub open spec fn plain_entry(e: ModelEntryView) -> bool {
    &&& !e.active
    &&& e.number <= usize::MAX
    &&& e.name.len() > 0
    &&& !text::white_space(e.name[0])
    &&& e.name[0] != ACTIVE_MARKER
    &&& !text::white_space(e.name.last())
    &&& e.name.last() != VARIATION_SELECTOR
    &&& match e.provider {
        Some(p) => p.len() > 0 && forall|i: int| 0 <= i < p.len() ==> #[trigger] p[i] != '(',
        None => match trailing_group(e.name) {
            Some((_, p)) => p.len() == 0,
            None => true,
        },
    }
}

/// A row that begins with a number and a dot is read from its name on.
proof fn lemma_row_front(number: nat, rest: Seq<char>)
    requires
        number <= usize::MAX,
        rest.len() > 0,
        !text::white_space(rest[0]),
        !text::white_space(rest.last()),
        rest[0] != ACTIVE_MARKER,
    ensures
        row_entry(text::decimal(number) + ". "@ + rest) == named_entry(number, rest, false),
{
    reveal_strlit(". ");
    lemma_decimal(number);
    let d = text::decimal(number);
    let line = d + ". "@ + rest;
    assert(line[0] == d[0]);
    assert(line.last() == rest.last());
    assert(text::trim_start(line) == line);
    assert(text::trim(line) == line);
    let n = d.len() as int;
    assert forall|k: int| 0 <= k < n implies is_digit(#[trigger] line[k]) by {
        assert(line[k] == d[k]);
    }
    assert(line[n] == '.');
    lemma_leading_digits(line, n);
    assert(line.take(n) =~= d);
    let tail = line.skip(n);
    assert(tail[0] == '.');
    assert(text::trim_start(tail) == tail);
    let after = tail.drop_first();
    assert(after[0] == ' ');
    assert(after.drop_first() =~= rest);
    assert(text::trim_start(rest) == rest);
    assert(text::trim_start(after) == rest);
}

/// A name and a provider are read back from their row.
proof fn lemma_row_with_provider(number: nat, name: Seq<char>, p: Seq<char>)
    requires
        name.len() > 0,
        !text::white_space(name.last()),
        name.last() != VARIATION_SELECTOR,
        p.len() > 0,
        forall|i: int| 0 <= i < p.len() ==> #[trigger] p[i] != '(',
    ensures
        named_entry(number, name + " ("@ + p + ")"@, false) == Some(
            ModelEntryView { number, name, provider: Some(p), active: false },
        ),
        (name + " ("@ + p + ")"@).last() == ')',
{
    reveal_strlit(" (");
    reveal_strlit(")");
    let rest = name + " ("@ + p + ")"@;
    let open = name.len() as int + 1;
    assert(rest.len() == name.len() + p.len() + 3);
    assert(rest[open] == '(');
    assert forall|i: int| open < i < rest.len() implies #[trigger] rest[i] != '(' by {
        if i < rest.len() - 1 {
            assert(rest[i] == p[i - open - 1]);
        }
    }
    lemma_last_index(rest, '(', open);
    let padded = rest.take(open);
    assert(padded.last() == ' ');
    assert(padded.drop_last() =~= name);
    assert(rest.subrange(open + 1, rest.len() - 1) =~= p);
    assert(text::trim_end(name) == name);
    assert(text::trim_end(padded) == name);
    assert(trim_selectors(name) == name);
}

/// Parsing the row of an entry gives the entry back.
pub proof fn law_row_label_parses_back(e: ModelEntryView)
    requires
        plain_entry(e),
    ensures
        row_entry(row_label(e)) == Some(e),
{
    let d = text::decimal(e.number);
    match e.provider {
        Some(p) => {
            let rest = e.name + " ("@ + p + ")"@;
            assert(row_label(e) =~= d + ". "@ + rest);
            lemma_row_with_provider(e.number, e.name, p);
            assert(rest[0] == e.name[0]);
            lemma_row_front(e.number, rest);
        },
        None => {
            assert(row_label(e) =~= d + ". "@ + e.name);
            lemma_row_front(e.number, e.name);
            assert(text::trim_end(e.name) == e.name);
            assert(trim_selectors(e.name) == e.name);
        },
    }
}

/// A row with the active marker before its name is read as the active model, with
/// the number, name and provider of the row.
pub proof fn law_active_row_parses(e: ModelEntryView)
    requires
        plain_entry(e),
        !text::white_space(ACTIVE_MARKER),
    ensures
        row_entry(
            text::decimal(e.number) + seq!['.', ' ', ACTIVE_MARKER, ' '] + (match e.provider {
                Some(p) => e.name + " ("@ + p + ")"@,
                None => e.name,
            }),
        ) == Some(ModelEntryView { active: true, ..e }),
{
    let d = text::decimal(e.number);
    lemma_decimal(e.number);
    let rest = match e.provider {
        Some(p) => e.name + " ("@ + p + ")"@,
        None => e.name,
    };
    match e.provider {
        Some(p) => {
            lemma_row_with_provider(e.number, e.name, p);
        },
        None => {
            assert(text::trim_end(e.name) == e.name);
            assert(trim_selectors(e.name) == e.name);
        },
    }
    assert(rest[0] == e.name[0]);
    let line = d + seq!['.', ' ', ACTIVE_MARKER, ' '] + rest;
    let n = d.len() as int;
    assert(line[0] == d[0]);
    assert(line.last() == rest.last());
    assert(text::trim_start(line) == line);
    assert(text::trim(line) == line);
    assert forall|k: int| 0 <= k < n implies is_digit(#[trigger] line[k]) by {
        assert(line[k] == d[k]);
    }
    assert(line[n] == '.');
    lemma_leading_digits(line, n);
    assert(line.take(n) =~= d);
    let tail = line.skip(n);
    assert(tail[0] == '.');
    assert(text::trim_start(tail) == tail);
    let after = tail.drop_first();
    let marked = after.drop_first();
    assert(after[0] == ' ');
    assert(marked[0] == ACTIVE_MARKER);
    assert(text::trim_start(marked) == marked);
    assert(text::trim_start(after) == marked);
    let gap = marked.drop_first();
    assert(gap[0] == ' ');
    assert(gap.drop_first() =~= rest);
    assert(text::trim_start(rest) == rest);
    assert(text::trim_start(gap) == rest);
}

/// A line that does not begin with a number is no row.
pub proof fn law_rows_begin_with_a_number(line: Seq<char>)
    requires
        text::trim(line).len() == 0 || !('0' <= text::trim(line)[0] && text::trim(line)[0] <= '9'),
    ensures
        row_entry(line) is None,
{
}

/// A listing is read line by line and in order: the entries of two parts are those
/// of the first and then those of the second, and a line is one entry or none.
pub proof fn law_listing_reads_line_by_line(a: Seq<Seq<char>>, b: Seq<Seq<char>>)
    ensures
        listing_entries(a + b) == listing_entries(a) + listing_entries(b),
        a.len() == 1 ==> listing_entries(a) == (match row_entry(a[0]) {
            Some(e) => seq![e],
            None => Seq::empty(),
        }),
    decreases b.len(),
{
    if a.len() == 1 {
        assert(a.drop_last() =~= Seq::empty());
        reveal_with_fuel(listing_entries, 2);
        match row_entry(a[0]) {
            Some(e) => {
                assert(listing_entries(a) =~= seq![e]);
            },
            None => {},
        }
    }
    if b.len() == 0 {
        assert(a + b =~= a);
        assert(listing_entries(a) + listing_entries(b) =~= listing_entries(a));
    } else {
        law_listing_reads_line_by_line(a, b.drop_last());
        assert((a + b).drop_last() =~= a + b.drop_last());
        assert((a + b).last() == b.last());
        assert(listing_entries(a + b) =~= listing_entries(a) + listing_entries(b));
    }
}

/// A name loses nothing but white space and variation selectors at its end.
pub proof fn law_name_keeps_its_letters(s: Seq<char>)
    ensures
        clean_name(s).is_prefix_of(s),
        forall|i: int|
            clean_name(s).len() <= i < s.len() ==> text::white_space(#[trigger] s[i]) || s[i]
                == VARIATION_SELECTOR,
        clean_name(s).len() > 0 ==> !text::white_space(clean_name(s).last()),
{
    let a = text::trim_end(s);
    let b = trim_selectors(a);
    let c = text::trim_end(b);
    lemma_end_trimmed(s);
    lemma_selectors_trimmed(a);
    lemma_end_trimmed(b);
    assert(c =~= s.take(c.len() as int));
    assert forall|i: int| c.len() <= i < s.len() implies text::white_space(#[trigger] s[i])
        || s[i] == VARIATION_SELECTOR by {
        if i < b.len() {
            assert(b[i] == s[i]);
        } else if i < a.len() {
            assert(a[i] == s[i]);
        }
    }
}

proof fn lemma_end_trimmed(s: Seq<char>)
    ensures
        text::trim_end(s).len() <= s.len(),
        text::trim_end(s) == s.take(text::trim_end(s).len() as int),
        forall|i: int| text::trim_end(s).len() <= i < s.len() ==> text::white_space(#[trigger] s[i]),
        text::trim_end(s).len() > 0 ==> !text::white_space(text::trim_end(s).last()),
    decreases s.len(),
{
    if s.len() > 0 && text::white_space(s.last()) {
        let front = s.drop_last();
        lemma_end_trimmed(front);
        let n = text::trim_end(s).len() as int;
        assert(s.take(n) =~= front.take(n));
        assert forall|i: int| n <= i < s.len() implies text::white_space(#[trigger] s[i]) by {
            if i < front.len() {
                assert(front[i] == s[i]);
            }
        }
    } else {
        assert(s.take(s.len() as int) =~= s);
    }
}

proof fn lemma_selectors_trimmed(s: Seq<char>)
    ensures
        trim_selectors(s).len() <= s.len(),
        trim_selectors(s) == s.take(trim_selectors(s).len() as int),
        forall|i: int| trim_selectors(s).len() <= i < s.len() ==> #[trigger] s[i]
            == VARIATION_SELECTOR,
    decreases s.len(),
{
    if s.len() > 0 && s.last() == VARIATION_SELECTOR {
        let front = s.drop_last();
        lemma_selectors_trimmed(front);
        let n = trim_selectors(s).len() as int;
        assert(s.take(n) =~= front.take(n));
        assert forall|i: int| n <= i < s.len() implies #[trigger] s[i] == VARIATION_SELECTOR by {
            if i < front.len() {
                assert(front[i] == s[i]);
            }
        }
    } else {
        assert(s.take(s.len() as int) =~= s);
    }
}

/// A confirmation gives the label that it names; any other answer gives none.
pub proof fn law_confirmation_names_the_model(label: Seq<char>, content: Seq<char>)
    ensures
        label.len() > 0 && !text::white_space(label[0]) && !text::white_space(label.last())
            ==> confirmed_label("Selected model: "@ + label) == Some(label),
        !"Selected model: "@.is_prefix_of(text::trim(content)) ==> confirmed_label(content) is None,
{
    reveal_strlit("Selected model: ");
    let prefix = "Selected model: "@;
    let whole = prefix + label;
    if label.len() > 0 && !text::white_space(label[0]) && !text::white_space(label.last()) {
        assert(whole[0] == 'S');
        assert(whole.last() == label.last());
        assert(text::trim(whole) == whole);
        assert(whole.take(prefix.len() as int) =~= prefix);
        assert(whole.skip(prefix.len() as int) =~= label);
        assert(text::trim(label) == label);
    }
}

/// A listing of one row gives its model back, and a listing in prose gives none.
pub proof fn law_listing_of_one(content: &str, r: Vec<ModelEntry>, e: ModelEntryView)
    requires
        call_ensures(parse_model_listing, (content,), r),
        plain_entry(e),
        content@ == row_label(e),
        !content@.contains('\n'),
    ensures
        r@.len() == 1,
        r@[0]@ == e,
{
    lemma_decimal(e.number);
    let d = text::decimal(e.number);
    assert(content@.len() > 0) by {
        assert(row_label(e).len() >= d.len());
    }
    text::law_lines_are_lines(content@);
    law_row_label_parses_back(e);
    law_listing_reads_line_by_line(seq![content@], Seq::empty());
    assert(entry_views(r@).len() == r@.len());
    assert(entry_views(r@)[0] == r@[0]@);
}

/// What the picker shows of a model is its number, its name and its provider.
pub proof fn law_label_tells_the_model(entry: &ModelEntry, r: String)
    requires
        call_ensures(listing_row_label, (entry,), r),
    ensures
        entry.provider is None ==> r@ == text::decimal(entry.number as nat) + ". "@ + entry.name@,
        entry.provider matches Some(p) ==> r@ == text::decimal(entry.number as nat) + ". "@
            + entry.name@ + " ("@ + p@ + ")"@,
{
}

/// The group at the end of a row is what stands between its last opening bracket
/// and its final closing one.
pub proof fn law_trailing_group(s: Seq<char>)
    ensures
        trailing_group(s) matches Some((name, inside)) ==> s == name + seq!['('] + inside + seq![
            ')',
        ] && name.len() > 0 && !inside.contains('('),
        s.len() == 0 || s.last() != ')' || !s.contains('(') ==> trailing_group(s) is None,
{
    lemma_last_bracket(s, '(');
    match trailing_group(s) {
        Some((name, inside)) => {
            let open = last_index(s, '(')->0;
            assert(s =~= name + seq!['('] + inside + seq![')']);
            if inside.contains('(') {
                let k = choose|k: int| 0 <= k < inside.len() && inside[k] == '(';
                assert(s[open + 1 + k] == '(');
            }
        },
        None => {},
    }
}

proof fn lemma_last_bracket(s: Seq<char>, c: char)
    ensures
        match last_index(s, c) {
            Some(k) => 0 <= k < s.len() && s[k] == c && forall|i: int|
                k < i < s.len() ==> #[trigger] s[i] != c,
            None => !s.contains(c),
        },
    decreases s.len(),
{
    if s.len() > 0 && s.last() != c {
        let front = s.drop_last();
        lemma_last_bracket(front, c);
        match last_index(s, c) {
            Some(k) => {
                assert forall|i: int| k < i < s.len() implies #[trigger] s[i] != c by {
                    if i < front.len() {
                        assert(front[i] == s[i]);
                    }
                }
            },
            None => {
                if s.contains(c) {
                    let i = choose|i: int| 0 <= i < s.len() && s[i] == c;
                    assert(front[i] == c);
                    assert(front.contains(c));
                }
            },
        }
    } else if s.len() > 0 {
        assert(s[s.len() - 1] == c);
    }
}

} // verus!
