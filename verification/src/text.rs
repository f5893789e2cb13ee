//! Text primitives: strings are specified as sequences of characters.

use vstd::prelude::*;

verus! {

/// A name for `char::is_whitespace` on the characters beyond ASCII: whether
/// `c` has the Unicode property `White_Space`.
pub uninterp spec fn unicode_white_space(c: char) -> bool;

/// Whether `c` is white space. Among the ASCII characters these are the space
/// and the five controls from tab to carriage return.
pub open spec fn white_space(c: char) -> bool {
    if c <= '\u{7f}' {
        c == ' ' || ('\t' <= c && c <= '\r')
    } else {
        unicode_white_space(c)
    }
}

/// `char::is_whitespace` tells whether `c` has the Unicode property
/// `White_Space`.
pub assume_specification[ char::is_whitespace ](c: char) -> (r: bool)
    ensures
        r == (if c <= '\u{7f}' {
            c == ' ' || ('\t' <= c && c <= '\r')
        } else {
            unicode_white_space(c)
        }),
;

/// `String::push` appends one character.
pub assume_specification[ String::push ](s: &mut String, c: char)
    ensures
        final(s)@ == old(s)@.push(c),
;

/// The contents of a list of strings.
pub open spec fn texts(v: Seq<String>) -> Seq<Seq<char>> {
    Seq::new(v.len(), |i: int| v[i]@)
}

pub broadcast proof fn texts_push(v: Seq<String>, s: String)
    ensures
        #[trigger] texts(v.push(s)) == texts(v).push(s@),
{
    assert(texts(v.push(s)) =~= texts(v).push(s@));
}

/// The characters of `s`, in order.
pub fn to_chars(s: &str) -> (r: Vec<char>)
    ensures
        r@ == s@,
{
    let mut out: Vec<char> = Vec::new();
    for c in it: s.chars()
        invariant
            it.seq() == s@,
            out@ == s@.subrange(0, it.index() as int),
    {
        out.push(c);
    }
    out
}

/// The string made of `chars[from..to]`.
pub fn from_chars(chars: &Vec<char>, from: usize, to: usize) -> (r: String)
    requires
        from <= to <= chars@.len(),
    ensures
        r@ == chars@.subrange(from as int, to as int),
{
    let mut out = String::new();
    let mut i: usize = from;
    while i < to
        invariant
            from <= i <= to <= chars@.len(),
            out@ == chars@.subrange(from as int, i as int),
        decreases to - i,
    {
        out.push(chars[i]);
        i += 1;
    }
    out
}

/// Whether two strings hold the same characters.
pub fn same_text(a: &str, b: &str) -> (r: bool)
    ensures
        r == (a@ == b@),
{
    a.to_owned() == b.to_owned()
}

/// An owned copy of `s`.
pub fn owned(s: &str) -> (r: String)
    ensures
        r@ == s@,
{
    s.to_owned()
}

/// `a` followed by `b`.
pub fn concat(a: &str, b: &str) -> (r: String)
    ensures
        r@ == a@ + b@,
{
    let mut out = a.to_owned();
    out.append(b);
    out
}

/// `a`, `b` and `c` in a row.
pub fn concat3(a: &str, b: &str, c: &str) -> (r: String)
    ensures
        r@ == a@ + b@ + c@,
{
    let mut out = a.to_owned();
    out.append(b);
    out.append(c);
    out
}

/// `n` copies of `c`.
pub open spec fn repeated(c: char, n: nat) -> Seq<char> {
    Seq::new(n, |i: int| c)
}

/// `n` copies of `c`, as a string.
pub fn repeat(c: char, n: usize) -> (r: String)
    ensures
        r@ == repeated(c, n as nat),
{
    let mut out = String::new();
    let mut i: usize = 0;
    while i < n
        invariant
            i <= n,
            out@ == repeated(c, i as nat),
        decreases n - i,
    {
        out.push(c);
        i += 1;
    }
    out
}

/// `n`, or the largest machine integer where `n` is larger.
pub open spec fn capped(n: int) -> int {
    if n > usize::MAX {
        usize::MAX as int
    } else {
        n
    }
}

/// The decimal digit of value `d`.
pub open spec fn digit(d: nat) -> char {
    ('0' as nat + d) as char
}

/// `n` in decimal, without leading zeros.
pub open spec fn decimal(n: nat) -> Seq<char>
    decreases n,
{
    if n < 10 {
        seq![digit(n)]
    } else {
        decimal(n / 10).push(digit(n % 10))
    }
}

fn digit_char(d: u64) -> (c: char)
    requires
        d < 10,
    ensures
        c == digit(d as nat),
{
    (48u8 + d as u8) as char
}

/// `n` in decimal.
pub fn decimal_string(n: u64) -> (r: String)
    ensures
        r@ == decimal(n as nat),
    decreases n,
{
    if n < 10 {
        let mut out = String::new();
        out.push(digit_char(n));
        assert(out@ =~= decimal(n as nat));
        out
    } else {
        let mut out = decimal_string(n / 10);
        out.push(digit_char(n % 10));
        out
    }
}

/// A length in decimal.
pub fn decimal_usize(n: usize) -> (r: String)
    ensures
        r@ == decimal(n as nat),
{
    decimal_string(n as u64)
}

/// The pieces of `s` between the occurrences of `sep`: one more than there
/// are separators.
pub open spec fn split(s: Seq<char>, sep: char) -> Seq<Seq<char>>
    decreases s.len(),
{
    if s.len() == 0 {
        seq![Seq::<char>::empty()]
    } else {
        let before = split(s.drop_last(), sep);
        if s.last() == sep {
            before.push(Seq::empty())
        } else {
            before.drop_last().push(before.last().push(s.last()))
        }
    }
}

pub proof fn lemma_split_nonempty(s: Seq<char>, sep: char)
    ensures
        split(s, sep).len() >= 1,
    decreases s.len(),
{
    if s.len() > 0 {
        lemma_split_nonempty(s.drop_last(), sep);
    }
}

/// Splits `s` at every `sep`.
pub fn split_on(s: &str, sep: char) -> (r: Vec<String>)
    ensures
        texts(r@) == split(s@, sep),
        r@.len() >= 1,
{
    let mut done: Vec<String> = Vec::new();
    let mut cur = String::new();
    let chars = to_chars(s);
    let mut i: usize = 0;
    proof {
        assert(s@.take(0) =~= Seq::<char>::empty());
        assert(texts(done@).push(cur@) =~= seq![Seq::<char>::empty()]);
    }
    while i < chars.len()
        invariant
            i <= chars@.len(),
            chars@ == s@,
            split(s@.take(i as int), sep) == texts(done@).push(cur@),
        decreases chars@.len() - i,
    {
        broadcast use texts_push;

        let c = chars[i];
        proof {
            assert(s@.take(i + 1).drop_last() =~= s@.take(i as int));
            assert(s@.take(i + 1).last() == c);
            assert(texts(done@).push(cur@).drop_last() =~= texts(done@));
        }
        if c == sep {
            done.push(cur);
            cur = String::new();
        } else {
            cur.push(c);
        }
        i += 1;
    }
    assert(s@.take(i as int) =~= s@);
    proof {
        broadcast use texts_push;
        assert(texts(done@.push(cur)) == split(s@, sep));
    }
    done.push(cur);
    done
}

/// `s` without one final carriage return.
pub open spec fn strip_cr(s: Seq<char>) -> Seq<char> {
    if s.len() > 0 && s.last() == '\r' {
        s.drop_last()
    } else {
        s
    }
}

/// The lines of `s`: a line ends at `\n` or `\r\n`, and an empty rest after the
/// last line end is no line.
pub open spec fn lines(s: Seq<char>) -> Seq<Seq<char>> {
    let pieces = split(s, '\n');
    let ended = Seq::new((pieces.len() - 1) as nat, |i: int| strip_cr(pieces[i]));
    if pieces.last().len() == 0 {
        ended
    } else {
        ended.push(pieces.last())
    }
}

/// The lines of `s`, without their ends.
pub fn lines_of(s: &str) -> (r: Vec<String>)
    ensures
        texts(r@) == lines(s@),
{
    broadcast use texts_push;

    let pieces = split_on(s, '\n');
    let mut out: Vec<String> = Vec::new();
    let mut i: usize = 0;
    let ghost parts = split(s@, '\n');
    assert(parts.len() == pieces@.len());
    while i < pieces.len() - 1
        invariant
            i < pieces@.len(),
            parts == texts(pieces@),
            texts(out@) == Seq::new(i as nat, |k: int| strip_cr(parts[k])),
        decreases pieces@.len() - i,
    {
        broadcast use texts_push;

        let chars = to_chars(&pieces[i]);
        assert(parts[i as int] == chars@);
        let piece = if chars.len() > 0 && chars[chars.len() - 1] == '\r' {
            assert(chars@.drop_last() =~= chars@.subrange(0, chars@.len() - 1));
            from_chars(&chars, 0, chars.len() - 1)
        } else {
            pieces[i].clone()
        };
        assert(piece@ == strip_cr(parts[i as int]));
        assert(Seq::new(i as nat, |k: int| strip_cr(parts[k])).push(piece@) =~= Seq::new(
            (i + 1) as nat,
            |k: int| strip_cr(parts[k]),
        ));
        out.push(piece);
        i += 1;
    }
    assert(parts[i as int] == pieces@[i as int]@);
    if !pieces[i].as_str().is_empty() {
        out.push(pieces[i].clone());
    }
    out
}

/// `s` without leading white space.
pub open spec fn trim_start(s: Seq<char>) -> Seq<char>
    decreases s.len(),
{
    if s.len() > 0 && white_space(s[0]) {
        trim_start(s.drop_first())
    } else {
        s
    }
}

/// `s` without trailing white space.
pub open spec fn trim_end(s: Seq<char>) -> Seq<char>
    decreases s.len(),
{
    if s.len() > 0 && white_space(s.last()) {
        trim_end(s.drop_last())
    } else {
        s
    }
}

/// `s` without white space at either end.
pub open spec fn trim(s: Seq<char>) -> Seq<char> {
    trim_end(trim_start(s))
}

/// The bounds of the trimmed part of `chars[from..to]`.
pub fn trim_bounds(chars: &Vec<char>, from: usize, to: usize) -> (r: (usize, usize))
    requires
        from <= to <= chars@.len(),
    ensures
        from <= r.0 <= r.1 <= to,
        chars@.subrange(r.0 as int, r.1 as int) == trim(chars@.subrange(from as int, to as int)),
{
    let mut a: usize = from;
    let ghost whole = chars@.subrange(from as int, to as int);
    while a < to && chars[a].is_whitespace()
        invariant
            from <= a <= to <= chars@.len(),
            trim_start(chars@.subrange(a as int, to as int)) == trim_start(whole),
        decreases to - a,
    {
        assert(chars@.subrange(a as int, to as int).drop_first() =~= chars@.subrange(
            a + 1,
            to as int,
        ));
        a += 1;
    }
    let ghost left = chars@.subrange(a as int, to as int);
    assert(left == trim_start(whole));
    let mut b: usize = to;
    while a < b && chars[b - 1].is_whitespace()
        invariant
            from <= a <= b <= to <= chars@.len(),
            trim_end(chars@.subrange(a as int, b as int)) == trim_end(left),
        decreases b - a,
    {
        assert(chars@.subrange(a as int, b as int).drop_last() =~= chars@.subrange(
            a as int,
            b - 1,
        ));
        b -= 1;
    }
    (a, b)
}

/// `s` without white space at either end, as an owned string.
pub fn trimmed(s: &str) -> (r: String)
    ensures
        r@ == trim(s@),
{
    let chars = to_chars(s);
    let (a, b) = trim_bounds(&chars, 0, chars.len());
    assert(chars@.subrange(0, chars@.len() as int) =~= s@);
    from_chars(&chars, a, b)
}

/// `s` with every `from` replaced by `to`.
pub open spec fn replaced(s: Seq<char>, from: char, to: char) -> Seq<char> {
    Seq::new(s.len(), |i: int| if s[i] == from { to } else { s[i] })
}

/// Replaces every `from` in `s` by `to`.
pub fn replace_char(s: &str, from: char, to: char) -> (r: String)
    ensures
        r@ == replaced(s@, from, to),
{
    let chars = to_chars(s);
    let mut out = String::new();
    let mut i: usize = 0;
    while i < chars.len()
        invariant
            i <= chars@.len(),
            chars@ == s@,
            out@ == replaced(s@.take(i as int), from, to),
        decreases chars@.len() - i,
    {
        let c = chars[i];
        out.push(if c == from { to } else { c });
        i += 1;
        assert(out@ =~= replaced(s@.take(i as int), from, to));
    }
    assert(s@.take(i as int) =~= s@);
    out
}

/// `char::to_ascii_lowercase` maps `A..=Z` to `a..=z` and leaves every other
/// character alone.
pub assume_specification[ char::to_ascii_lowercase ](c: &char) -> (r: char)
    ensures
        r == ascii_lower(*c),
;

/// The ASCII lower case of `c`.
pub open spec fn ascii_lower(c: char) -> char {
    if 'A' <= c && c <= 'Z' {
        (c as nat + 32) as char
    } else {
        c
    }
}

/// The ASCII lower case of every character of `s`.
pub open spec fn ascii_lowercase(s: Seq<char>) -> Seq<char> {
    Seq::new(s.len(), |i: int| ascii_lower(s[i]))
}

/// `s` in ASCII lower case.
pub fn to_ascii_lower(s: &str) -> (r: String)
    ensures
        r@ == ascii_lowercase(s@),
{
    let chars = to_chars(s);
    let mut out = String::new();
    let mut i: usize = 0;
    while i < chars.len()
        invariant
            i <= chars@.len(),
            chars@ == s@,
            out@ == ascii_lowercase(s@.take(i as int)),
        decreases chars@.len() - i,
    {
        out.push(chars[i].to_ascii_lowercase());
        i += 1;
        assert(out@ =~= ascii_lowercase(s@.take(i as int)));
    }
    assert(s@.take(i as int) =~= s@);
    out
}

/// The text of an optional string.
pub open spec fn optional(s: Option<String>) -> Option<Seq<char>> {
    match s {
        Some(t) => Some(t@),
        None => None,
    }
}

/// The text of an optional string slice.
pub open spec fn optional_str(s: Option<&str>) -> Option<Seq<char>> {
    match s {
        Some(t) => Some(t@),
        None => None,
    }
}

/// The pieces `parts` with `sep` between each two of them.
pub open spec fn joined(parts: Seq<Seq<char>>, sep: char) -> Seq<char>
    decreases parts.len(),
{
    if parts.len() == 0 {
        Seq::empty()
    } else if parts.len() == 1 {
        parts[0]
    } else {
        joined(parts.drop_last(), sep).push(sep) + parts.last()
    }
}

/// The pieces of a text, joined again, are the text, and no piece holds the
/// separator.
pub proof fn law_split_joins(s: Seq<char>, sep: char)
    ensures
        split(s, sep).len() >= 1,
        joined(split(s, sep), sep) == s,
        forall|i: int| 0 <= i < split(s, sep).len() ==> !(#[trigger] split(s, sep)[i]).contains(sep),
    decreases s.len(),
{
    let all = split(s, sep);
    if s.len() > 0 {
        law_split_joins(s.drop_last(), sep);
        let before = split(s.drop_last(), sep);
        assert(s =~= s.drop_last().push(s.last()));
        if s.last() == sep {
            assert(all.drop_last() =~= before);
            assert(joined(all, sep) =~= s);
        } else {
            assert(all.drop_last() =~= before.drop_last());
            assert(joined(all, sep) =~= joined(before, sep).push(s.last()));
            assert forall|i: int| 0 <= i < all.len() implies !(#[trigger] all[i]).contains(
                sep,
            ) by {
                assert(!before[i].contains(sep));
                if i == all.len() - 1 && all[i].contains(sep) {
                    let k = choose|k: int| 0 <= k < all[i].len() && all[i][k] == sep;
                    assert(before[i][k] == sep);
                }
            }
        }
    }
}

/// A text without the separator is its only piece.
pub proof fn law_split_whole(s: Seq<char>, sep: char)
    requires
        !s.contains(sep),
    ensures
        split(s, sep) == seq![s],
    decreases s.len(),
{
    if s.len() > 0 {
        assert(s.last() == s[s.len() - 1]);
        assert forall|i: int| 0 <= i < s.drop_last().len() implies s.drop_last()[i] != sep by {
            assert(s[i] != sep);
        }
        law_split_whole(s.drop_last(), sep);
        assert(s.drop_last().push(s.last()) =~= s);
    } else {
        assert(s =~= Seq::empty());
    }
    assert(split(s, sep) =~= seq![s]);
}

/// The number that a run of decimal digits stands for.
pub open spec fn digits_value(s: Seq<char>) -> int
    decreases s.len(),
{
    if s.len() == 0 {
        0
    } else {
        10 * digits_value(s.drop_last()) + (s.last() as int - '0' as int)
    }
}

/// A number in decimal reads as the number: digits alone, without a leading
/// zero but in zero itself.
pub proof fn law_decimal_reads(n: nat)
    ensures
        decimal(n).len() >= 1,
        digits_value(decimal(n)) == n,
        forall|i: int| 0 <= i < decimal(n).len() ==> '0' <= #[trigger] decimal(n)[i] && decimal(n)[i] <= '9',
        decimal(n)[0] == '0' ==> n == 0 && decimal(n).len() == 1,
    decreases n,
{
    let s = decimal(n);
    if n >= 10 {
        law_decimal_reads(n / 10);
        assert(s.drop_last() =~= decimal(n / 10));
        assert(s[0] == decimal(n / 10)[0]);
    } else {
        assert(s.drop_last() =~= Seq::empty());
        assert(digits_value(s.drop_last()) == 0);
    }
}

/// What is trimmed off is white space, and what is left neither begins nor ends
/// with any.
pub proof fn law_trim(s: Seq<char>)
    ensures
        exists|a: int, b: int|
            0 <= a <= b <= s.len() && trim(s) == #[trigger] s.subrange(a, b) && (forall|i: int|
                0 <= i < a || b <= i < s.len() ==> white_space(#[trigger] s[i])),
        trim(s).len() > 0 ==> !white_space(trim(s)[0]) && !white_space(trim(s).last()),
{
    let left = trim_start(s);
    lemma_trim_start(s);
    lemma_trim_end(left);
    let a = s.len() - left.len();
    let b = a + trim(s).len();
    assert(trim(s) =~= s.subrange(a, b));
    assert forall|i: int| 0 <= i < a || b <= i < s.len() implies white_space(#[trigger] s[i]) by {
        if b <= i {
            assert(s[i] == left[i - a]);
        }
    }
}

proof fn lemma_trim_start(s: Seq<char>)
    ensures
        trim_start(s).len() <= s.len(),
        trim_start(s) == s.skip(s.len() - trim_start(s).len()),
        forall|i: int|
            0 <= i < s.len() - trim_start(s).len() ==> white_space(#[trigger] s[i]),
        trim_start(s).len() > 0 ==> !white_space(trim_start(s)[0]),
    decreases s.len(),
{
    if s.len() > 0 && white_space(s[0]) {
        let rest = s.drop_first();
        lemma_trim_start(rest);
        let n = s.len() - trim_start(s).len();
        assert(s.skip(n) =~= rest.skip(n - 1));
        assert forall|i: int| 0 <= i < n implies white_space(#[trigger] s[i]) by {
            if i > 0 {
                assert(rest[i - 1] == s[i]);
            }
        }
    } else {
        assert(s.skip(0) =~= s);
    }
}

proof fn lemma_trim_end(s: Seq<char>)
    ensures
        trim_end(s).len() <= s.len(),
        trim_end(s) == s.take(trim_end(s).len() as int),
        forall|i: int| trim_end(s).len() <= i < s.len() ==> white_space(#[trigger] s[i]),
        trim_end(s).len() > 0 ==> !white_space(trim_end(s).last()),
        s.len() > 0 && !white_space(s[0]) ==> trim_end(s).len() > 0 && trim_end(s)[0] == s[0],
    decreases s.len(),
{
    if s.len() > 0 && white_space(s.last()) {
        let rest = s.drop_last();
        lemma_trim_end(rest);
        let n = trim_end(s).len() as int;
        assert(s.take(n) =~= rest.take(n));
        assert forall|i: int| n <= i < s.len() implies white_space(#[trigger] s[i]) by {
            if i < rest.len() {
                assert(rest[i] == s[i]);
            }
        }
    } else {
        assert(s.take(s.len() as int) =~= s);
    }
}

/// Capital ASCII letters become the small letters 32 places on; nothing else
/// changes.
pub proof fn law_ascii_lower(c: char)
    ensures
        'A' <= c && c <= 'Z' ==> ascii_lower(c) as int == c as int + 32,
        !('A' <= c && c <= 'Z') ==> ascii_lower(c) == c,
        ascii_lower(ascii_lower(c)) == ascii_lower(c),
{
}

/// The lines of a text hold no line feed, and a text without line breaks is its
/// own only line.
pub proof fn law_lines_are_lines(s: Seq<char>)
    ensures
        forall|i: int| 0 <= i < lines(s).len() ==> !(#[trigger] lines(s)[i]).contains('\n'),
        s.len() == 0 ==> lines(s).len() == 0,
        s.len() > 0 && !s.contains('\n') ==> lines(s) == seq![s],
{
    law_split_joins(s, '\n');
    let pieces = split(s, '\n');
    assert forall|i: int| 0 <= i < lines(s).len() implies !(#[trigger] lines(s)[i]).contains(
        '\n',
    ) by {
        assert(!pieces[i].contains('\n'));
        if lines(s)[i].contains('\n') {
            let k = choose|k: int| 0 <= k < lines(s)[i].len() && lines(s)[i][k] == '\n';
            assert(pieces[i][k] == '\n');
        }
    }
    if !s.contains('\n') {
        law_split_whole(s, '\n');
        if s.len() > 0 {
            assert(lines(s) =~= seq![s]);
        }
    }
}

/// The lines of a text without carriage returns, joined again, are the text, but
/// for a line feed at its end.
pub proof fn law_lines_join(s: Seq<char>)
    requires
        !s.contains('\r'),
    ensures
        joined(lines(s), '\n') == s || (s.len() > 0 && s.last() == '\n' && (lines(s).len() > 0
            ==> joined(lines(s), '\n') == s.drop_last())),
        lines(s).len() == split(s, '\n').len() || lines(s).len() == split(s, '\n').len() - 1,
        forall|i: int| 0 <= i < lines(s).len() ==> #[trigger] lines(s)[i] == split(s, '\n')[i],
{
    law_split_joins(s, '\n');
    let parts = split(s, '\n');
    let all = lines(s);
    assert forall|i: int| 0 <= i < parts.len() implies #[trigger] strip_cr(parts[i]) == parts[i] by {
        lemma_piece_within(s, '\n', i, '\r');
        if parts[i].len() > 0 && parts[i].last() == '\r' {
            assert(parts[i][parts[i].len() - 1] == '\r');
        }
    }
    assert forall|i: int| 0 <= i < all.len() implies #[trigger] all[i] == parts[i] by {
        assert(strip_cr(parts[i]) == parts[i]);
    }
    if parts.last().len() == 0 {
        assert(all =~= parts.drop_last());
        if parts.len() > 1 {
            assert(joined(parts, '\n') == joined(all, '\n').push('\n') + parts.last());
            assert(joined(all, '\n').push('\n') + parts.last() =~= joined(all, '\n').push('\n'));
            assert(s.drop_last() =~= joined(all, '\n'));
        } else {
            assert(s == parts[0]);
            assert(joined(all, '\n') =~= s);
        }
    } else {
        assert(all =~= parts);
    }
}

proof fn lemma_piece_within(s: Seq<char>, sep: char, i: int, c: char)
    requires
        0 <= i < split(s, sep).len(),
        !s.contains(c),
    ensures
        !split(s, sep)[i].contains(c),
    decreases s.len(),
{
    if s.len() > 0 {
        let front = s.drop_last();
        let before = split(front, sep);
        lemma_split_nonempty(front, sep);
        if front.contains(c) {
            let k = choose|k: int| 0 <= k < front.len() && front[k] == c;
            assert(s[k] == c);
        }
        assert(s.last() == s[s.len() - 1]);
        let own = split(s, sep)[i];
        if i < before.len() {
            lemma_piece_within(front, sep, i, c);
            if own.contains(c) {
                let k = choose|k: int| 0 <= k < own.len() && own[k] == c;
                if k < before[i].len() {
                    assert(before[i][k] == c);
                }
            }
        }
    }
}

/// Replacing a character changes it everywhere and nothing else.
pub proof fn law_replaced(s: Seq<char>, from: char, to: char)
    ensures
        replaced(s, from, to).len() == s.len(),
        forall|i: int| 0 <= i < s.len() && s[i] == from ==> #[trigger] replaced(s, from, to)[i] == to,
        forall|i: int|
            0 <= i < s.len() && s[i] != from ==> #[trigger] replaced(s, from, to)[i] == s[i],
        from != to ==> !replaced(s, from, to).contains(from),
        repeated(from, s.len()).len() == s.len(),
        forall|i: int| 0 <= i < s.len() ==> #[trigger] repeated(from, s.len())[i] == from,
{
    if from != to && replaced(s, from, to).contains(from) {
        let k = choose|k: int| 0 <= k < s.len() && replaced(s, from, to)[k] == from;
        assert(s[k] == from || s[k] != from);
    }
}

/// The functions on text do what they say: the pieces of a text make it up, a
/// trimmed text is a part of it, and a number reads as it is.
pub proof fn law_text_functions(
    s: &str,
    sep: char,
    n: u64,
    pieces: Vec<String>,
    shorter: String,
    digits: String,
    low: String,
)
    requires
        call_ensures(split_on, (s, sep), pieces),
        call_ensures(trimmed, (s,), shorter),
        call_ensures(decimal_string, (n,), digits),
        call_ensures(to_ascii_lower, (s,), low),
    ensures
        joined(texts(pieces@), sep) == s@,
        pieces@.len() >= 1,
        shorter@ == trim(s@),
        shorter@.len() <= s@.len(),
        digits_value(digits@) == n,
        low@.len() == s@.len(),
        forall|i: int| 0 <= i < s@.len() ==> #[trigger] low@[i] == ascii_lower(s@[i]),
{
    law_split_joins(s@, sep);
    law_trim(s@);
    law_decimal_reads(n as nat);
    assert(texts(pieces@).len() == pieces@.len());
}

} // verus!
