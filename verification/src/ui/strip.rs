//! Short texts: the status strip, token counts, truncation and search snippets.

use vstd::prelude::*;
use crate::app::{GlobalSearchMatch, SearchMatch};
use crate::protocol::Usage;
use crate::style::{Line, Style};
use crate::theme::Theme;
use crate::ui::layout;
use crate::width::{char_width_or_zero, str_width};
use crate::{style, text, width};

verus! {

/// The unit that a count is given in from a thousand on.
pub open spec fn count_unit(n: nat) -> nat {
    if n < 1_000_000 {
        1000
    } else {
        1_000_000
    }
}

/// The tenths of the unit behind the whole units, cut off and never rounded up.
pub open spec fn count_tenths(n: nat) -> nat {
    (n % count_unit(n)) * 10 / count_unit(n)
}

/// A token count in short form: the digits below a thousand, then thousands and
/// millions with one decimal.
pub open spec fn short_count(n: nat) -> Seq<char> {
    if n < 1000 {
        text::decimal(n)
    } else {
        text::decimal(n / count_unit(n)) + "."@ + (text::decimal(count_tenths(n)) + (if n
            < 1_000_000 {
            "k"@
        } else {
            "M"@
        }))
    }
}

/// The short form never says more than there is, and less than a tenth of its
/// unit is lost; its decimal is a single digit.
pub proof fn law_short_count_cut_off(n: nat)
    requires
        n >= 1000,
    ensures
        count_tenths(n) < 10,
        (n / count_unit(n) * 10 + count_tenths(n)) * count_unit(n) <= n * 10,
        n * 10 < (n / count_unit(n) * 10 + count_tenths(n) + 1) * count_unit(n),
{
    if n < 1_000_000 {
        assert(count_unit(n) == 1000);
        assert(count_tenths(n) == (n % 1000) * 10 / 1000);
    } else {
        assert(count_unit(n) == 1_000_000);
        assert(count_tenths(n) == (n % 1_000_000) * 10 / 1_000_000);
    }
}

/// Writes a token count in short form.
pub fn human_tokens(n: u64) -> (r: String)
    ensures
        r@ == short_count(n as nat),
{
    if n < 1000 {
        return text::decimal_string(n);
    }
    let thousands = n < 1_000_000;
    let divisor: u64 = if thousands {
        1_000
    } else {
        1_000_000
    };
    let whole = text::decimal_string(n / divisor);
    let tenths = text::decimal_string((n % divisor) * 10 / divisor);
    let tail = text::concat(
        tenths.as_str(),
        if thousands {
            "k"
        } else {
            "M"
        },
    );
    text::concat3(whole.as_str(), ".", tail.as_str())
}

/// The ` · ctx` segment of the status strip: the share of the context window
/// that the input takes, rounded down, with both counts; the count alone where
/// the window is unknown or zero.
pub open spec fn usage_segment(usage: Usage) -> Seq<char> {
    match usage.context_window {
        Some(window) if window > 0 => " \u{00b7} ctx "@ + text::decimal(
            (usage.input_tokens as nat * 100) / (window as nat),
        ) + ("% ("@ + short_count(usage.input_tokens as nat) + ("/"@ + short_count(window as nat)
            + ")"@)),
        _ => " \u{00b7} ctx "@ + short_count(usage.input_tokens as nat),
    }
}

/// Whether the percentage of `usage` can be computed.
pub open spec fn countable(usage: Usage) -> bool {
    (usage.context_window matches Some(window) && window > 0) ==> usage.input_tokens * 100
        <= u64::MAX
}

/// Writes the ` · ctx` segment.
pub fn context_usage_segment(usage: &Usage) -> (r: String)
    requires
        countable(*usage),
    ensures
        r@ == usage_segment(*usage),
{
    let used = human_tokens(usage.input_tokens);
    match usage.context_window {
        Some(window) => if window > 0 {
            let share = text::decimal_string(usage.input_tokens * 100 / window);
            let most = human_tokens(window);
            let end = text::concat3("/", most.as_str(), ")");
            let counts = text::concat3("% (", used.as_str(), end.as_str());
            text::concat3(" \u{00b7} ctx ", share.as_str(), counts.as_str())
        } else {
            text::concat(" \u{00b7} ctx ", used.as_str())
        },
        None => text::concat(" \u{00b7} ctx ", used.as_str()),
    }
}

/// The columns of `s`, character by character.
pub open spec fn char_sum(s: Seq<char>) -> nat
    decreases s.len(),
{
    if s.len() == 0 {
        0
    } else {
        width::char_columns_or(s.first(), 0) + char_sum(s.drop_first())
    }
}

/// How many characters have to go from the left of `s` so that the rest takes
/// at most `budget` columns.
pub open spec fn dropped(s: Seq<char>, budget: int) -> int
    decreases s.len(),
{
    if s.len() == 0 || char_sum(s) <= budget {
        0
    } else {
        1 + dropped(s.drop_first(), budget)
    }
}

/// `s` in at most `max` columns: cut on the left, behind a one-column ellipsis.
pub open spec fn left_truncated(s: Seq<char>, max: nat) -> Seq<char> {
    if max == 0 {
        Seq::empty()
    } else if width::columns(s) <= max {
        s
    } else {
        seq!['\u{2026}'] + s.skip(dropped(s, max - 1))
    }
}

proof fn lemma_dropped(s: Seq<char>, budget: int, start: int)
    requires
        0 <= start <= s.len(),
        start < s.len() ==> char_sum(s.skip(start)) <= budget,
        start > 0 ==> char_sum(s.skip(start - 1)) > budget,
    ensures
        dropped(s, budget) == start,
    decreases start,
{
    if start == 0 {
        assert(s.skip(0) =~= s);
    } else {
        lemma_char_sum_monotone(s, start - 1);
        if start > 1 {
            assert(s.drop_first().skip(start - 2) =~= s.skip(start - 1));
        }
        assert(s.drop_first().skip(start - 1) =~= s.skip(start));
        lemma_dropped(s.drop_first(), budget, start - 1);
    }
}

proof fn lemma_char_sum_monotone(s: Seq<char>, k: int)
    requires
        0 <= k <= s.len(),
    ensures
        char_sum(s.skip(k)) <= char_sum(s),
    decreases k,
{
    if k == 0 {
        assert(s.skip(0) =~= s);
    } else {
        assert(s.drop_first().skip(k - 1) =~= s.skip(k));
        lemma_char_sum_monotone(s.drop_first(), k - 1);
    }
}

/// Cuts `s` on the left to at most `max` columns. A glyph that would straddle
/// the boundary goes whole.
pub fn left_truncate_ellipsis(s: &str, max: usize) -> (r: String)
    ensures
        r@ == left_truncated(s@, max as nat),
{
    if max == 0 {
        return String::new();
    }
    if str_width(s) <= max {
        return text::owned(s);
    }
    let budget: usize = max - 1;
    let chars = text::to_chars(s);
    let mut used: usize = 0;
    let mut start: usize = chars.len();
    assert(s@.skip(start as int) =~= Seq::empty());
    let mut fits = true;
    while start > 0 && fits
        invariant
            chars@ == s@,
            start <= chars@.len(),
            used == char_sum(s@.skip(start as int)),
            used <= budget,
            !fits ==> start > 0 && char_sum(s@.skip(start - 1)) > budget,
        decreases start + (if fits {
            1int
        } else {
            0int
        }),
    {
        let w = char_width_or_zero(chars[start - 1]);
        assert(s@.skip(start - 1).drop_first() =~= s@.skip(start as int));
        if w > budget - used {
            fits = false;
        } else {
            used += w;
            start -= 1;
        }
    }
    proof {
        lemma_dropped(s@, budget as int, start as int);
    }
    let tail = text::from_chars(&chars, start, chars.len());
    assert(tail@ =~= s@.skip(start as int));
    let r = text::concat("\u{2026}", tail.as_str());
    proof {
        reveal_strlit("\u{2026}");
        assert("\u{2026}"@ =~= seq!['\u{2026}']);
    }
    r
}

/// What is left of a text that was cut, the ellipsis aside, takes fewer columns
/// than the text may take.
pub proof fn law_truncation_fits(s: Seq<char>, max: nat)
    requires
        max > 0,
        width::columns(s) > max,
    ensures
        0 <= dropped(s, max - 1) <= s.len(),
        char_sum(s.skip(dropped(s, max - 1))) < max,
{
    lemma_dropped_fits(s, max - 1);
}

proof fn lemma_dropped_fits(s: Seq<char>, budget: int)
    requires
        budget >= 0,
    ensures
        0 <= dropped(s, budget) <= s.len(),
        char_sum(s.skip(dropped(s, budget))) <= budget,
    decreases s.len(),
{
    if s.len() == 0 || char_sum(s) <= budget {
        assert(s.skip(0) =~= s);
    } else {
        lemma_dropped_fits(s.drop_first(), budget);
        let k = dropped(s.drop_first(), budget);
        assert(s.drop_first().skip(k) =~= s.skip(k + 1));
    }
}

/// `s` in at most `max` characters, with an ellipsis behind them where it was
/// longer.
pub open spec fn title_form(s: Seq<char>, max: nat) -> Seq<char> {
    if s.len() <= max {
        s
    } else {
        s.take(max as int).push('\u{2026}')
    }
}

/// Caps a text for a title.
pub fn truncate_for_title(s: &str, max: usize) -> (r: String)
    ensures
        r@ == title_form(s@, max as nat),
{
    let chars = text::to_chars(s);
    if chars.len() <= max {
        return text::owned(s);
    }
    let mut out = text::from_chars(&chars, 0, max);
    assert(out@ =~= s@.take(max as int));
    out.push('\u{2026}');
    out
}

/// What stands for an unknown value in the status strip.
pub const PLACEHOLDER: &'static str = "\u{2014}";

/// The text, or the placeholder.
pub open spec fn or_placeholder(s: Option<Seq<char>>) -> Seq<char> {
    match s {
        Some(t) => t,
        None => PLACEHOLDER@,
    }
}

/// The strip's usage segment, empty where no turn has reported usage.
pub open spec fn strip_usage(usage: Option<Usage>) -> Seq<char> {
    match usage {
        Some(u) => usage_segment(u),
        None => ""@,
    }
}

/// The strip behind its directory: the model and the usage.
pub open spec fn strip_tail(model: Option<Seq<char>>, usage: Option<Usage>) -> int {
    (width::columns(" \u{00b7} "@ + or_placeholder(model)) + width::columns(strip_usage(usage))) as int
}

/// The strip's text in `available` columns. The directory gives way, from the
/// left, so that the model and the usage stay.
pub open spec fn strip_text(
    cwd: Option<Seq<char>>,
    model: Option<Seq<char>>,
    usage: Option<Usage>,
    available: nat,
) -> Seq<char> {
    let left = layout::less(available as int, 5 + strip_tail(model, usage));
    let budget = if left < 1 {
        1
    } else {
        left
    };
    "cwd: "@ + left_truncated(or_placeholder(cwd), budget as nat) + ((" \u{00b7} "@
        + or_placeholder(model)) + strip_usage(usage))
}

/// Writes the status strip: directory, model and usage in `available` columns.
pub fn status_strip_text(
    cwd: Option<&str>,
    model: Option<&str>,
    usage: Option<&Usage>,
    available: usize,
) -> (r: String)
    requires
        usage matches Some(u) ==> countable(*u),
    ensures
        r@ == strip_text(
            text::optional_str(cwd),
            text::optional_str(model),
            match usage {
                Some(u) => Some(*u),
                None => None,
            },
            available as nat,
        ),
{
    let directory = match cwd {
        Some(c) => c,
        None => PLACEHOLDER,
    };
    let model_part = text::concat(
        " \u{00b7} ",
        match model {
            Some(m) => m,
            None => PLACEHOLDER,
        },
    );
    let usage_part = match usage {
        Some(u) => context_usage_segment(u),
        None => text::owned(""),
    };
    let taken: usize = str_width(model_part.as_str()).saturating_add(
        str_width(usage_part.as_str()),
    ).saturating_add(5);
    let mut budget: usize = available.saturating_sub(taken);
    if budget < 1 {
        budget = 1;
    }
    let shown = left_truncate_ellipsis(directory, budget);
    let tail = text::concat(model_part.as_str(), usage_part.as_str());
    text::concat3("cwd: ", shown.as_str(), tail.as_str())
}

/// The columns that a title row of `area_width` columns leaves for the strip,
/// beside the title, one column of gutter and the two corners.
pub open spec fn strip_room(area_width: u16, left_title: Seq<char>) -> nat {
    layout::less(area_width as int, (width::columns(left_title) % 65536) as int + 3) as nat
}

/// The status strip as a title at the right; `None` where the row has no room.
pub fn status_strip_title(
    cwd: Option<&str>,
    model: Option<&str>,
    usage: Option<&Usage>,
    theme: &Theme,
    area_width: u16,
    left_title: &str,
) -> (r: Option<Line>)
    requires
        usage matches Some(u) ==> countable(*u),
    ensures
        r is None <==> strip_room(area_width, left_title@) == 0,
        r matches Some(line) ==> line@ == style::line_of(
            left_truncated(
                strip_text(
                    text::optional_str(cwd),
                    text::optional_str(model),
                    match usage {
                        Some(u) => Some(*u),
                        None => None,
                    },
                    strip_room(area_width, left_title@),
                ),
                strip_room(area_width, left_title@),
            ),
            style::fg(theme.dim),
        ),
{
    let taken: usize = str_width(left_title) % 65536 + 3;
    let available: usize = (area_width as usize).saturating_sub(taken);
    if available == 0 {
        return None;
    }
    let full = status_strip_text(cwd, model, usage, available);
    let shown = left_truncate_ellipsis(full.as_str(), available);
    Some(Line::styled(shown, Style::new().fg(theme.dim)))
}

/// Characters kept on each side of a search hit.
pub const SNIPPET_WINDOW: usize = 16;

/// The first character of a snippet around a hit at `col`.
pub open spec fn snippet_start(col: usize) -> int {
    layout::less(col as int, SNIPPET_WINDOW as int)
}

/// One past the last character of a snippet.
pub open spec fn snippet_end(line: Seq<char>, col: usize, query: Seq<char>) -> int {
    let hit = if query.len() == 0 {
        1
    } else {
        query.len() as int
    };
    if col + hit + SNIPPET_WINDOW < line.len() {
        col + hit + SNIPPET_WINDOW
    } else {
        line.len() as int
    }
}

/// The part of a line around a search hit, with an ellipsis where it was cut.
pub open spec fn snippet(line: Seq<char>, col: usize, query: Seq<char>) -> Seq<char> {
    let start = snippet_start(col);
    let end = snippet_end(line, col, query);
    (if start > 0 {
        seq!['\u{2026}']
    } else {
        seq![]
    }) + line.subrange(start, end) + (if end < line.len() {
        seq!['\u{2026}']
    } else {
        seq![]
    })
}

/// Cuts the part of a line around a hit at `col`.
pub fn search_snippet_from(line_text: &str, col: usize, query: &str) -> (r: String)
    requires
        snippet_start(col) <= line_text@.len(),
    ensures
        r@ == snippet(line_text@, col, query@),
{
    let chars = text::to_chars(line_text);
    let query_chars = text::to_chars(query);
    let mut hit: usize = query_chars.len();
    if hit < 1 {
        hit = 1;
    }
    let start: usize = col.saturating_sub(SNIPPET_WINDOW);
    let mut end: usize = col.saturating_add(hit).saturating_add(SNIPPET_WINDOW);
    if end > chars.len() {
        end = chars.len();
    }
    let mut s = String::new();
    if start > 0 {
        s.push('\u{2026}');
    }
    let middle = text::from_chars(&chars, start, end);
    s.append(middle.as_str());
    if end < chars.len() {
        s.push('\u{2026}');
    }
    assert(s@ =~= snippet(line_text@, col, query@));
    s
}

/// The snippet of a hit in the active thread.
pub fn search_snippet(m: &SearchMatch, query: &str) -> (r: String)
    requires
        snippet_start(m.col) <= m.line_text@.len(),
    ensures
        r@ == snippet(m.line_text@, m.col, query@),
{
    search_snippet_from(m.line_text.as_str(), m.col, query)
}

/// The snippet of a hit in any thread.
pub fn search_snippet_all(m: &GlobalSearchMatch, query: &str) -> (r: String)
    requires
        snippet_start(m.col) <= m.line_text@.len(),
    ensures
        r@ == snippet(m.line_text@, m.col, query@),
{
    search_snippet_from(m.line_text.as_str(), m.col, query)
}

/// A snippet shows its hit whole, with up to sixteen characters of the line on
/// either side, and an ellipsis where the line goes on.
pub proof fn law_snippet_shows_the_hit(line: Seq<char>, col: usize, query: Seq<char>)
    requires
        query.len() > 0,
        col + query.len() <= line.len(),
    ensures
        ({
            let from = if col > 16 {
                col - 16
            } else {
                0
            };
            let end = col + query.len() + 16;
            let to = if end < line.len() {
                end
            } else {
                line.len() as int
            };
            let lead = if from > 0 {
                seq!['\u{2026}']
            } else {
                Seq::empty()
            };
            let shown = snippet(line, col, query);
            &&& shown == lead + line.subrange(from, to) + (if to < line.len() {
                seq!['\u{2026}']
            } else {
                Seq::empty()
            })
            &&& shown.subrange(lead.len() + col - from, lead.len() + col - from + query.len())
                == line.subrange(col as int, col + query.len())
        }),
{
    let from = if col > 16 {
        col - 16
    } else {
        0
    };
    let lead: Seq<char> = if from > 0 {
        seq!['\u{2026}']
    } else {
        Seq::empty()
    };
    let shown = snippet(line, col, query);
    assert(shown.subrange(lead.len() + col - from, lead.len() + col - from + query.len())
        =~= line.subrange(col as int, col + query.len()));
}

/// Counts read in full below a thousand, else in thousands or millions with one
/// digit behind the point.
pub proof fn law_short_counts_read(n: nat)
    ensures
        n < 1000 ==> short_count(n) == text::decimal(n),
        1000 <= n < 1_000_000 ==> short_count(n) == text::decimal(n / 1000) + "."@ + (
        text::decimal(n % 1000 / 100) + "k"@),
        n >= 1_000_000 ==> short_count(n) == text::decimal(n / 1_000_000) + "."@ + (text::decimal(
            n % 1_000_000 / 100_000,
        ) + "M"@),
{
    if 1000 <= n < 1_000_000 {
        assert((n % 1000) * 10 / 1000 == n % 1000 / 100) by (nonlinear_arith);
    } else if n >= 1_000_000 {
        assert((n % 1_000_000) * 10 / 1_000_000 == n % 1_000_000 / 100_000) by (nonlinear_arith);
    }
}

/// The usage tells the tokens in use, and of a known window its share in whole
/// percent and its size.
pub proof fn law_usage_reads(usage: Usage)
    ensures
        usage.context_window is None || usage.context_window == Some(0u64) ==> usage_segment(usage)
            == " \u{00b7} ctx "@ + short_count(usage.input_tokens as nat),
        usage.context_window matches Some(w) ==> w > 0 ==> usage_segment(usage)
            == " \u{00b7} ctx "@ + text::decimal((usage.input_tokens as nat * 100) / (w as nat))
            + ("% ("@ + short_count(usage.input_tokens as nat) + ("/"@ + short_count(w as nat)
            + ")"@)),
{
}

proof fn lemma_least_dropped(s: Seq<char>, budget: int)
    requires
        budget >= 0,
    ensures
        0 <= dropped(s, budget) <= s.len(),
        char_sum(s.skip(dropped(s, budget))) <= budget,
        forall|k: int| 0 <= k < dropped(s, budget) ==> char_sum(#[trigger] s.skip(k)) > budget,
    decreases s.len(),
{
    assert(s.skip(0) =~= s);
    if s.len() > 0 && char_sum(s) > budget {
        let rest = s.drop_first();
        lemma_least_dropped(rest, budget);
        let n = dropped(s, budget);
        assert(s.skip(n) =~= rest.skip(n - 1));
        assert forall|k: int| 0 <= k < n implies char_sum(#[trigger] s.skip(k)) > budget by {
            if k > 0 {
                assert(s.skip(k) =~= rest.skip(k - 1));
            }
        }
    }
}

/// A path that is too wide keeps its end, as much of it as fits behind an
/// ellipsis; one that fits stays as it is.
pub proof fn law_truncation_keeps_the_end(s: Seq<char>, max: nat)
    requires
        max > 0,
    ensures
        width::columns(s) <= max ==> left_truncated(s, max) == s,
        width::columns(s) > max ==> {
            let shown = left_truncated(s, max);
            let n = s.len() - (shown.len() - 1);
            &&& shown.len() >= 1 && shown[0] == '\u{2026}'
            &&& 0 <= n <= s.len()
            &&& shown.skip(1) == s.skip(n)
            &&& char_sum(s.skip(n)) <= max - 1
            &&& n > 0 ==> char_sum(s.skip(n - 1)) > max - 1
        },
{
    if width::columns(s) > max {
        lemma_least_dropped(s, max - 1);
        let n = dropped(s, max - 1);
        let shown = left_truncated(s, max);
        assert(shown.skip(1) =~= s.skip(n));
        assert(s.len() - (shown.len() - 1) == n);
    }
}

/// A title that is too long is cut behind its first characters, with an ellipsis.
pub proof fn law_titles_are_cut(s: Seq<char>, max: nat)
    ensures
        s.len() <= max ==> title_form(s, max) == s,
        s.len() > max ==> title_form(s, max).len() == max + 1 && title_form(s, max).last()
            == '\u{2026}' && title_form(s, max).take(max as int) == s.take(max as int),
{
    if s.len() > max {
        assert(title_form(s, max).take(max as int) =~= s.take(max as int));
    }
}

/// The strip tells the directory, the model and the usage, with a dash for what
/// is not known; only the directory is cut where the room is short.
pub proof fn law_strip_reads(
    cwd: Option<Seq<char>>,
    model: Option<Seq<char>>,
    usage: Option<Usage>,
    available: nat,
)
    ensures
        ({
            let known = |s: Option<Seq<char>>|
                match s {
                    Some(t) => t,
                    None => "\u{2014}"@,
                };
            let tail = (" \u{00b7} "@ + known(model)) + (match usage {
                Some(u) => usage_segment(u),
                None => ""@,
            });
            let taken = 5 + width::columns(" \u{00b7} "@ + known(model)) + width::columns(
                match usage {
                    Some(u) => usage_segment(u),
                    None => ""@,
                },
            );
            let room = if available > taken {
                available - taken
            } else {
                1
            };
            strip_text(cwd, model, usage, available) == "cwd: "@ + left_truncated(
                known(cwd),
                room as nat,
            ) + tail
        }),
{
}

/// The snippet of a match shows its hit whole.
pub proof fn law_snippet_of_a_match(m: &SearchMatch, query: &str, r: String)
    requires
        call_ensures(search_snippet, (m, query), r),
        query@.len() > 0,
        m.col + query@.len() <= m.line_text@.len(),
    ensures
        exists|at: int|
            0 <= at <= at + query@.len() <= r@.len() && #[trigger] r@.subrange(
                at,
                at + query@.len(),
            ) == m.line_text@.subrange(m.col as int, m.col + query@.len()),
{
    law_snippet_shows_the_hit(m.line_text@, m.col, query@);
    let from = if m.col > 16 {
        m.col - 16
    } else {
        0
    };
    let lead = if from > 0 {
        1int
    } else {
        0int
    };
    let at = lead + m.col - from;
    assert(r@.subrange(at, at + query@.len()) == m.line_text@.subrange(
        m.col as int,
        m.col + query@.len(),
    ));
}

/// A path that fits is shown whole, a longer one by its end.
pub proof fn law_path_keeps_its_end(s: &str, max: usize, r: String)
    requires
        call_ensures(left_truncate_ellipsis, (s, max), r),
        max > 0,
    ensures
        width::columns(s@) <= max ==> r@ == s@,
        width::columns(s@) > max ==> r@.len() >= 1 && r@[0] == '\u{2026}' && r@.len() - 1
            <= s@.len() && r@.skip(1) == s@.skip(s@.len() - (r@.len() - 1)),
{
    law_truncation_keeps_the_end(s@, max as nat);
}

} // verus!
