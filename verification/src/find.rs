//! Finding text: in the lines of a thread, and in the diagnostics log. Letters
//! match in either ASCII case.

use vstd::prelude::*;
use crate::app::{LogEntry, LogSearch, LogViewerState, SearchMatch};
use crate::ui::search::near;
use crate::wrap::ranges;
use crate::{text, wrap};

verus! {

/// Whether `line` reads `query` from its character `at` on, in either case.
pub open spec fn reads(line: Seq<char>, query: Seq<char>, at: int) -> bool {
    &&& 0 <= at
    &&& at + query.len() <= line.len()
    &&& text::ascii_lowercase(line.subrange(at, at + query.len())) == text::ascii_lowercase(query)
}

/// The first place from `from` on where `line` reads `query`.
pub open spec fn first_hit(line: Seq<char>, query: Seq<char>, from: int) -> Option<int>
    decreases line.len() + 1 - from,
{
    if from < 0 || from + query.len() > line.len() {
        None
    } else if reads(line, query, from) {
        Some(from)
    } else {
        first_hit(line, query, from + 1)
    }
}

/// The first hit is one, and none stands before it.
pub proof fn lemma_first_hit(line: Seq<char>, query: Seq<char>, from: int)
    requires
        0 <= from,
    ensures
        match first_hit(line, query, from) {
            Some(k) => from <= k && reads(line, query, k) && forall|j: int|
                from <= j < k ==> !reads(line, query, j),
            None => forall|j: int| from <= j ==> !reads(line, query, j),
        },
    decreases line.len() + 1 - from,
{
    if from + query.len() <= line.len() && !reads(line, query, from) {
        lemma_first_hit(line, query, from + 1);
    }
}

/// The hits of `query` in `line` from `from` on, one behind the other. An empty
/// query has none.
pub open spec fn hits_from(line: Seq<char>, query: Seq<char>, from: int) -> Seq<(int, int)>
    decreases line.len() - from,
{
    if from < 0 || query.len() == 0 {
        Seq::empty()
    } else {
        match first_hit(line, query, from) {
            Some(k) => {
                proof {
                    lemma_first_hit(line, query, from);
                }
                seq![(k, k + query.len() as int)] + hits_from(line, query, k + query.len() as int)
            },
            None => Seq::empty(),
        }
    }
}

/// The hits of `query` in `line`.
pub open spec fn line_hits(line: Seq<char>, query: Seq<char>) -> Seq<(int, int)> {
    hits_from(line, query, 0)
}

/// A line has a hit if and only if it reads the query somewhere.
pub proof fn law_hits_are_found(line: Seq<char>, query: Seq<char>)
    requires
        query.len() > 0,
    ensures
        line_hits(line, query).len() > 0 <==> exists|k: int| reads(line, query, k),
{
    lemma_first_hit(line, query, 0);
}

/// Every hit lies in the line, and reads the query.
pub proof fn law_hits_read(line: Seq<char>, query: Seq<char>, i: int)
    requires
        0 <= i < line_hits(line, query).len(),
    ensures
        ({
            let (from, to) = line_hits(line, query)[i];
            &&& reads(line, query, from)
            &&& to == from + query.len()
            &&& to <= line.len()
        }),
{
    lemma_hits_read(line, query, 0, i);
}

proof fn lemma_hits_read(line: Seq<char>, query: Seq<char>, from: int, i: int)
    requires
        0 <= from,
        0 <= i < hits_from(line, query, from).len(),
    ensures
        from <= hits_from(line, query, from)[i].0,
        reads(line, query, hits_from(line, query, from)[i].0),
        hits_from(line, query, from)[i].1 == hits_from(line, query, from)[i].0 + query.len(),
    decreases i,
{
    lemma_first_hit(line, query, from);
    if i > 0 {
        let k = first_hit(line, query, from)->0;
        lemma_hits_read(line, query, k + query.len() as int, i - 1);
    }
}

fn reads_at(line: &Vec<char>, query: &Vec<char>, at: usize) -> (r: bool)
    requires
        at + query@.len() <= line@.len(),
    ensures
        r == reads(line@, query@, at as int),
{
    let ghost here = line@.subrange(at as int, at + query@.len());
    let len: usize = line.len();
    let mut i: usize = 0;
    while i < query.len()
        invariant
            len == line@.len(),
            at + query@.len() <= len,
            here == line@.subrange(at as int, at + query@.len()),
            i <= query@.len(),
            forall|j: int|
                0 <= j < i ==> text::ascii_lower(#[trigger] here[j]) == text::ascii_lower(
                    query@[j],
                ),
        decreases query@.len() - i,
    {
        assert(here[i as int] == line@[at + i]);
        if line[at + i].to_ascii_lowercase() != query[i].to_ascii_lowercase() {
            assert(text::ascii_lowercase(here)[i as int] != text::ascii_lowercase(
                query@,
            )[i as int]);
            return false;
        }
        i += 1;
    }
    assert(text::ascii_lowercase(here) =~= text::ascii_lowercase(query@));
    true
}

/// Lists the hits of `query` in `line`.
pub fn hits_in(line: &str, query: &str) -> (r: Vec<(usize, usize)>)
    ensures
        ranges(r@) == line_hits(line@, query@),
{
    let chars = text::to_chars(line);
    let wanted = text::to_chars(query);
    let mut out: Vec<(usize, usize)> = Vec::new();
    let ghost goal = line_hits(line@, query@);
    assert(ranges(out@) =~= Seq::empty());
    if wanted.len() == 0 {
        return out;
    }
    let mut at: usize = 0;
    assert(ranges(out@) + goal =~= goal);
    while at <= chars.len() && wanted.len() <= chars.len() - at
        invariant
            chars@ == line@,
            wanted@ == query@,
            query@.len() > 0,
            at <= chars@.len(),
            goal == ranges(out@) + hits_from(line@, query@, at as int),
        decreases chars@.len() - at,
    {
        proof {
            reveal_with_fuel(first_hit, 2);
        }
        if reads_at(&chars, &wanted, at) {
            let ghost rest = hits_from(line@, query@, at + query@.len());
            let end: usize = at + wanted.len();
            proof {
                wrap::lemma_ranges_push(out@, at, end);
                assert(ranges(out@) + (seq![(at as int, end as int)] + rest) =~= ranges(
                    out@,
                ).push((at as int, end as int)) + rest);
            }
            out.push((at, end));
            at = end;
        } else {
            at += 1;
        }
    }
    assert(ranges(out@) + Seq::<(int, int)>::empty() =~= ranges(out@));
    out
}

/// What a search hit of a thread holds.
#[verifier::ext_equal]
pub struct HitView {
    pub message_index: int,
    pub line_index: int,
    pub col: int,
    pub line_text: Seq<char>,
}

/// What a list of search hits holds.
pub open spec fn hit_views(v: Seq<SearchMatch>) -> Seq<HitView> {
    Seq::new(
        v.len(),
        |i: int|
            HitView {
                message_index: v[i].message_index as int,
                line_index: v[i].line_index as int,
                col: v[i].col as int,
                line_text: v[i].line_text@,
            },
    )
}

/// The hits in the first `n` of a message's lines: one for each place where a
/// line reads the query.
pub open spec fn message_hits(
    lines: Seq<Seq<char>>,
    query: Seq<char>,
    message_index: int,
    n: int,
) -> Seq<HitView>
    decreases n,
{
    if n <= 0 {
        Seq::empty()
    } else {
        let here = line_hits(lines[n - 1], query);
        message_hits(lines, query, message_index, n - 1) + Seq::new(
            here.len(),
            |i: int|
                HitView {
                    message_index,
                    line_index: n - 1,
                    col: here[i].0,
                    line_text: lines[n - 1],
                },
        )
    }
}

/// Finds `query` in the lines of one message, behind the hits of `out`. Every
/// hit is near enough to its line to be shown.
pub fn find_in_message(
    out: &mut Vec<SearchMatch>,
    lines: &Vec<String>,
    query: &str,
    message_index: usize,
)
    requires
        forall|i: int|
            0 <= i < old(out)@.len() ==> near((#[trigger] old(out)@[i]).line_text, old(out)@[i].col),
    ensures
        hit_views(final(out)@) == hit_views(old(out)@) + message_hits(
            text::texts(lines@),
            query@,
            message_index as int,
            lines@.len() as int,
        ),
        forall|i: int|
            0 <= i < final(out)@.len() ==> near(
                (#[trigger] final(out)@[i]).line_text,
                final(out)@[i].col,
            ),
{
    let ghost all = text::texts(lines@);
    let ghost before = hit_views(out@);
    let mut n: usize = 0;
    assert(before + message_hits(all, query@, message_index as int, 0) =~= before);
    while n < lines.len()
        invariant
            n <= lines@.len(),
            all == text::texts(lines@),
            hit_views(out@) == before + message_hits(all, query@, message_index as int, n as int),
            forall|i: int|
                0 <= i < out@.len() ==> near((#[trigger] out@[i]).line_text, out@[i].col),
        decreases lines@.len() - n,
    {
        assert(all[n as int] == lines@[n as int]@);
        let found = hits_in(lines[n].as_str(), query);
        let ghost here = line_hits(all[n as int], query@);
        let ghost begun = hit_views(out@);
        let ghost own = Seq::new(
            here.len(),
            |i: int|
                HitView {
                    message_index: message_index as int,
                    line_index: n as int,
                    col: here[i].0,
                    line_text: all[n as int],
                },
        );
        let mut i: usize = 0;
        assert(found@.len() == here.len());
        assert(begun + own.take(0) =~= begun);
        while i < found.len()
            invariant
                n < lines@.len(),
                i <= found@.len(),
                all[n as int] == lines@[n as int]@,
                here == line_hits(all[n as int], query@),
                ranges(found@) == here,
                own == Seq::new(
                    here.len(),
                    |i: int|
                        HitView {
                            message_index: message_index as int,
                            line_index: n as int,
                            col: here[i].0,
                            line_text: all[n as int],
                        },
                ),
                hit_views(out@) == begun + own.take(i as int),
                forall|i: int|
                    0 <= i < out@.len() ==> near((#[trigger] out@[i]).line_text, out@[i].col),
            decreases found@.len() - i,
        {
            let ghost old_out = out@;
            proof {
                assert(here[i as int] == (found@[i as int].0 as int, found@[i as int].1 as int));
                law_hits_read(all[n as int], query@, i as int);
            }
            let m = SearchMatch {
                message_index,
                line_index: n,
                col: found[i].0,
                line_text: lines[n].clone(),
            };
            out.push(m);
            i += 1;
            proof {
                assert(own.take(i as int) =~= own.take(i - 1).push(own[i - 1]));
                assert(hit_views(out@) =~= hit_views(old_out).push(own[i - 1]));
                assert(begun + own.take(i as int) =~= (begun + own.take(i - 1)).push(own[i - 1]));
            }
        }
        assert(own.take(i as int) =~= own);
        n += 1;
        proof {
            let done = message_hits(all, query@, message_index as int, n - 1);
            assert(before + done + own =~= before + (done + own));
        }
    }
}

/// The lines among the first `n` of a log that have a hit.
pub open spec fn lines_hit(lines: Seq<LogEntry>, pattern: Seq<char>, n: int) -> Seq<usize>
    decreases n,
{
    if n <= 0 {
        Seq::empty()
    } else if line_hits(lines[n - 1].text@, pattern).len() > 0 {
        lines_hit(lines, pattern, n - 1).push((n - 1) as usize)
    } else {
        lines_hit(lines, pattern, n - 1)
    }
}

/// Lists the lines of a log that have a hit.
pub fn find_in_log(lines: &Vec<LogEntry>, pattern: &str) -> (r: Vec<usize>)
    ensures
        r@ == lines_hit(lines@, pattern@, lines@.len() as int),
        forall|i: int| 0 <= i < r@.len() ==> #[trigger] r@[i] < lines@.len(),
{
    let mut out: Vec<usize> = Vec::new();
    let mut n: usize = 0;
    while n < lines.len()
        invariant
            n <= lines@.len(),
            out@ == lines_hit(lines@, pattern@, n as int),
            forall|i: int| 0 <= i < out@.len() ==> #[trigger] out@[i] < n,
        decreases lines@.len() - n,
    {
        let found = hits_in(lines[n].text.as_str(), pattern);
        assert(ranges(found@).len() == found@.len());
        if found.len() > 0 {
            out.push(n);
        }
        n += 1;
    }
    out
}

/// The first of `matches` that is at least `least`.
pub open spec fn first_from(matches: Seq<usize>, least: int) -> Option<int>
    decreases matches.len(),
{
    if matches.len() == 0 {
        None
    } else if matches[0] >= least {
        Some(0)
    } else {
        match first_from(matches.drop_first(), least) {
            Some(i) => Some(i + 1),
            None => None,
        }
    }
}

proof fn lemma_first_from(matches: Seq<usize>, least: int, k: int)
    requires
        0 <= k <= matches.len(),
        forall|j: int| 0 <= j < k ==> (#[trigger] matches[j]) < least,
        k < matches.len() ==> matches[k] >= least,
    ensures
        first_from(matches, least) == (if k < matches.len() {
            Some(k)
        } else {
            None
        }),
    decreases matches.len(),
{
    if k > 0 {
        assert(matches[0] < least);
        assert forall|j: int| 0 <= j < k - 1 implies (#[trigger] matches.drop_first()[j])
            < least by {
            assert(matches.drop_first()[j] == matches[j + 1]);
        }
        lemma_first_from(matches.drop_first(), least, k - 1);
    }
}

fn place_from(matches: &Vec<usize>, least: usize) -> (r: Option<usize>)
    ensures
        match r {
            Some(i) => i < matches@.len() && first_from(matches@, least as int) == Some(i as int),
            None => first_from(matches@, least as int) is None,
        },
{
    let mut i: usize = 0;
    while i < matches.len()
        invariant
            i <= matches@.len(),
            forall|j: int| 0 <= j < i ==> (#[trigger] matches@[j]) < least,
        decreases matches@.len() - i,
    {
        if matches[i] >= least {
            proof {
                lemma_first_from(matches@, least as int, i as int);
            }
            return Some(i);
        }
        i += 1;
    }
    proof {
        lemma_first_from(matches@, least as int, matches@.len() as int);
    }
    None
}

/// The hit behind the current one, around the end. Where none is current, the
/// first one below the cursor.
pub open spec fn next_place(search: LogSearch, cursor: int) -> int {
    match search.current {
        Some(i) => if i + 1 < search.matches@.len() {
            i + 1
        } else {
            0
        },
        None => match first_from(search.matches@, cursor + 1) {
            Some(i) => i,
            None => 0,
        },
    }
}

/// The hit before the current one, around the end. Where none is current, the
/// last one above the cursor.
pub open spec fn previous_place(search: LogSearch, cursor: int) -> int {
    let at = match search.current {
        Some(i) => i as int,
        None => match first_from(search.matches@, cursor) {
            Some(i) => i,
            None => search.matches@.len() as int,
        },
    };
    if at > 0 {
        at - 1
    } else {
        search.matches@.len() - 1
    }
}

/// Whether `after` is the search `before`, taken over to `lines`: its hits there,
/// and the current one where there still is such a hit.
pub open spec fn reindexed(
    before: Option<LogSearch>,
    after: Option<LogSearch>,
    lines: Seq<LogEntry>,
) -> bool {
    match (before, after) {
        (Some(a), Some(b)) => {
            &&& b.pattern@ == a.pattern@
            &&& b.matches@ == lines_hit(lines, a.pattern@, lines.len() as int)
            &&& b.current == (match a.current {
                Some(i) if i < b.matches@.len() => Some(i),
                _ => None,
            })
        },
        (None, None) => true,
        _ => false,
    }
}

/// Whether `after` is the viewer `before` once the typed pattern took effect: its
/// hits, with none of them current, and the cursor on the nearest one from its
/// line on, or else on the first. An empty pattern switches the search off.
pub open spec fn committed(before: LogViewerState, after: LogViewerState) -> bool {
    match before.search_buf {
        Some(pattern) => {
            let hits = lines_hit(before.lines@, pattern@, before.lines@.len() as int);
            &&& after == (LogViewerState {
                search_buf: None,
                search: after.search,
                cursor: after.cursor,
                ..before
            })
            &&& if pattern@.len() == 0 {
                after.search is None && after.cursor == before.cursor
            } else {
                &&& after.search matches Some(s) && s.pattern@ == pattern@ && s.matches@ == hits
                    && s.current is None
                &&& after.cursor == (match first_from(hits, before.cursor as int) {
                    Some(i) => hits[i],
                    None => if hits.len() > 0 {
                        hits[0]
                    } else {
                        before.cursor
                    },
                })
            }
        },
        None => after == before,
    }
}

/// Whether `after` is the viewer `before` after a step to another hit. Without a
/// hit nothing moves.
pub open spec fn walked(before: LogViewerState, after: LogViewerState, forward: bool) -> bool {
    match before.search {
        Some(s) if s.matches@.len() > 0 => {
            let place = if forward {
                next_place(s, before.cursor as int)
            } else {
                previous_place(s, before.cursor as int)
            };
            &&& 0 <= place < s.matches@.len()
            &&& after == (LogViewerState {
                cursor: s.matches@[place],
                search: Some(LogSearch { current: Some(place as usize), ..s }),
                ..before
            })
        },
        _ => after == before,
    }
}

impl LogViewerState {
    /// Finds the hits of the search again: new lines can add some.
    pub fn reindex_search(&mut self)
        ensures
            reindexed(old(self).search, final(self).search, old(self).lines@),
            *final(self) == (LogViewerState { search: final(self).search, ..*old(self) }),
            final(self).search_fits(),
    {
        match self.search.take() {
            Some(s) => {
                let matches = find_in_log(&self.lines, s.pattern.as_str());
                let current = match s.current {
                    Some(i) => if i < matches.len() {
                        Some(i)
                    } else {
                        None
                    },
                    None => None,
                };
                self.search = Some(LogSearch { pattern: s.pattern, matches, current });
            },
            None => {},
        }
    }

    /// Whether the current hit of the search, if any, is one of its hits.
    pub open spec fn search_fits(self) -> bool {
        self.search matches Some(s) ==> (s.current matches Some(i) ==> i < s.matches@.len())
    }

    /// Takes over the pattern that was typed.
    pub fn commit_search(&mut self)
        ensures
            committed(*old(self), *final(self)),
            old(self).search_fits() ==> final(self).search_fits(),
    {
        match self.search_buf.take() {
            Some(pattern) => {
                if pattern.as_str().is_empty() {
                    self.search = None;
                } else {
                    let matches = find_in_log(&self.lines, pattern.as_str());
                    match place_from(&matches, self.cursor) {
                        Some(i) => {
                            self.cursor = matches[i];
                        },
                        None => {
                            if matches.len() > 0 {
                                self.cursor = matches[0];
                            }
                        },
                    }
                    self.search = Some(LogSearch { pattern, matches, current: None });
                }
            },
            None => {},
        }
    }

    /// Moves to another hit, `forward` or back, around the ends.
    pub fn walk_search(&mut self, forward: bool)
        requires
            old(self).search_fits(),
            old(self).cursor < usize::MAX,
        ensures
            final(self).search_fits(),
            walked(*old(self), *final(self), forward),
    {
        match self.search.take() {
            Some(mut s) => {
                let count: usize = s.matches.len();
                if count > 0 {
                    let place: usize = if forward {
                        match s.current {
                            Some(i) => if i + 1 < count {
                                i + 1
                            } else {
                                0
                            },
                            None => match place_from(&s.matches, self.cursor + 1) {
                                Some(i) => i,
                                None => 0,
                            },
                        }
                    } else {
                        let at: usize = match s.current {
                            Some(i) => i,
                            None => match place_from(&s.matches, self.cursor) {
                                Some(i) => i,
                                None => count,
                            },
                        };
                        if at > 0 {
                            at - 1
                        } else {
                            count - 1
                        }
                    };
                    self.cursor = s.matches[place];
                    s.current = Some(place);
                }
                self.search = Some(s);
            },
            None => {},
        }
    }
}

/// One step forward and one back come to the hit where they began.
pub proof fn law_walk_comes_back(s: LogSearch, cursor: int, i: usize)
    requires
        s.current == Some(i),
        i < s.matches@.len() <= usize::MAX,
    ensures
        previous_place(
            (LogSearch { current: Some(next_place(s, cursor) as usize), ..s }),
            cursor,
        ) == i,
{
}

/// A line reads a query at a place if and only if it has a character there for
/// each of the query's, the same but for the case of ASCII letters.
pub proof fn law_reads_in_either_case(line: Seq<char>, query: Seq<char>, at: int)
    ensures
        reads(line, query, at) <==> (0 <= at && at + query.len() <= line.len() && forall|j: int|
            0 <= j < query.len() ==> text::ascii_lower(#[trigger] query[j]) == text::ascii_lower(
                line[at + j],
            )),
{
    if 0 <= at && at + query.len() <= line.len() {
        let here = line.subrange(at, at + query.len());
        if reads(line, query, at) {
            assert forall|j: int| 0 <= j < query.len() implies text::ascii_lower(
                #[trigger] query[j],
            ) == text::ascii_lower(line[at + j]) by {
                assert(text::ascii_lowercase(here)[j] == text::ascii_lowercase(query)[j]);
                assert(here[j] == line[at + j]);
            }
        }
        if forall|j: int|
            0 <= j < query.len() ==> text::ascii_lower(#[trigger] query[j]) == text::ascii_lower(
                line[at + j],
            ) {
            assert(text::ascii_lowercase(here) =~= text::ascii_lowercase(query));
        }
    }
}

proof fn lemma_hits_complete(line: Seq<char>, query: Seq<char>, from: int, k: int)
    requires
        query.len() > 0,
        0 <= from <= k,
        reads(line, query, k),
    ensures
        exists|i: int|
            0 <= i < hits_from(line, query, from).len() && (#[trigger] hits_from(
                line,
                query,
                from,
            )[i]).0 <= k < hits_from(line, query, from)[i].1,
    decreases line.len() - from,
{
    lemma_first_hit(line, query, from);
    let all = hits_from(line, query, from);
    let first = first_hit(line, query, from)->0;
    let next = first + query.len() as int;
    if k < next {
        assert(all[0] == (first, next));
    } else {
        let rest = hits_from(line, query, next);
        lemma_hits_complete(line, query, next, k);
        let i = choose|i: int| 0 <= i < rest.len() && (#[trigger] rest[i]).0 <= k < rest[i].1;
        assert(all[i + 1] == rest[i]);
    }
}

proof fn lemma_hits_in_order(line: Seq<char>, query: Seq<char>, from: int, i: int)
    requires
        0 <= from,
        0 <= i < hits_from(line, query, from).len(),
    ensures
        i == 0 ==> forall|k: int|
            from <= k < hits_from(line, query, from)[0].0 ==> !reads(line, query, k),
        i > 0 ==> hits_from(line, query, from)[i - 1].1 <= hits_from(line, query, from)[i].0,
        i > 0 ==> forall|k: int|
            hits_from(line, query, from)[i - 1].1 <= k < hits_from(line, query, from)[i].0
                ==> !reads(line, query, k),
    decreases i,
{
    lemma_first_hit(line, query, from);
    if i > 0 {
        let next = first_hit(line, query, from)->0 + query.len() as int;
        let rest = hits_from(line, query, next);
        let all = hits_from(line, query, from);
        assert(all[i] == rest[i - 1]);
        lemma_hits_in_order(line, query, next, i - 1);
        lemma_hits_read(line, query, next, i - 1);
        if i > 1 {
            assert(all[i - 1] == rest[i - 2]);
        }
    }
}

/// The hits of a line are all of them: they follow each other without overlap,
/// the line reads the query at no place between two of them, and every place
/// where it does read it lies in one.
pub proof fn law_hits_are_all(line: Seq<char>, query: Seq<char>)
    requires
        query.len() > 0,
    ensures
        forall|i: int|
            0 < i < line_hits(line, query).len() ==> line_hits(line, query)[i - 1].1 <= (
            #[trigger] line_hits(line, query)[i]).0,
        forall|i: int, k: int|
            0 < i < line_hits(line, query).len() && line_hits(line, query)[i - 1].1 <= k < (
            #[trigger] line_hits(line, query)[i]).0 ==> !#[trigger] reads(line, query, k),
        forall|k: int|
            0 <= k && #[trigger] reads(line, query, k) ==> exists|i: int|
                0 <= i < line_hits(line, query).len() && (#[trigger] line_hits(line, query)[i]).0
                    <= k < line_hits(line, query)[i].1,
{
    let all = line_hits(line, query);
    assert forall|i: int| 0 < i < all.len() implies all[i - 1].1 <= (#[trigger] all[i]).0 by {
        lemma_hits_in_order(line, query, 0, i);
    }
    assert forall|i: int, k: int|
        0 < i < all.len() && all[i - 1].1 <= k < (#[trigger] all[i]).0 implies !#[trigger] reads(
        line,
        query,
        k,
    ) by {
        lemma_hits_in_order(line, query, 0, i);
    }
    assert forall|k: int| 0 <= k && #[trigger] reads(line, query, k) implies exists|i: int|
        0 <= i < all.len() && (#[trigger] all[i]).0 <= k < all[i].1 by {
        lemma_hits_complete(line, query, 0, k);
    }
}

/// How many hits the first `n` of some lines have, counted line by line.
pub open spec fn hits_before(lines: Seq<Seq<char>>, query: Seq<char>, n: int) -> int
    decreases n,
{
    if n <= 0 {
        0
    } else {
        hits_before(lines, query, n - 1) + line_hits(lines[n - 1], query).len()
    }
}

proof fn lemma_hits_before(lines: Seq<Seq<char>>, query: Seq<char>, m: int, n: int)
    requires
        0 <= m <= n,
    ensures
        0 <= hits_before(lines, query, m) <= hits_before(lines, query, n),
    decreases n,
{
    if m < n {
        lemma_hits_before(lines, query, m, n - 1);
    } else if n > 0 {
        lemma_hits_before(lines, query, m - 1, n - 1);
    }
}

proof fn lemma_message_hits(lines: Seq<Seq<char>>, query: Seq<char>, message_index: int, n: int)
    requires
        0 <= n <= lines.len(),
    ensures
        message_hits(lines, query, message_index, n).len() == hits_before(lines, query, n),
        forall|l: int, i: int|
            #![trigger hits_before(lines, query, l), line_hits(lines[l], query)[i]]
            0 <= l < n && 0 <= i < line_hits(lines[l], query).len() ==> message_hits(
                lines,
                query,
                message_index,
                n,
            )[hits_before(lines, query, l) + i] == (HitView {
                message_index,
                line_index: l,
                col: line_hits(lines[l], query)[i].0,
                line_text: lines[l],
            }),
    decreases n,
{
    if n > 0 {
        lemma_message_hits(lines, query, message_index, n - 1);
        let all = message_hits(lines, query, message_index, n);
        let before = message_hits(lines, query, message_index, n - 1);
        assert forall|l: int, i: int|
            #![trigger hits_before(lines, query, l), line_hits(lines[l], query)[i]]
            0 <= l < n && 0 <= i < line_hits(lines[l], query).len() implies all[hits_before(
            lines,
            query,
            l,
        ) + i] == (HitView {
            message_index,
            line_index: l,
            col: line_hits(lines[l], query)[i].0,
            line_text: lines[l],
        }) by {
            lemma_hits_before(lines, query, 0, l);
            if l < n - 1 {
                lemma_hits_before(lines, query, l + 1, n - 1);
                assert(hits_before(lines, query, l + 1) == hits_before(lines, query, l)
                    + line_hits(lines[l], query).len());
                assert(all[hits_before(lines, query, l) + i] == before[hits_before(
                    lines,
                    query,
                    l,
                ) + i]);
            }
        }
    }
}

/// The list of matches of a message holds each hit of each of its lines exactly
/// once, line after line, with its line, its column and its text.
pub proof fn law_every_place_is_listed(
    lines: Seq<Seq<char>>,
    query: Seq<char>,
    message_index: int,
    l: int,
    i: int,
)
    requires
        0 <= l < lines.len(),
        0 <= i < line_hits(lines[l], query).len(),
    ensures
        ({
            let found = message_hits(lines, query, message_index, lines.len() as int);
            let at = hits_before(lines, query, l) + i;
            &&& found.len() == hits_before(lines, query, lines.len() as int)
            &&& 0 <= at < found.len()
            &&& found[at].message_index == message_index
            &&& found[at].line_index == l
            &&& found[at].col == line_hits(lines[l], query)[i].0
            &&& found[at].line_text == lines[l]
        }),
{
    lemma_message_hits(lines, query, message_index, lines.len() as int);
    let own = line_hits(lines[l], query)[i];
    lemma_hits_before(lines, query, 0, l);
    lemma_hits_before(lines, query, l + 1, lines.len() as int);
    assert(message_hits(lines, query, message_index, lines.len() as int)[hits_before(
        lines,
        query,
        l,
    ) + i].col == own.0);
    assert(hits_before(lines, query, l + 1) == hits_before(lines, query, l) + line_hits(
        lines[l],
        query,
    ).len());
}

/// Every match of a message is a place where one of its lines reads the query.
pub proof fn law_matches_read(
    lines: Seq<Seq<char>>,
    query: Seq<char>,
    message_index: int,
    n: int,
    j: int,
)
    requires
        0 <= n <= lines.len(),
        0 <= j < message_hits(lines, query, message_index, n).len(),
    ensures
        ({
            let m = message_hits(lines, query, message_index, n)[j];
            &&& m.message_index == message_index
            &&& 0 <= m.line_index < n
            &&& m.line_text == lines[m.line_index]
            &&& reads(m.line_text, query, m.col)
        }),
    decreases n,
{
    if n > 0 {
        let before = message_hits(lines, query, message_index, n - 1);
        if j < before.len() {
            law_matches_read(lines, query, message_index, n - 1, j);
        } else {
            law_hits_read(lines[n - 1], query, j - before.len());
        }
    }
}

/// A message in which some line reads the query anywhere has a match.
pub proof fn law_a_message_that_reads_is_found(
    lines: Seq<Seq<char>>,
    query: Seq<char>,
    message_index: int,
    l: int,
    k: int,
)
    requires
        query.len() > 0,
        0 <= l < lines.len(),
        reads(lines[l], query, k),
    ensures
        message_hits(lines, query, message_index, lines.len() as int).len() > 0,
{
    law_hits_are_found(lines[l], query);
    law_every_place_is_listed(lines, query, message_index, l, 0);
}

/// The log's list of hits holds exactly the lines that read the pattern, from the
/// first to the last.
pub proof fn law_log_hits(lines: Seq<LogEntry>, pattern: Seq<char>, n: int)
    requires
        pattern.len() > 0,
        0 <= n <= lines.len() <= usize::MAX,
    ensures
        forall|l: int|
            #![trigger lines[l]]
            0 <= l < n ==> (lines_hit(lines, pattern, n).contains(l as usize) <==> exists|k: int|
                reads(lines[l].text@, pattern, k)),
        forall|i: int| 0 <= i < lines_hit(lines, pattern, n).len() ==> (#[trigger] lines_hit(
            lines,
            pattern,
            n,
        )[i]) < n,
        forall|i: int, j: int|
            0 <= i < j < lines_hit(lines, pattern, n).len() ==> (#[trigger] lines_hit(
                lines,
                pattern,
                n,
            )[i]) < #[trigger] lines_hit(lines, pattern, n)[j],
    decreases n,
{
    if n > 0 {
        law_log_hits(lines, pattern, n - 1);
        let before = lines_hit(lines, pattern, n - 1);
        let all = lines_hit(lines, pattern, n);
        law_hits_are_found(lines[n - 1].text@, pattern);
        assert forall|l: int|
            #![trigger lines[l]]
            0 <= l < n implies (all.contains(l as usize) <==> exists|k: int|
            reads(lines[l].text@, pattern, k)) by {
            if all.contains(l as usize) {
                let i = choose|i: int| 0 <= i < all.len() && all[i] == l as usize;
                if i < before.len() {
                    assert(before[i] == l as usize);
                    assert(before.contains(l as usize));
                }
            }
            if l < n - 1 && before.contains(l as usize) {
                let i = choose|i: int| 0 <= i < before.len() && before[i] == l as usize;
                assert(all[i] == l as usize);
            }
            if l == n - 1 && line_hits(lines[l].text@, pattern).len() > 0 {
                assert(all[all.len() - 1] == l as usize);
            }
        }
    }
}

/// Where no hit is current, a step forward goes to the first hit below the
/// cursor's line, or around to the first of all; a step back to the last one
/// above it, or around to the last of all.
pub proof fn law_walk_from_the_cursor(s: LogSearch, cursor: int)
    requires
        s.current is None,
        s.matches@.len() > 0,
        forall|i: int, j: int|
            0 <= i < j < s.matches@.len() ==> (#[trigger] s.matches@[i]) < #[trigger] s.matches@[j],
    ensures
        ({
            let next = next_place(s, cursor);
            let back = previous_place(s, cursor);
            let last = s.matches@.len() - 1;
            &&& 0 <= next <= last
            &&& 0 <= back <= last
            &&& s.matches@[last] > cursor ==> s.matches@[next] > cursor && forall|i: int|
                0 <= i < next ==> (#[trigger] s.matches@[i]) <= cursor
            &&& s.matches@[last] <= cursor ==> next == 0
            &&& s.matches@[0] < cursor ==> s.matches@[back] < cursor && forall|i: int|
                back < i <= last ==> (#[trigger] s.matches@[i]) >= cursor
            &&& s.matches@[0] >= cursor ==> back == last
        }),
{
    lemma_first_place(s.matches@, cursor + 1);
    lemma_first_place(s.matches@, cursor);
    let last = s.matches@.len() - 1;
    let back = previous_place(s, cursor);
    match first_from(s.matches@, cursor) {
        Some(k) => {
            assert forall|i: int| k <= i <= last implies (#[trigger] s.matches@[i]) >= cursor by {
                if k < i {
                    assert(s.matches@[k] < s.matches@[i]);
                }
            }
            if k > 0 {
                assert(s.matches@[k - 1] < cursor);
                assert(s.matches@[0] < cursor);
            }
        },
        None => {
            assert(s.matches@[last] < cursor);
            assert(s.matches@[0] < cursor);
        },
    }
}

proof fn lemma_first_place(matches: Seq<usize>, least: int)
    ensures
        match first_from(matches, least) {
            Some(k) => 0 <= k < matches.len() && matches[k] >= least && forall|j: int|
                0 <= j < k ==> (#[trigger] matches[j]) < least,
            None => forall|j: int| 0 <= j < matches.len() ==> (#[trigger] matches[j]) < least,
        },
    decreases matches.len(),
{
    if matches.len() > 0 && matches[0] < least {
        let rest = matches.drop_first();
        lemma_first_place(rest, least);
        match first_from(matches, least) {
            Some(k) => {
                assert forall|j: int| 0 <= j < k implies (#[trigger] matches[j]) < least by {
                    if j > 0 {
                        assert(rest[j - 1] == matches[j]);
                    }
                }
            },
            None => {
                assert forall|j: int| 0 <= j < matches.len() implies (#[trigger] matches[j])
                    < least by {
                    if j > 0 {
                        assert(rest[j - 1] == matches[j]);
                    }
                }
            },
        }
    }
}

/// Stepping forward from hit to hit goes through all of them in order and around;
/// stepping back goes the other way.
pub proof fn law_walk_visits_all(s: LogSearch, cursor: int, i: usize)
    requires
        s.current == Some(i),
        i < s.matches@.len(),
    ensures
        next_place(s, cursor) == (i + 1) % (s.matches@.len() as int),
        previous_place(s, cursor) == (i - 1) % (s.matches@.len() as int),
{
    let n = s.matches@.len() as int;
    if i + 1 < n {
        vstd::arithmetic::div_mod::lemma_small_mod((i + 1) as nat, n as nat);
    } else {
        vstd::arithmetic::div_mod::lemma_mod_self_0(n);
    }
    if i > 0 {
        vstd::arithmetic::div_mod::lemma_small_mod((i - 1) as nat, n as nat);
    } else {
        vstd::arithmetic::div_mod::lemma_mod_add_multiples_vanish(-1, n);
        vstd::arithmetic::div_mod::lemma_small_mod((n - 1) as nat, n as nat);
    }
}

/// A committed search puts the cursor on a line with a hit, the nearest from
/// where it was, unless there is none at all.
pub proof fn law_commit_lands_on_a_hit(before: LogViewerState, after: LogViewerState)
    requires
        committed(before, after),
        before.search_buf matches Some(p) && p@.len() > 0,
        before.lines@.len() <= usize::MAX,
    ensures
        ({
            let pattern = before.search_buf->0@;
            let hit = |l: int|
                0 <= l < before.lines@.len() && exists|k: int|
                    reads(before.lines@[l].text@, pattern, k);
            &&& after.search matches Some(s) && s.pattern@ == pattern && s.current is None
            &&& after.search_buf is None
            &&& after.lines@ == before.lines@
            &&& (exists|l: int| #[trigger] hit(l)) ==> hit(after.cursor as int)
            &&& (exists|l: int| #[trigger] hit(l) && l >= before.cursor) ==> after.cursor
                >= before.cursor && forall|l: int|
                before.cursor <= l < after.cursor ==> !#[trigger] hit(l)
            &&& !(exists|l: int| #[trigger] hit(l)) ==> after.cursor == before.cursor
        }),
{
    let pattern = before.search_buf->0@;
    let lines = before.lines@;
    let n = lines.len() as int;
    let hits = lines_hit(lines, pattern, n);
    let hit = |l: int| 0 <= l < n && exists|k: int| reads(lines[l].text@, pattern, k);
    law_log_hits(lines, pattern, n);
    lemma_first_place(hits, before.cursor as int);
    assert forall|i: int| 0 <= i < hits.len() implies hit(#[trigger] hits[i] as int) by {
        assert(hits.contains(hits[i]));
        let l = hits[i] as int;
        assert(lines[l] == lines[l]);
    }
    assert forall|l: int| #[trigger] hit(l) implies hits.contains(l as usize) by {
        assert(lines[l] == lines[l]);
    }
    if exists|l: int| #[trigger] hit(l) {
        let l = choose|l: int| #[trigger] hit(l);
        assert(hits.contains(l as usize));
        assert(hits.len() > 0);
    }
    if exists|l: int| #[trigger] hit(l) && l >= before.cursor {
        let l = choose|l: int| #[trigger] hit(l) && l >= before.cursor;
        assert(hits.contains(l as usize));
        let j = choose|j: int| 0 <= j < hits.len() && hits[j] == l as usize;
        assert(hits[j] >= before.cursor);
        let i = first_from(hits, before.cursor as int)->0;
        assert forall|m: int| before.cursor <= m < after.cursor implies !#[trigger] hit(m) by {
            if hit(m) {
                assert(hits.contains(m as usize));
                let q = choose|q: int| 0 <= q < hits.len() && hits[q] == m as usize;
                if q >= i {
                    assert(q == i || hits[i] < hits[q]);
                }
            }
        }
    }
    if hits.len() > 0 {
        assert(hit(hits[0] as int));
    }
}

/// A search of a message keeps the matches found before, adds one for every place
/// where a line reads the query, and no other.
pub proof fn law_search_finds_every_line(
    out: &mut Vec<SearchMatch>,
    lines: &Vec<String>,
    query: &str,
    message_index: usize,
    l: int,
    k: int,
)
    requires
        call_ensures(find_in_message, (out, lines, query, message_index), ()),
        query@.len() > 0,
        0 <= l < lines@.len(),
        reads(lines@[l]@, query@, k),
    ensures
        old(out)@.len() < final(out)@.len(),
        hit_views(final(out)@).take(old(out)@.len() as int) == hit_views(old(out)@),
        exists|j: int|
            old(out)@.len() <= j < final(out)@.len() && (#[trigger] final(out)@[j]).message_index
                == message_index && final(out)@[j].line_index == l && final(out)@[j].line_text@
                == lines@[l]@ && final(out)@[j].col <= k < final(out)@[j].col + query@.len(),
        forall|j: int|
            old(out)@.len() <= j < final(out)@.len() ==> reads(
                (#[trigger] final(out)@[j]).line_text@,
                query@,
                final(out)@[j].col as int,
            ),
{
    let all = text::texts(lines@);
    let n = lines@.len() as int;
    let before = hit_views(old(out)@);
    let after = hit_views(final(out)@);
    let found = message_hits(all, query@, message_index as int, n);
    assert(all[l] == lines@[l]@);
    assert(after.take(before.len() as int) =~= before);
    law_hits_are_all(all[l], query@);
    let hits = line_hits(all[l], query@);
    let i = choose|i: int| 0 <= i < hits.len() && (#[trigger] hits[i]).0 <= k < hits[i].1;
    law_every_place_is_listed(all, query@, message_index as int, l, i);
    law_hits_read(all[l], query@, i);
    let at = hits_before(all, query@, l) + i;
    let j = before.len() + at;
    assert(after[j] == found[at]);
    assert(final(out)@[j].line_index == l);
    assert forall|m: int| old(out)@.len() <= m < final(out)@.len() implies reads(
        (#[trigger] final(out)@[m]).line_text@,
        query@,
        final(out)@[m].col as int,
    ) by {
        assert(after[m] == found[m - before.len()]);
        law_matches_read(all, query@, message_index as int, n, m - before.len());
    }
}

/// The log's search lists the lines that read the pattern, all of them and in
/// order.
pub proof fn law_log_search_lists_every_line(lines: &Vec<LogEntry>, pattern: &str, r: Vec<usize>, l: usize)
    requires
        call_ensures(find_in_log, (lines, pattern), r),
        pattern@.len() > 0,
        l < lines@.len() <= usize::MAX,
    ensures
        r@.contains(l) <==> exists|k: int| reads(lines@[l as int].text@, pattern@, k),
        forall|i: int, j: int| 0 <= i < j < r@.len() ==> (#[trigger] r@[i]) < #[trigger] r@[j],
{
    law_log_hits(lines@, pattern@, lines@.len() as int);
    assert(lines@[l as int] == lines@[l as int]);
}

/// New lines leave the pattern of a search as it is, find its hits anew, and keep
/// the current one where it still is one.
pub proof fn law_search_goes_along(
    before: Option<LogSearch>,
    after: Option<LogSearch>,
    lines: Seq<LogEntry>,
)
    requires
        reindexed(before, after, lines),
    ensures
        before is Some <==> after is Some,
        before matches Some(a) ==> after->0.pattern@ == a.pattern@ && after->0.matches@
            == lines_hit(lines, a.pattern@, lines.len() as int),
        before matches Some(a) ==> (a.current matches Some(i) ==> i < after->0.matches@.len()
            ==> after->0.current == Some(i)),
        before matches Some(a) ==> (after->0.current matches Some(i) ==> a.current == Some(i) && i
            < after->0.matches@.len()),
{
}

/// A step of a search puts the cursor on the line of the hit that is current from
/// then on, and leaves all else.
pub proof fn law_step_shows_the_hit(before: LogViewerState, after: LogViewerState, forward: bool)
    requires
        walked(before, after, forward),
        before.search_fits(),
        before.search matches Some(s) ==> s.matches@.len() <= usize::MAX,
    ensures
        after.lines == before.lines && after.wrap == before.wrap,
        before.search matches Some(s) ==> s.matches@.len() > 0 ==> {
            &&& after.search is Some && after.search->0.current is Some
            &&& after.search->0.matches == s.matches
            &&& after.search->0.current->0 < s.matches@.len()
            &&& after.cursor == s.matches@[after.search->0.current->0 as int]
            &&& s.current matches Some(i) ==> after.search->0.current->0 == (if forward {
                if i + 1 < s.matches@.len() {
                    i + 1
                } else {
                    0
                }
            } else {
                if i > 0 {
                    i - 1
                } else {
                    s.matches@.len() - 1
                }
            })
        },
        before.search is None ==> after == before,
{
}

} // verus!
