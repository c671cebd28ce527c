//! Searching logs, with lines of context.

use crate::logs::Target;
use crate::paint::Pal;
use crate::digits;
use crate::find;
use crate::fmt;
use crate::logtext;
use crate::paint;
use crate::wrap;
use vstd::prelude::*;

verus! {

// ---------------------------------------------------------------------------
// what a search shows
// ---------------------------------------------------------------------------

/// Something that a search shows of a log.
pub enum Shown {
    /// That lines are left out.
    Gap,
    /// A line near a match, by its number.
    Near(u64, String),
    /// A line that matches, by its number.
    Match(u64, String),
}

/// Something that a search shows of a log.
pub enum ShownView {
    Gap,
    Near(int, Seq<char>),
    Match(int, Seq<char>),
}

impl View for Shown {
    type V = ShownView;

    open spec fn view(&self) -> ShownView {
        match *self {
            Shown::Gap => ShownView::Gap,
            Shown::Near(n, t) => ShownView::Near(n as int, t@),
            Shown::Match(n, t) => ShownView::Match(n as int, t@),
        }
    }
}

/// The views of what is shown.
pub open spec fn shown_views(s: Seq<Shown>) -> Seq<ShownView> {
    s.map_values(|x: Shown| x@)
}

/// Does line `k` match?
pub open spec fn is_match(lines: Seq<Seq<char>>, pat: Seq<char>, icase: bool, k: int) -> bool {
    0 <= k < lines.len() && find::found_in(lines[k], pat, icase) is Some
}

/// Is line `k` shown: is there a match at most `context` lines away?
pub open spec fn is_near(
    lines: Seq<Seq<char>>,
    pat: Seq<char>,
    icase: bool,
    context: int,
    k: int,
) -> bool {
    0 <= k < lines.len() && exists|m: int|
        #![trigger is_match(lines, pat, icase, m)]
        is_match(lines, pat, icase, m) && m - context <= k <= m + context
}

/// Is one of the first `k` lines shown?
pub open spec fn any_near(
    lines: Seq<Seq<char>>,
    pat: Seq<char>,
    icase: bool,
    context: int,
    k: int,
) -> bool {
    exists|j: int| j < k && #[trigger] is_near(lines, pat, icase, context, j)
}

/// What is shown of the first `k` lines: the lines near a match, in order, and with context a
/// gap wherever lines between them are left out.
pub open spec fn expected(
    lines: Seq<Seq<char>>,
    pat: Seq<char>,
    icase: bool,
    context: int,
    k: nat,
) -> Seq<ShownView>
    decreases k,
{
    if k == 0 {
        Seq::empty()
    } else {
        let i = k - 1;
        let before = expected(lines, pat, icase, context, i as nat);
        if !is_near(lines, pat, icase, context, i) {
            before
        } else {
            let parted = context > 0 && !is_near(lines, pat, icase, context, i - 1) && any_near(
                lines,
                pat,
                icase,
                context,
                i,
            );
            let b1 = if parted {
                before.push(ShownView::Gap)
            } else {
                before
            };
            b1.push(
                if is_match(lines, pat, icase, i) {
                    ShownView::Match(i + 1, lines[i])
                } else {
                    ShownView::Near(i + 1, lines[i])
                },
            )
        }
    }
}

// ---------------------------------------------------------------------------
// line by line
// ---------------------------------------------------------------------------

/// A search of a log, as far as it has come.
pub struct Search {
    /// The number of lines read.
    pub lineno: u64,
    /// The lines that are shown if a match follows.
    pub before: Vec<(u64, String)>,
    /// The number of lines that are still shown behind the last match.
    pub after: usize,
    /// The number of the last line shown, where there is context.
    pub last_printed: u64,
    /// The number of matches.
    pub n: u64,
}

/// A search of a log, as far as it has come.
pub struct SearchView {
    pub lineno: int,
    pub before: Seq<(int, Seq<char>)>,
    pub after: int,
    pub last_printed: int,
    pub n: int,
}

/// Numbered lines.
pub open spec fn numbered(v: Seq<(u64, String)>) -> Seq<(int, Seq<char>)> {
    v.map_values(|l: (u64, String)| (l.0 as int, l.1@))
}

impl View for Search {
    type V = SearchView;

    open spec fn view(&self) -> SearchView {
        SearchView {
            lineno: self.lineno as int,
            before: numbered(self.before@),
            after: self.after as int,
            last_printed: self.last_printed as int,
            n: self.n as int,
        }
    }
}

impl Search {
    /// Can the search go on?
    pub open spec fn wf(&self) -> bool {
        &&& self.n <= self.lineno
        &&& self.last_printed <= self.lineno
        &&& forall|k: int|
            0 <= k < self.before@.len() ==> (#[trigger] self.before@[k]).0 <= self.lineno
    }

    /// A search that has read nothing.
    pub fn new() -> (r: Search)
        ensures
            r.wf(),
            r@ == fresh(),
    {
        let s = Search { lineno: 0, before: Vec::new(), after: 0, last_printed: 0, n: 0 };
        assert(s@.before == Seq::<(int, Seq<char>)>::empty());
        s
    }
}

/// A search that has read nothing.
pub open spec fn fresh() -> SearchView {
    SearchView { lineno: 0, before: Seq::empty(), after: 0, last_printed: 0, n: 0 }
}

/// The lines that are shown before a match.
pub open spec fn lead_in(before: Seq<(int, Seq<char>)>) -> Seq<ShownView> {
    before.map_values(|l: (int, Seq<char>)| ShownView::Near(l.0, l.1))
}

/// One more line: the search behind it, and what is shown.
pub open spec fn stepped(
    s: SearchView,
    line: Seq<char>,
    matches: bool,
    context: int,
) -> (SearchView, Seq<ShownView>) {
    let ln = s.lineno + 1;
    if matches {
        let first = if s.before.len() > 0 {
            s.before[0].0
        } else {
            ln
        };
        let gap = if context > 0 && s.last_printed > 0 && first > s.last_printed + 1 {
            seq![ShownView::Gap]
        } else {
            Seq::empty()
        };
        (
            SearchView {
                lineno: ln,
                before: Seq::empty(),
                after: context,
                last_printed: if context > 0 {
                    ln
                } else if s.before.len() > 0 {
                    s.before.last().0
                } else {
                    s.last_printed
                },
                n: s.n + 1,
            },
            (gap + lead_in(s.before)).push(ShownView::Match(ln, line)),
        )
    } else if s.after > 0 {
        (
            SearchView { lineno: ln, after: s.after - 1, last_printed: ln, ..s },
            seq![ShownView::Near(ln, line)],
        )
    } else if context > 0 {
        let more = s.before.push((ln, line));
        (
            SearchView {
                lineno: ln,
                before: if more.len() > context {
                    more.skip(1)
                } else {
                    more
                },
                ..s
            },
            Seq::empty(),
        )
    } else {
        (SearchView { lineno: ln, ..s }, Seq::empty())
    }
}

/// The search once it has read the lines, and what it has shown.
pub open spec fn searched(
    lines: Seq<Seq<char>>,
    pat: Seq<char>,
    icase: bool,
    context: int,
) -> (SearchView, Seq<ShownView>)
    decreases lines.len(),
{
    if lines.len() == 0 {
        (fresh(), Seq::empty())
    } else {
        let (s, shown) = searched(lines.drop_last(), pat, icase, context);
        let line = lines.last();
        let (t, more) = stepped(s, line, find::found_in(line, pat, icase) is Some, context);
        (t, shown + more)
    }
}

/// One more line.
pub fn step(s: &mut Search, line: String, matches: bool, context: usize) -> (r: Vec<Shown>)
    requires
        old(s).wf(),
        old(s).lineno < u64::MAX,
    ensures
        final(s).wf(),
        (final(s)@, shown_views(r@)) == stepped(old(s)@, line@, matches, context as int),
{
    let ghost was = s@;
    let mut out: Vec<Shown> = Vec::new();
    s.lineno += 1;
    let lineno: u64 = s.lineno;
    if matches {
        s.n += 1;
        let first: u64 = if s.before.len() > 0 {
            s.before[0].0
        } else {
            lineno
        };
        if context > 0 && s.last_printed > 0 && first > s.last_printed + 1 {
            out.push(Shown::Gap);
        }
        let ghost gap = shown_views(out@);
        assert(gap =~= if out@.len() > 0 {
            seq![ShownView::Gap]
        } else {
            Seq::empty()
        });
        let mut lead: Vec<(u64, String)> = Vec::new();
        std::mem::swap(&mut lead, &mut s.before);
        let ghost all = numbered(lead@);
        let last: Option<u64> = if lead.len() > 0 {
            Some(lead[lead.len() - 1].0)
        } else {
            None
        };
        let mut i: usize = 0;
        assert(gap + lead_in(all.take(0)) =~= gap);
        while i < lead.len()
            invariant
                i <= lead@.len(),
                all == numbered(lead@),
                shown_views(out@) == gap + lead_in(all.take(i as int)),
            decreases lead@.len() - i,
        {
            let ghost done = shown_views(out@);
            let ln: u64 = lead[i].0;
            out.push(Shown::Near(ln, lead[i].1.clone()));
            assert(shown_views(out@) =~= done.push(ShownView::Near(all[i as int].0, all[i as int].1)));
            assert(lead_in(all.take(i + 1)) =~= lead_in(all.take(i as int)).push(
                ShownView::Near(all[i as int].0, all[i as int].1),
            ));
            i += 1;
        }
        assert(all.take(i as int) =~= all);
        if context > 0 {
            s.last_printed = lineno;
        } else {
            match last {
                Some(n) => {
                    s.last_printed = n;
                },
                None => {},
            }
        }
        s.after = context;
        let ghost done = shown_views(out@);
        out.push(Shown::Match(lineno, line));
        assert(shown_views(out@) =~= done.push(ShownView::Match(lineno as int, line@)));
        assert(numbered(s.before@) =~= Seq::<(int, Seq<char>)>::empty());
    } else if s.after > 0 {
        s.last_printed = lineno;
        s.after -= 1;
        out.push(Shown::Near(lineno, line));
        assert(shown_views(out@) =~= seq![ShownView::Near(lineno as int, line@)]);
    } else if context > 0 {
        let ghost more = was.before.push((lineno as int, line@));
        s.before.push((lineno, line));
        assert(numbered(s.before@) =~= more);
        if s.before.len() > context {
            s.before.remove(0);
            assert(numbered(s.before@) =~= more.skip(1));
        }
        assert(shown_views(out@) =~= Seq::<ShownView>::empty());
    } else {
        assert(shown_views(out@) =~= Seq::<ShownView>::empty());
    }
    out
}

/// What the search keeps once it has read the lines: the lines behind the last shown one, as
/// far as a match would show them. `last` is the index of the last shown line, or -1.
spec fn keeps(
    lines: Seq<Seq<char>>,
    pat: Seq<char>,
    icase: bool,
    context: int,
    s: SearchView,
    last: int,
) -> bool {
    let n = lines.len() as int;
    &&& s.lineno == n
    &&& -1 <= last < n
    &&& last >= 0 ==> is_near(lines, pat, icase, context, last)
    &&& forall|k: int| last < k ==> !#[trigger] is_near(lines, pat, icase, context, k)
    &&& s.last_printed == (if context > 0 {
        last + 1
    } else {
        0
    })
    &&& s.before.len() == (if n - 1 - last < context {
        n - 1 - last
    } else {
        context
    })
    &&& forall|k: int|
        0 <= k < s.before.len() ==> #[trigger] s.before[k] == (
            n - s.before.len() + k + 1,
            lines[n - s.before.len() + k],
        )
    &&& 0 <= s.after <= context
    &&& s.after > 0 ==> last == n - 1 && is_match(lines, pat, icase, n - 1 - context + s.after)
    &&& forall|m: int| #[trigger]
        is_match(lines, pat, icase, m) ==> m + context <= n - 1 + s.after
}

/// A line that is no match adds at most itself to the lines shown.
proof fn lemma_no_match(
    lines: Seq<Seq<char>>,
    line: Seq<char>,
    pat: Seq<char>,
    icase: bool,
    context: int,
    k: int,
)
    requires
        find::found_in(line, pat, icase) is None,
        k < lines.len(),
    ensures
        is_match(lines.push(line), pat, icase, k) == is_match(lines, pat, icase, k),
        is_near(lines.push(line), pat, icase, context, k) == is_near(
            lines,
            pat,
            icase,
            context,
            k,
        ),
{
    let more = lines.push(line);
    assert forall|m: int| #[trigger] is_match(more, pat, icase, m) == is_match(lines, pat, icase, m) by {
        if 0 <= m < lines.len() {
            assert(more[m] == lines[m]);
        }
    }
    if is_near(lines, pat, icase, context, k) {
        let m = choose|m: int|
            #![trigger is_match(lines, pat, icase, m)]
            is_match(lines, pat, icase, m) && m - context <= k <= m + context;
        assert(is_match(more, pat, icase, m));
    }
    if is_near(more, pat, icase, context, k) {
        let m = choose|m: int|
            #![trigger is_match(more, pat, icase, m)]
            is_match(more, pat, icase, m) && m - context <= k <= m + context;
        assert(is_match(lines, pat, icase, m));
    }
}

/// A match adds the lines at most `context` before it, and itself.
proof fn lemma_match(
    lines: Seq<Seq<char>>,
    line: Seq<char>,
    pat: Seq<char>,
    icase: bool,
    context: int,
    k: int,
)
    requires
        find::found_in(line, pat, icase) is Some,
        context >= 0,
        k <= lines.len(),
    ensures
        k < lines.len() ==> is_match(lines.push(line), pat, icase, k) == is_match(
            lines,
            pat,
            icase,
            k,
        ),
        is_match(lines.push(line), pat, icase, lines.len() as int),
        is_near(lines.push(line), pat, icase, context, k) == (k >= 0 && (is_near(
            lines,
            pat,
            icase,
            context,
            k,
        ) || k >= lines.len() - context)),
{
    let more = lines.push(line);
    let n = lines.len() as int;
    assert(more[n] == line);
    assert(is_match(more, pat, icase, n));
    assert forall|m: int| m < n implies #[trigger] is_match(more, pat, icase, m) == is_match(
        lines,
        pat,
        icase,
        m,
    ) by {
        if 0 <= m < n {
            assert(more[m] == lines[m]);
        }
    }
    if is_near(lines, pat, icase, context, k) {
        let m = choose|m: int|
            #![trigger is_match(lines, pat, icase, m)]
            is_match(lines, pat, icase, m) && m - context <= k <= m + context;
        assert(is_match(more, pat, icase, m));
    }
    if is_near(more, pat, icase, context, k) {
        let m = choose|m: int|
            #![trigger is_match(more, pat, icase, m)]
            is_match(more, pat, icase, m) && m - context <= k <= m + context;
        if m < n {
            assert(is_match(lines, pat, icase, m));
        }
    }
}

/// What is shown of the first lines depends on which of them are shown.
proof fn lemma_expected_same(
    a: Seq<Seq<char>>,
    b: Seq<Seq<char>>,
    pat: Seq<char>,
    icase: bool,
    context: int,
    k: nat,
)
    requires
        k <= a.len(),
        k <= b.len(),
        forall|j: int| 0 <= j < k ==> a[j] == b[j],
        forall|j: int|
            j < k ==> (#[trigger] is_near(a, pat, icase, context, j)) == is_near(
                b,
                pat,
                icase,
                context,
                j,
            ),
    ensures
        expected(a, pat, icase, context, k) == expected(b, pat, icase, context, k),
        any_near(a, pat, icase, context, k as int) == any_near(b, pat, icase, context, k as int),
    decreases k,
{
    if k > 0 {
        lemma_expected_same(a, b, pat, icase, context, (k - 1) as nat);
        assert(is_match(a, pat, icase, k - 1) == is_match(b, pat, icase, k - 1));
        assert(is_near(a, pat, icase, context, k - 1) == is_near(b, pat, icase, context, k - 1));
        assert(is_near(a, pat, icase, context, k - 2) == is_near(b, pat, icase, context, k - 2));
    }
    if any_near(a, pat, icase, context, k as int) {
        let j = choose|j: int| j < k && #[trigger] is_near(a, pat, icase, context, j);
        assert(is_near(b, pat, icase, context, j));
    }
    if any_near(b, pat, icase, context, k as int) {
        let j = choose|j: int| j < k && #[trigger] is_near(b, pat, icase, context, j);
        assert(is_near(a, pat, icase, context, j));
    }
}

/// Lines that are not shown add nothing.
proof fn lemma_expected_idle(
    lines: Seq<Seq<char>>,
    pat: Seq<char>,
    icase: bool,
    context: int,
    from: nat,
    to: nat,
)
    requires
        from <= to,
        forall|j: int| from <= j < to ==> !#[trigger] is_near(lines, pat, icase, context, j),
    ensures
        expected(lines, pat, icase, context, to) == expected(lines, pat, icase, context, from),
    decreases to,
{
    if from < to {
        assert(!is_near(lines, pat, icase, context, to - 1));
        lemma_expected_idle(lines, pat, icase, context, from, (to - 1) as nat);
    }
}

/// Lines that are shown without being matches add themselves, and a gap before the first
/// one where lines are left out there.
proof fn lemma_expected_run(
    lines: Seq<Seq<char>>,
    pat: Seq<char>,
    icase: bool,
    context: int,
    from: nat,
    to: nat,
)
    requires
        from <= to <= lines.len(),
        forall|j: int|
            from <= j < to ==> #[trigger] is_near(lines, pat, icase, context, j) && !is_match(
                lines,
                pat,
                icase,
                j,
            ),
    ensures
        expected(lines, pat, icase, context, to) == expected(lines, pat, icase, context, from) + (
        if from < to && context > 0 && !is_near(lines, pat, icase, context, from - 1) && any_near(
            lines,
            pat,
            icase,
            context,
            from as int,
        ) {
            seq![ShownView::Gap]
        } else {
            Seq::empty()
        }) + Seq::new((to - from) as nat, |k: int| ShownView::Near(from + k + 1, lines[from + k])),
    decreases to - from,
{
    let base = expected(lines, pat, icase, context, from);
    if from == to {
        assert(base + Seq::<ShownView>::empty() + Seq::new(
            0,
            |k: int| ShownView::Near(from + k + 1, lines[from + k]),
        ) =~= base);
    } else {
        let mid = (to - 1) as nat;
        lemma_expected_run(lines, pat, icase, context, from, mid);
        assert(is_near(lines, pat, icase, context, to - 1));
        if mid > from {
            assert(is_near(lines, pat, icase, context, to - 2));
        }
        let gap: Seq<ShownView> = if context > 0 && !is_near(lines, pat, icase, context, from - 1)
            && any_near(lines, pat, icase, context, from as int) {
            seq![ShownView::Gap]
        } else {
            Seq::empty()
        };
        assert(expected(lines, pat, icase, context, to) =~= base + gap + Seq::new(
            (to - from) as nat,
            |k: int| ShownView::Near(from + k + 1, lines[from + k]),
        ));
    }
}

/// The step of a match: the lines kept, itself, and a gap before them where lines are left
/// out there.
proof fn lemma_match_shown(
    lines: Seq<Seq<char>>,
    line: Seq<char>,
    pat: Seq<char>,
    icase: bool,
    context: int,
    s: SearchView,
    last: int,
)
    requires
        context >= 0,
        keeps(lines, pat, icase, context, s, last),
        find::found_in(line, pat, icase) is Some,
    ensures
        expected(lines.push(line), pat, icase, context, lines.len() + 1) == expected(
            lines,
            pat,
            icase,
            context,
            lines.len(),
        ) + stepped(s, line, true, context).1,
        keeps(
            lines.push(line),
            pat,
            icase,
            context,
            stepped(s, line, true, context).0,
            lines.len() as int,
        ),
{
    let more = lines.push(line);
    let n = lines.len() as int;
    let from = (n - s.before.len()) as nat;
    let (t, shown) = stepped(s, line, true, context);
    assert forall|k: int| k < n implies (k < from ==> #[trigger] is_near(more, pat, icase, context, k)
        == is_near(lines, pat, icase, context, k)) && (from <= k ==> is_near(
        more,
        pat,
        icase,
        context,
        k,
    ) && !is_match(more, pat, icase, k)) by {
        lemma_match(lines, line, pat, icase, context, k);
        if k < from && k >= n - context && k >= 0 {
            // Such a line is shown already: it is near the last match.
            lemma_last_match(lines, pat, icase, context, s, last, k);
        }
        if from <= k {
            assert(!is_near(lines, pat, icase, context, k));
            if is_match(lines, pat, icase, k) {
                assert(is_near(lines, pat, icase, context, k));
            }
        }
    }
    lemma_match(lines, line, pat, icase, context, n);
    assert(more[n] == line);
    assert forall|j: int| 0 <= j < from implies more[j] == lines[j] by {}
    lemma_expected_same(more, lines, pat, icase, context, from);
    lemma_expected_idle(lines, pat, icase, context, (last + 1) as nat, n as nat);
    lemma_expected_idle(lines, pat, icase, context, (last + 1) as nat, from);
    lemma_expected_run(more, pat, icase, context, from, n as nat);
    let base = expected(lines, pat, icase, context, n as nat);
    let lead = Seq::new((n - from) as nat, |k: int| ShownView::Near(from + k + 1, more[from + k]));
    assert(lead_in(s.before) =~= lead);
    // The first line shown stands behind a gap if the line before it is left out and some
    // line is shown before that.
    assert(any_near(more, pat, icase, context, from as int) == (last >= 0)) by {
        if last >= 0 {
            assert(is_near(lines, pat, icase, context, last));
            assert(is_near(more, pat, icase, context, last));
        }
        if any_near(more, pat, icase, context, from as int) {
            let j = choose|j: int| j < from && #[trigger] is_near(more, pat, icase, context, j);
            assert(is_near(lines, pat, icase, context, j));
        }
    }
    assert(is_near(more, pat, icase, context, from - 1) == (last >= 0 && last == from - 1));
    if from == n {
        assert(expected(more, pat, icase, context, (n + 1) as nat) =~= base + shown);
    } else {
        assert(is_near(more, pat, icase, context, n - 1));
        assert(expected(more, pat, icase, context, (n + 1) as nat) =~= base + shown);
    }
    assert forall|k: int| n < k implies !#[trigger] is_near(more, pat, icase, context, k) by {}
    assert forall|m: int| #[trigger] is_match(more, pat, icase, m) implies m + context <= n
        + t.after by {}
}

/// A line at most `context` before the end and not behind the last one shown is shown.
proof fn lemma_last_match(
    lines: Seq<Seq<char>>,
    pat: Seq<char>,
    icase: bool,
    context: int,
    s: SearchView,
    last: int,
    k: int,
)
    requires
        context >= 0,
        keeps(lines, pat, icase, context, s, last),
        0 <= k <= last,
        k >= lines.len() - context,
    ensures
        is_near(lines, pat, icase, context, k),
{
    let n = lines.len() as int;
    let m = choose|m: int|
        #![trigger is_match(lines, pat, icase, m)]
        is_match(lines, pat, icase, m) && m - context <= last <= m + context;
    assert(is_match(lines, pat, icase, m));
    assert(is_near(lines, pat, icase, context, m));
    assert(m <= last);
    assert(m - context <= k <= m + context);
}

/// What a search shows of a log: the lines that match, and those at most `context` lines
/// away from one, each once and in order; with context, a gap wherever lines between them are
/// left out.
pub proof fn law_search(lines: Seq<Seq<char>>, pat: Seq<char>, icase: bool, context: int)
    requires
        context >= 0,
    ensures
        searched(lines, pat, icase, context).1 == expected(
            lines,
            pat,
            icase,
            context,
            lines.len(),
        ),
{
    lemma_search(lines, pat, icase, context);
}

/// The number of lines that match.
pub open spec fn match_count(lines: Seq<Seq<char>>, pat: Seq<char>, icase: bool) -> int
    decreases lines.len(),
{
    if lines.len() == 0 {
        0
    } else {
        match_count(lines.drop_last(), pat, icase) + (if find::found_in(lines.last(), pat, icase) is Some {
            1int
        } else {
            0
        })
    }
}

/// A search counts the lines that match, whatever the context.
pub proof fn law_search_counts(lines: Seq<Seq<char>>, pat: Seq<char>, icase: bool, context: int)
    ensures
        searched(lines, pat, icase, context).0.n == match_count(lines, pat, icase),
    decreases lines.len(),
{
    if lines.len() > 0 {
        law_search_counts(lines.drop_last(), pat, icase, context);
    }
}

/// A search shows what is expected of it, and keeps what it needs.
proof fn lemma_search(lines: Seq<Seq<char>>, pat: Seq<char>, icase: bool, context: int) -> (last:
    int)
    requires
        context >= 0,
    ensures
        searched(lines, pat, icase, context).1 == expected(
            lines,
            pat,
            icase,
            context,
            lines.len(),
        ),
        keeps(lines, pat, icase, context, searched(lines, pat, icase, context).0, last),
    decreases lines.len(),
{
    if lines.len() == 0 {
        -1
    } else {
        let before = lines.drop_last();
        let line = lines.last();
        let n = before.len() as int;
        assert(before.push(line) =~= lines);
        let last = lemma_search(before, pat, icase, context);
        let (s, shown) = searched(before, pat, icase, context);
        if find::found_in(line, pat, icase) is Some {
            lemma_match_shown(before, line, pat, icase, context, s, last);
            n
        } else {
            let (t, more) = stepped(s, line, false, context);
            assert forall|k: int| k < n implies #[trigger] is_near(lines, pat, icase, context, k)
                == is_near(before, pat, icase, context, k) by {
                lemma_no_match(before, line, pat, icase, context, k);
            }
            assert forall|m: int| #[trigger] is_match(lines, pat, icase, m) implies is_match(
                before,
                pat,
                icase,
                m,
            ) by {
                if m < n {
                    lemma_no_match(before, line, pat, icase, context, m);
                }
            }
            lemma_expected_same(lines, before, pat, icase, context, n as nat);
            if s.after > 0 {
                let m = n - 1 - context + s.after;
                lemma_no_match(before, line, pat, icase, context, m);
                assert(is_match(lines, pat, icase, m));
                assert(is_near(lines, pat, icase, context, n));
                assert(is_near(lines, pat, icase, context, n - 1));
                assert(expected(lines, pat, icase, context, lines.len()) =~= shown + more);
                n
            } else {
                assert(!is_near(lines, pat, icase, context, n)) by {
                    if is_near(lines, pat, icase, context, n) {
                        let m = choose|m: int|
                            #![trigger is_match(lines, pat, icase, m)]
                            is_match(lines, pat, icase, m) && m - context <= n <= m + context;
                        assert(is_match(before, pat, icase, m));
                    }
                }
                assert(expected(lines, pat, icase, context, lines.len()) =~= shown + more);
                last
            }
        }
    }
}

// ---------------------------------------------------------------------------
// the text
// ---------------------------------------------------------------------------

/// How a search looks for what, and how it shows it.
pub struct Query<'a> {
    pub pat: &'a str,
    pub icase: bool,
    pub context: usize,
    pub label_w: usize,
    pub pal: Pal,
}

/// The line of something that a search shows.
pub open spec fn shown_text(x: ShownView, t: Target, q: Query) -> Seq<char> {
    let label = paint::painted(q.pal.on, t.color@, fmt::padded(t.label@, q.label_w as nat));
    match x {
        ShownView::Gap => paint::dimmed(q.pal.on, "--"@) + "\n"@,
        ShownView::Near(n, line) => label + paint::dimmed(q.pal.on, "-"@ + digits::decimal(n as nat) + "- "@) + line
            + "\n"@,
        ShownView::Match(n, line) => label + paint::dimmed(q.pal.on, ":"@ + digits::decimal(n as nat) + ": "@)
            + find::highlighted(q.pal.on, line, q.pat@, q.icase) + "\n"@,
    }
}

/// The lines of what a search shows.
pub open spec fn shown_lines(s: Seq<ShownView>, t: Target, q: Query) -> Seq<char>
    decreases s.len(),
{
    if s.len() == 0 {
        Seq::empty()
    } else {
        shown_lines(s.drop_last(), t, q) + shown_text(s.last(), t, q)
    }
}

/// What is shown step by step is what is shown of all.
pub proof fn law_shown_lines(a: Seq<ShownView>, b: Seq<ShownView>, t: Target, q: Query)
    ensures
        shown_lines(a + b, t, q) == shown_lines(a, t, q) + shown_lines(b, t, q),
    decreases b.len(),
{
    if b.len() == 0 {
        assert(a + b == a);
        assert(shown_lines(a, t, q) + shown_lines(b, t, q) == shown_lines(a, t, q));
    } else {
        assert((a + b).drop_last() == a + b.drop_last());
        law_shown_lines(a, b.drop_last(), t, q);
        assert(shown_lines(a + b, t, q) == shown_lines(a, t, q) + shown_lines(b, t, q));
    }
}

/// The label of a log file.
fn show_label(t: &Target, q: &Query) -> (r: String)
    ensures
        r@ == paint::painted(q.pal.on, t.color@, fmt::padded(t.label@, q.label_w as nat)),
{
    q.pal.c(t.color, fmt::pad(t.label.as_str(), q.label_w).as_str())
}

/// The line of something that a search shows.
fn show_one(x: &Shown, t: &Target, q: &Query) -> (r: String)
    ensures
        r@ == shown_text(x@, *t, *q),
{
    match x {
        Shown::Gap => {
            let mut s = q.pal.dim("--");
            s.append("\n");
            s
        },
        Shown::Near(n, line) => {
            let mut at = "-".to_owned();
            at.append(digits::show(*n).as_str());
            at.append("- ");
            let mut s = show_label(t, q);
            s.append(q.pal.dim(at.as_str()).as_str());
            s.append(line.as_str());
            s.append("\n");
            s
        },
        Shown::Match(n, line) => {
            let mut at = ":".to_owned();
            at.append(digits::show(*n).as_str());
            at.append(": ");
            let mut s = show_label(t, q);
            s.append(q.pal.dim(at.as_str()).as_str());
            s.append(find::highlight(q.pal, line.as_str(), q.pat, q.icase).as_str());
            s.append("\n");
            s
        },
    }
}

/// The lines of what a search shows.
fn show_all(v: &Vec<Shown>, t: &Target, q: &Query) -> (r: String)
    ensures
        r@ == shown_lines(shown_views(v@), *t, *q),
{
    let ghost all = shown_views(v@);
    let mut out = String::new();
    let mut i: usize = 0;
    assert(out@ == shown_lines(all.take(0), *t, *q));
    while i < v.len()
        invariant
            i <= v@.len(),
            all == shown_views(v@),
            out@ == shown_lines(all.take(i as int), *t, *q),
        decreases v@.len() - i,
    {
        assert(all.take(i + 1).drop_last() == all.take(i as int));
        assert(all.take(i + 1).last() == v@[i as int]@);
        out.append(show_one(&v[i], t, q).as_str());
        i += 1;
    }
    assert(all.take(i as int) == all);
    out
}

/// `raw` without the line feeds at its end.
pub open spec fn without_lfs(raw: Seq<u8>) -> Seq<u8>
    decreases raw.len(),
{
    if raw.len() > 0 && raw.last() == 0x0a {
        without_lfs(raw.drop_last())
    } else {
        raw
    }
}

/// `raw` without the line feeds at its end.
pub fn strip_lf(raw: &[u8]) -> (r: Vec<u8>)
    ensures
        r@ == without_lfs(raw@),
{
    let mut to: usize = raw.len();
    assert(raw@.take(to as int) == raw@);
    while to > 0 && raw[to - 1] == 0x0a
        invariant
            to <= raw@.len(),
            without_lfs(raw@.take(to as int)) == without_lfs(raw@),
        decreases to,
    {
        assert(raw@.take(to as int).drop_last() == raw@.take(to - 1));
        to -= 1;
    }
    let r = logtext::bytes_of(raw, 0, to);
    assert(r@ == raw@.take(to as int));
    r
}

/// Does the pattern occur in the text?
pub fn has_match(line: &str, pat: &str, icase: bool) -> (r: bool)
    ensures
        r == (find::found_in(line@, pat@, icase) is Some),
{
    let at = find::find_ci(line.as_bytes(), pat.as_bytes(), icase);
    proof {
        find::law_bytes_find_characters(
            line@,
            pat@,
            icase,
            match at {
                Some(i) => Some(i as int),
                None => None,
            },
        );
    }
    at.is_some()
}

/// One more line of a log, as it would be shown: what the search shows now.
pub fn search_line(s: &mut Search, line: String, t: &Target, q: &Query) -> (r: String)
    requires
        old(s).wf(),
        old(s).lineno < u64::MAX,
    ensures
        final(s).wf(),
        ({
            let (after, shown) = stepped(
                old(s)@,
                line@,
                find::found_in(line@, q.pat@, q.icase) is Some,
                q.context as int,
            );
            final(s)@ == after && r@ == shown_lines(shown, *t, *q)
        }),
{
    let matches = has_match(line.as_str(), q.pat, q.icase);
    let shown = step(s, line, matches, q.context);
    show_all(&shown, t, q)
}

/// One more raw line of a log: what the search shows now.
pub fn search_raw(s: &mut Search, raw: &[u8], t: &Target, q: &Query) -> (r: String)
    requires
        old(s).wf(),
        old(s).lineno < u64::MAX,
    ensures
        final(s).wf(),
        ({
            let line = logtext::displayed(without_lfs(raw@));
            let (after, shown) = stepped(
                old(s)@,
                line,
                find::found_in(line, q.pat@, q.icase) is Some,
                q.context as int,
            );
            final(s)@ == after && r@ == shown_lines(shown, *t, *q)
        }),
{
    let line = logtext::display_bytes(strip_lf(raw).as_slice());
    search_line(s, line, t, q)
}

// ---------------------------------------------------------------------------
// the summary
// ---------------------------------------------------------------------------

/// What a search of logs comes to.
pub struct Tally {
    pub total: u64,
    pub files_hit: u64,
    pub scanned: u64,
    pub unreadable: u64,
}

/// One more log: `found` is the number of matches, `None` where the log was unreadable. The
/// sums wrap around at 64 bits.
pub fn count_file(t: &mut Tally, found: Option<u64>)
    ensures
        match found {
            Some(n) => {
                &&& final(t).scanned == wrap::word(old(t).scanned + 1)
                &&& final(t).files_hit == wrap::word(
                    old(t).files_hit + (if n > 0 {
                        1int
                    } else {
                        0
                    }),
                )
                &&& final(t).total == wrap::word(old(t).total + n)
                &&& final(t).unreadable == old(t).unreadable
            },
            None => {
                &&& final(t).unreadable == wrap::word(old(t).unreadable + 1)
                &&& final(t).scanned == old(t).scanned
                &&& final(t).files_hit == old(t).files_hit
                &&& final(t).total == old(t).total
            },
        },
{
    match found {
        Some(n) => {
            t.scanned = t.scanned.wrapping_add(1);
            if n > 0 {
                t.files_hit = t.files_hit.wrapping_add(1);
                t.total = t.total.wrapping_add(n);
            }
        },
        None => {
            t.unreadable = t.unreadable.wrapping_add(1);
        },
    }
}

/// The line below the results.
pub open spec fn summary_text(t: Tally, on: bool) -> Seq<char> {
    let l0 = digits::decimal(t.total as nat) + " matching line"@ + (if t.total == 1 {
        ""@
    } else {
        "s"@
    }) + " in "@ + digits::decimal(t.files_hit as nat) + " of "@ + digits::decimal(t.scanned as nat) + " logs"@;
    let l1 = if t.unreadable > 0 {
        l0 + " · "@ + digits::decimal(t.unreadable as nat) + " unreadable/missing"@
    } else {
        l0
    };
    " "@ + paint::dimmed(on, l1) + "\n"@
}

/// The line below the results.
pub fn summary(t: &Tally, pal: Pal) -> (r: String)
    ensures
        r@ == summary_text(*t, pal.on),
{
    let mut s = digits::show(t.total);
    s.append(" matching line");
    s.append(
        if t.total == 1 {
            ""
        } else {
            "s"
        },
    );
    s.append(" in ");
    s.append(digits::show(t.files_hit).as_str());
    s.append(" of ");
    s.append(digits::show(t.scanned).as_str());
    s.append(" logs");
    if t.unreadable > 0 {
        s.append(" · ");
        s.append(digits::show(t.unreadable).as_str());
        s.append(" unreadable/missing");
    }
    let mut out = " ".to_owned();
    out.append(pal.dim(s.as_str()).as_str());
    out.append("\n");
    out
}

/// What keeps a search from starting, with the exit status.
pub fn refuse_search(pat: &str, any_targets: bool) -> (r: Option<(String, u8)>)
    ensures
        match r {
            Some(e) => if pat@.len() == 0 {
                e.0@ == "empty pattern"@ && e.1 == 2
            } else {
                !any_targets && e.0@ == "no logs to search"@ && e.1 == 1
            },
            None => pat@.len() > 0 && any_targets,
        },
{
    if pat.is_empty() {
        Some(("empty pattern".to_owned(), 2))
    } else if !any_targets {
        Some(("no logs to search".to_owned(), 1))
    } else {
        None
    }
}

/// The exit status of a search: 0 if something matched, 1 if nothing did.
pub fn search_status(t: &Tally) -> (r: u8)
    ensures
        r == (if t.total > 0 {
            0u8
        } else {
            1u8
        }),
{
    if t.total > 0 {
        0
    } else {
        1
    }
}

} // verus!
